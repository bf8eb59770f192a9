//! The filesystem rights that Landlock can grant, and what each kind of path
//! receives.

use landlock::{Access, AccessFs as Flag, BitFlags, ABI};
use vstd::prelude::*;

verus! {

/// A filesystem right.
#[derive(Clone, Copy, Debug, PartialEq, Eq, Structural)]
pub enum AccessFs {
    Execute,
    WriteFile,
    ReadFile,
    ReadDir,
    RemoveDir,
    RemoveFile,
    MakeChar,
    MakeDir,
    MakeReg,
    MakeSock,
    MakeFifo,
    MakeBlock,
    MakeSym,
    Refer,
    Truncate,
    IoctlDev,
}

impl AccessFs {
    /// The position of the right among the kernel's flags.
    pub open spec fn position(self) -> u64 {
        match self {
            AccessFs::Execute => 0,
            AccessFs::WriteFile => 1,
            AccessFs::ReadFile => 2,
            AccessFs::ReadDir => 3,
            AccessFs::RemoveDir => 4,
            AccessFs::RemoveFile => 5,
            AccessFs::MakeChar => 6,
            AccessFs::MakeDir => 7,
            AccessFs::MakeReg => 8,
            AccessFs::MakeSock => 9,
            AccessFs::MakeFifo => 10,
            AccessFs::MakeBlock => 11,
            AccessFs::MakeSym => 12,
            AccessFs::Refer => 13,
            AccessFs::Truncate => 14,
            AccessFs::IoctlDev => 15,
        }
    }

    /// The right as a flag.
    pub open spec fn bit(self) -> u64 {
        1u64 << self.position()
    }
}

/// Calls `BitFlags::from_flag` on the `AccessFs` flag of landlock with the same
/// name and takes its bits: the kernel's `LANDLOCK_ACCESS_FS` constant, which
/// is a one at the position of the right.
#[verifier::external_body]
fn flag_bits(right: AccessFs) -> (bits: u64)
    ensures
        bits == right.bit(),
{
    let flag = match right {
        AccessFs::Execute => Flag::Execute, AccessFs::WriteFile => Flag::WriteFile,
        AccessFs::ReadFile => Flag::ReadFile, AccessFs::ReadDir => Flag::ReadDir,
        AccessFs::RemoveDir => Flag::RemoveDir, AccessFs::RemoveFile => Flag::RemoveFile,
        AccessFs::MakeChar => Flag::MakeChar, AccessFs::MakeDir => Flag::MakeDir,
        AccessFs::MakeReg => Flag::MakeReg, AccessFs::MakeSock => Flag::MakeSock,
        AccessFs::MakeFifo => Flag::MakeFifo, AccessFs::MakeBlock => Flag::MakeBlock,
        AccessFs::MakeSym => Flag::MakeSym, AccessFs::Refer => Flag::Refer,
        AccessFs::Truncate => Flag::Truncate, AccessFs::IoctlDev => Flag::IoctlDev,
    };
    BitFlags::from_flag(flag).bits()
}

/// A set of rights.
#[derive(Clone, Copy, Debug, PartialEq, Eq, Structural)]
pub struct AccessSet {
    pub bits: u64,
}

impl AccessSet {
    /// Whether the set holds a right.
    pub open spec fn has(self, right: AccessFs) -> bool {
        self.bits & right.bit() == right.bit()
    }

    /// Whether the set holds nothing but the rights listed here.
    pub open spec fn plain(self) -> bool {
        self.bits <= 0xffff
    }

    /// Whether the set holds a right.
    pub fn contains(self, right: AccessFs) -> (yes: bool)
        ensures
            yes == self.has(right),
    {
        let flag: u64 = flag_bits(right);
        self.bits & flag == flag
    }

    /// The set of exactly the listed rights.
    pub fn of(rights: &[AccessFs]) -> (set: AccessSet)
        ensures
            forall|right: AccessFs| #[trigger] set.has(right) <==> rights@.contains(right),
            set.plain(),
    {
        let mut bits: u64 = 0;
        let mut index: usize = 0;
        proof {
            assert forall|right: AccessFs| !(#[trigger] (AccessSet { bits: 0u64 }).has(right)) by {
                let position = right.position();
                assert(0u64 & (1u64 << position) != 1u64 << position) by (bit_vector)
                    requires
                        position < 64,
                ;
            }
        }
        while index < rights.len()
            invariant
                index <= rights.len(),
                bits <= 0xffff,
                forall|right: AccessFs| #[trigger]
                    (AccessSet { bits }).has(right) <==> rights@.take(index as int).contains(right),
            decreases rights.len() - index,
        {
            let ghost before = AccessSet { bits };
            let added = rights[index];
            bits = bits | flag_bits(added);
            index = index + 1;
            let ghost after = AccessSet { bits };
            let ghost shorter = rights@.take(index - 1);
            let ghost longer = rights@.take(index as int);
            proof {
                assert(longer =~= shorter.push(added));
                let position = added.position();
                let earlier = before.bits;
                assert(earlier | (1u64 << position) <= 0xffff) by (bit_vector)
                    requires
                        earlier <= 0xffff,
                        position < 16,
                ;
                assert forall|right: AccessFs| #[trigger] after.has(right) <==> longer.contains(
                    right,
                ) by {
                    lemma_flag_added(before.bits, added.position(), right.position());
                    assert(before.has(right) <==> shorter.contains(right));
                    assert(after.has(right) <==> (before.has(right) || right == added)) by {
                        lemma_positions(right, added);
                    }
                    if shorter.contains(right) {
                        let i = choose|i: int| 0 <= i < shorter.len() && shorter[i] == right;
                        assert(longer[i] == right);
                    }
                    if right == added {
                        assert(longer[index - 1] == right);
                    }
                    if longer.contains(right) {
                        let i = choose|i: int| 0 <= i < longer.len() && longer[i] == right;
                        assert(i < index - 1 ==> shorter[i] == right);
                    }
                }
            }
        }
        assert(rights@.take(index as int) =~= rights@);
        AccessSet { bits }
    }
}

proof fn lemma_positions(left: AccessFs, right: AccessFs)
    ensures
        left.position() == right.position() <==> left == right,
        left.position() < 64,
{
}

proof fn lemma_flag_added(bits: u64, added: u64, asked: u64)
    requires
        added < 64,
        asked < 64,
    ensures
        (bits | (1u64 << added)) & (1u64 << asked) == 1u64 << asked <==> (bits & (1u64 << asked)
            == 1u64 << asked || added == asked),
{
    assert((bits | (1u64 << added)) & (1u64 << asked) == 1u64 << asked <==> (bits & (1u64 << asked)
        == 1u64 << asked || added == asked)) by (bit_vector)
        requires
            added < 64,
            asked < 64,
    ;
}

/// The versions of Landlock's interface.
#[derive(Clone, Copy, Debug, PartialEq, Eq, Structural)]
pub enum Abi {
    Unsupported,
    V1,
    V2,
    V3,
    V4,
    V5,
    V6,
    V7,
    V8,
    V9,
}

impl Abi {
    pub open spec fn rank(self) -> int {
        match self {
            Abi::Unsupported => 0,
            Abi::V1 => 1,
            Abi::V2 => 2,
            Abi::V3 => 3,
            Abi::V4 => 4,
            Abi::V5 => 5,
            Abi::V6 => 6,
            Abi::V7 => 7,
            Abi::V8 => 8,
            Abi::V9 => 9,
        }
    }

    fn number(self) -> (number: u8)
        ensures
            number as int == self.rank(),
    {
        match self {
            Abi::Unsupported => 0,
            Abi::V1 => 1,
            Abi::V2 => 2,
            Abi::V3 => 3,
            Abi::V4 => 4,
            Abi::V5 => 5,
            Abi::V6 => 6,
            Abi::V7 => 7,
            Abi::V8 => 8,
            Abi::V9 => 9,
        }
    }

    /// Whether this version offers everything that `other` does.
    pub fn at_least(self, other: Abi) -> (yes: bool)
        ensures
            yes == (self.rank() >= other.rank()),
    {
        self.number() >= other.number()
    }
}

/// What the running kernel can enforce.
#[derive(Clone, Copy, Debug, PartialEq, Eq, Structural)]
pub struct LandlockSupport {
    pub filesystem_abi: Abi,
    pub scope_supported: bool,
}

/// The filesystem rights that a version knows, as flags: the first one knows
/// everything up to symbolic links, the second adds renaming across
/// directories, the third truncation, the fifth device control and the ninth
/// named Unix sockets.
pub open spec fn known_rights(abi: Abi) -> u64 {
    match abi {
        Abi::Unsupported => 0,
        Abi::V1 => 0x1fff,
        Abi::V2 => 0x3fff,
        Abi::V3 | Abi::V4 => 0x7fff,
        Abi::V5 | Abi::V6 | Abi::V7 | Abi::V8 => 0xffff,
        Abi::V9 => 0x1ffff,
    }
}

/// Calls `AccessFs::from_all` of landlock for the version of the same name and
/// takes the bits: all rights that this version of the interface knows.
#[verifier::external_body]
fn all_rights(abi: Abi) -> (bits: u64)
    ensures
        bits == known_rights(abi),
{
    let version = match abi {
        Abi::Unsupported => ABI::Unsupported,
        Abi::V1 => ABI::V1, Abi::V2 => ABI::V2, Abi::V3 => ABI::V3,
        Abi::V4 => ABI::V4, Abi::V5 => ABI::V5, Abi::V6 => ABI::V6,
        Abi::V7 => ABI::V7, Abi::V8 => ABI::V8, Abi::V9 => ABI::V9,
    };
    Flag::from_all(version).bits()
}

/// The rights that a ruleset of a version handles: whatever is not granted is
/// denied.
pub fn handled_access(abi: Abi) -> (set: AccessSet)
    ensures
        set.bits == known_rights(abi),
{
    AccessSet { bits: all_rights(abi) }
}

pub open spec fn may_read(right: AccessFs) -> bool {
    right == AccessFs::ReadFile || right == AccessFs::ReadDir
}

pub open spec fn may_execute(right: AccessFs) -> bool {
    may_read(right) || right == AccessFs::Execute
}

pub open spec fn may_write(right: AccessFs) -> bool {
    may_execute(right) || right == AccessFs::WriteFile || right == AccessFs::RemoveDir || right
        == AccessFs::RemoveFile || right == AccessFs::MakeDir || right == AccessFs::MakeReg
        || right == AccessFs::MakeSym || right == AccessFs::Refer || right == AccessFs::Truncate
}

pub open spec fn may_use_privately(right: AccessFs) -> bool {
    may_write(right) || right == AccessFs::MakeSock || right == AccessFs::MakeFifo
}

pub open spec fn may_change_content(right: AccessFs) -> bool {
    right == AccessFs::ReadFile || right == AccessFs::WriteFile || right == AccessFs::Truncate
}

pub open spec fn may_use_devices(right: AccessFs) -> bool {
    may_read(right) || right == AccessFs::WriteFile
}

pub fn read_access() -> (set: AccessSet)
    ensures
        forall|right: AccessFs| #[trigger] set.has(right) <==> may_read(right),
        set.plain(),
{
    let rights = [AccessFs::ReadFile, AccessFs::ReadDir];
    proof {
        let list = rights@;
        assert(list[0] == AccessFs::ReadFile && list[1] == AccessFs::ReadDir);
    }
    AccessSet::of(&rights)
}

pub fn execute_access() -> (set: AccessSet)
    ensures
        forall|right: AccessFs| #[trigger] set.has(right) <==> may_execute(right),
        set.plain(),
{
    let rights = [AccessFs::Execute, AccessFs::ReadFile, AccessFs::ReadDir];
    proof {
        let list = rights@;
        assert(list[0] == AccessFs::Execute && list[1] == AccessFs::ReadFile && list[2]
            == AccessFs::ReadDir);
    }
    AccessSet::of(&rights)
}

pub fn write_access() -> (set: AccessSet)
    ensures
        forall|right: AccessFs| #[trigger] set.has(right) <==> may_write(right),
        set.plain(),
{
    let rights = [
        AccessFs::Execute,
        AccessFs::WriteFile,
        AccessFs::ReadFile,
        AccessFs::ReadDir,
        AccessFs::RemoveDir,
        AccessFs::RemoveFile,
        AccessFs::MakeDir,
        AccessFs::MakeReg,
        AccessFs::MakeSym,
        AccessFs::Refer,
        AccessFs::Truncate,
    ];
    proof {
        let list = rights@;
        assert(list[0] == AccessFs::Execute && list[1] == AccessFs::WriteFile && list[2]
            == AccessFs::ReadFile && list[3] == AccessFs::ReadDir && list[4] == AccessFs::RemoveDir
            && list[5] == AccessFs::RemoveFile && list[6] == AccessFs::MakeDir && list[7]
            == AccessFs::MakeReg && list[8] == AccessFs::MakeSym && list[9] == AccessFs::Refer
            && list[10] == AccessFs::Truncate);
    }
    AccessSet::of(&rights)
}

pub fn private_access() -> (set: AccessSet)
    ensures
        forall|right: AccessFs| #[trigger] set.has(right) <==> may_use_privately(right),
        set.plain(),
{
    let rights = [
        AccessFs::Execute,
        AccessFs::WriteFile,
        AccessFs::ReadFile,
        AccessFs::ReadDir,
        AccessFs::RemoveDir,
        AccessFs::RemoveFile,
        AccessFs::MakeDir,
        AccessFs::MakeReg,
        AccessFs::MakeSock,
        AccessFs::MakeFifo,
        AccessFs::MakeSym,
        AccessFs::Refer,
        AccessFs::Truncate,
    ];
    proof {
        let list = rights@;
        assert(list[0] == AccessFs::Execute && list[1] == AccessFs::WriteFile && list[2]
            == AccessFs::ReadFile && list[3] == AccessFs::ReadDir && list[4] == AccessFs::RemoveDir
            && list[5] == AccessFs::RemoveFile && list[6] == AccessFs::MakeDir && list[7]
            == AccessFs::MakeReg && list[8] == AccessFs::MakeSock && list[9] == AccessFs::MakeFifo
            && list[10] == AccessFs::MakeSym && list[11] == AccessFs::Refer && list[12]
            == AccessFs::Truncate);
    }
    AccessSet::of(&rights)
}

pub fn lockfile_access() -> (set: AccessSet)
    ensures
        forall|right: AccessFs| #[trigger] set.has(right) <==> may_change_content(right),
        set.plain(),
{
    let rights = [AccessFs::ReadFile, AccessFs::WriteFile, AccessFs::Truncate];
    proof {
        let list = rights@;
        assert(list[0] == AccessFs::ReadFile && list[1] == AccessFs::WriteFile && list[2]
            == AccessFs::Truncate);
    }
    AccessSet::of(&rights)
}

pub fn proc_access() -> (set: AccessSet)
    ensures
        forall|right: AccessFs| #[trigger] set.has(right) <==> may_read(right),
        set.plain(),
{
    read_access()
}

pub fn device_access() -> (set: AccessSet)
    ensures
        forall|right: AccessFs| #[trigger] set.has(right) <==> may_use_devices(right),
        set.plain(),
{
    let rights = [AccessFs::ReadFile, AccessFs::ReadDir, AccessFs::WriteFile];
    proof {
        let list = rights@;
        assert(list[0] == AccessFs::ReadFile && list[1] == AccessFs::ReadDir && list[2]
            == AccessFs::WriteFile);
    }
    AccessSet::of(&rights)
}

/// Everything that any path can be granted is handled from the required version
/// on, so that nothing is granted which the ruleset would not otherwise deny.
pub proof fn required_version_handles_every_right(abi: Abi, right: AccessFs)
    requires
        abi.rank() >= Abi::V5.rank(),
    ensures
        (AccessSet { bits: known_rights(abi) }).has(right),
{
    let position = right.position();
    assert(0xffffu64 & (1u64 << position) == 1u64 << position) by (bit_vector)
        requires
            position < 16,
    ;
    assert(0x1ffffu64 & (1u64 << position) == 1u64 << position) by (bit_vector)
        requires
            position < 16,
    ;
}

/// No kind of path is granted the creation of device nodes or device control,
/// and only private paths are granted sockets and pipes.
pub proof fn no_path_creates_devices(right: AccessFs)
    requires
        may_read(right) || may_execute(right) || may_write(right) || may_use_privately(right)
            || may_change_content(right) || may_use_devices(right),
    ensures
        right != AccessFs::MakeChar,
        right != AccessFs::MakeBlock,
        right != AccessFs::IoctlDev,
        may_use_privately(right),
        may_write(right) ==> right != AccessFs::MakeSock && right != AccessFs::MakeFifo,
{
}

} // verus!
