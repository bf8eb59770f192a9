//! What the command line of the launcher grants a program.

use crate::access::AccessFs;
use crate::bwrap;
use crate::bwrap::{Mount, MountKind, Mounts};
use crate::launcher;
use crate::launcher::{Grant, Grants};
use crate::os;
use crate::plan::Layout;
use crate::policy::NetworkAccess;
use vstd::prelude::*;

verus! {

/// Whether a path is the destination of one of some mounts.
pub open spec fn leads_to_one(list: Seq<Mount>, place: Seq<u8>) -> bool {
    exists|i: int| 0 <= i < list.len() && (#[trigger] list[i]).destination == place
}

/// Whether a path is the destination of one of some mounts of directories, or of
/// anything else.
pub open spec fn leads_to_kind(list: Seq<Mount>, directories: bool, place: Seq<u8>) -> bool {
    exists|i: int|
        0 <= i < list.len() && (#[trigger] list[i]).destination == place && (list[i].kind
            == MountKind::Directory) == directories
}

proof fn lemma_destinations(list: Seq<Mount>, place: Seq<u8>)
    ensures
        bwrap::destinations(list).contains(place) <==> leads_to_one(list, place),
{
    let all = bwrap::destinations(list);
    if all.contains(place) {
        let i = choose|i: int| 0 <= i < all.len() && all[i] == place;
        assert(list[i].destination == place);
    }
    if leads_to_one(list, place) {
        let i = choose|i: int| 0 <= i < list.len() && (#[trigger] list[i]).destination == place;
        assert(all[i] == place);
    }
}

proof fn lemma_kinds(list: Seq<Mount>, directories: bool, place: Seq<u8>)
    ensures
        launcher::destinations_of(list, directories).contains(place) <==> leads_to_kind(
            list,
            directories,
            place,
        ),
{
    let wanted = |mount: Mount| (mount.kind == MountKind::Directory) == directories;
    let kept = list.filter(wanted);
    lemma_destinations(kept, place);
    assert forall|mount: Mount| #[trigger] kept.contains(mount) <==> list.contains(mount) && wanted(
        mount,
    ) by {
        lemma_filtered(list, wanted, mount);
    }
    assert(launcher::destinations_of(list, directories) == bwrap::destinations(kept));
    if leads_to_one(kept, place) {
        let i = choose|i: int| 0 <= i < kept.len() && (#[trigger] kept[i]).destination == place;
        assert(kept.contains(kept[i]));
        assert(list.contains(kept[i]));
        let j = choose|j: int| 0 <= j < list.len() && list[j] == kept[i];
        assert(list[j].destination == place);
    }
    if leads_to_kind(list, directories, place) {
        let j = choose|j: int|
            0 <= j < list.len() && (#[trigger] list[j]).destination == place && (list[j].kind
                == MountKind::Directory) == directories;
        assert(list.contains(list[j]));
        assert(kept.contains(list[j]));
        let i = choose|i: int| 0 <= i < kept.len() && kept[i] == list[j];
        assert(kept[i].destination == place);
    }
}

proof fn lemma_filtered(list: Seq<Mount>, wanted: spec_fn(Mount) -> bool, mount: Mount)
    ensures
        list.filter(wanted).contains(mount) <==> list.contains(mount) && wanted(mount),
    decreases list.len(),
{
    reveal(Seq::filter);
    if list.len() > 0 {
        let front = list.drop_last();
        let last = list.last();
        lemma_filtered(front, wanted, mount);
        let kept = list.filter(wanted);
        let before = front.filter(wanted);
        if before.contains(mount) {
            let i = choose|i: int| 0 <= i < before.len() && before[i] == mount;
            assert(kept[i] == mount);
        }
        if front.contains(mount) {
            let i = choose|i: int| 0 <= i < front.len() && front[i] == mount;
            assert(list[i] == mount);
        }
        if list.contains(mount) {
            let i = choose|i: int| 0 <= i < list.len() && list[i] == mount;
            if i < front.len() {
                assert(front[i] == mount);
            }
        }
        if wanted(last) {
            assert(kept[kept.len() - 1] == last);
        }
        if kept.contains(mount) {
            let i = choose|i: int| 0 <= i < kept.len() && kept[i] == mount;
            if i < before.len() {
                assert(before[i] == mount);
            } else {
                assert(list[list.len() - 1] == mount);
            }
        }
    }
}

proof fn lemma_joined(left: Seq<Seq<u8>>, right: Seq<Seq<u8>>, place: Seq<u8>)
    ensures
        (left + right).contains(place) <==> left.contains(place) || right.contains(place),
{
    let both = left + right;
    if left.contains(place) {
        let i = choose|i: int| 0 <= i < left.len() && left[i] == place;
        assert(both[i] == place);
    }
    if right.contains(place) {
        let i = choose|i: int| 0 <= i < right.len() && right[i] == place;
        assert(both[left.len() + i] == place);
    }
    if both.contains(place) {
        let i = choose|i: int| 0 <= i < both.len() && both[i] == place;
        if i < left.len() {
            assert(left[i] == place);
        } else {
            assert(right[i - left.len()] == place);
        }
    }
}

/// What the launcher reads from the command line that a sandbox gives it: the
/// runtime and the read-only paths may be executed, the caches read, writable
/// directories changed and writable files written to, the private paths and the
/// Cargo home of the sandbox used freely, and the two kernel filesystems as
/// such; nothing else. The network is denied and the environment inherited as
/// the layout says, and the program starts with its arguments.
pub proof fn mounts_are_granted_what_they_are_for(
    layout: Layout,
    mounts: Mounts,
    program: Seq<u8>,
    args: Seq<Seq<u8>>,
)
    requires
        forall|i: int|
            0 <= i < launcher::grant_list(layout, mounts).len() ==> launcher::policy_path_fits(
                (#[trigger] launcher::grant_list(layout, mounts)[i]).1,
            ),
        launcher::launcher_path_fits(program),
    ensures
        launcher::parsed(bwrap::launcher_args(layout, mounts, program, args)) matches Ok(grants)
            && granted_as_mounted(grants, layout, mounts) && grants.program == program
            && grants.args == args,
{
    launcher::launcher_reads_what_was_written(layout, mounts, program, args);
    let grants = launcher::sandbox_grants(layout, mounts, program, args);
    let home = os::lit("/run/cargo-cage-home");
    assert forall|place: Seq<u8>| #[trigger] grants.execute.contains(place) <==> leads_to_one(
        mounts.runtime,
        place,
    ) || leads_to_one(mounts.read_only, place) by {
        lemma_joined(
            bwrap::destinations(mounts.runtime),
            bwrap::destinations(mounts.read_only),
            place,
        );
        lemma_destinations(mounts.runtime, place);
        lemma_destinations(mounts.read_only, place);
    }
    assert forall|place: Seq<u8>| #[trigger] grants.read.contains(place) <==> leads_to_one(
        mounts.caches,
        place,
    ) by {
        lemma_destinations(mounts.caches, place);
    }
    assert forall|place: Seq<u8>| #[trigger] grants.write.contains(place) <==> leads_to_kind(
        mounts.writable,
        true,
        place,
    ) by {
        lemma_kinds(mounts.writable, true, place);
    }
    assert forall|place: Seq<u8>| #[trigger] grants.lockfile.contains(place) <==> leads_to_kind(
        mounts.writable,
        false,
        place,
    ) by {
        lemma_kinds(mounts.writable, false, place);
    }
    assert forall|place: Seq<u8>| #[trigger] grants.private.contains(place)
        <==> layout.private_paths.contains(place) || place == home by {
        lemma_joined(layout.private_paths, seq![home], place);
        assert(layout.private_paths.push(home) =~= layout.private_paths + seq![home]);
        assert(seq![home][0] == home);
        assert(seq![home].contains(place) ==> place == home);
    }
}

/// Whether each mount has the grant that it is for.
pub open spec fn granted_as_mounted(grants: Grants, layout: Layout, mounts: Mounts) -> bool {
    &&& forall|place: Seq<u8>| #[trigger]
        grants.execute.contains(place) <==> leads_to_one(mounts.runtime, place) || leads_to_one(
            mounts.read_only,
            place,
        )
    &&& forall|place: Seq<u8>| #[trigger]
        grants.read.contains(place) <==> leads_to_one(mounts.caches, place)
    &&& forall|place: Seq<u8>| #[trigger]
        grants.write.contains(place) <==> leads_to_kind(mounts.writable, true, place)
    &&& forall|place: Seq<u8>| #[trigger]
        grants.lockfile.contains(place) <==> leads_to_kind(mounts.writable, false, place)
    &&& forall|place: Seq<u8>| #[trigger]
        grants.private.contains(place) <==> layout.private_paths.contains(place) || place
            == os::lit("/run/cargo-cage-home")
    &&& grants.proc == seq![os::lit("/proc")]
    &&& grants.device == seq![os::lit("/dev")]
    &&& grants.network_deny == (layout.network == NetworkAccess::Deny)
    &&& grants.inherit_environment == layout.environment.inherit
}

/// How grants are spelled on the command line.
pub proof fn grants_have_their_options(grant: Grant)
    ensures
        grant.option() == match grant {
            Grant::Read => "--landlock-read"@,
            Grant::Execute => "--landlock-execute"@,
            Grant::Write => "--landlock-write"@,
            Grant::Lockfile => "--landlock-lockfile"@,
            Grant::Private => "--landlock-private"@,
            Grant::Proc => "--landlock-proc"@,
            Grant::Device => "--landlock-device"@,
        },
{
}

/// The flag of each right is that of the kernel.
pub proof fn rights_have_the_flags_of_the_kernel()
    ensures
        AccessFs::Execute.bit() == 0x1,
        AccessFs::WriteFile.bit() == 0x2,
        AccessFs::ReadFile.bit() == 0x4,
        AccessFs::ReadDir.bit() == 0x8,
        AccessFs::RemoveDir.bit() == 0x10,
        AccessFs::RemoveFile.bit() == 0x20,
        AccessFs::MakeChar.bit() == 0x40,
        AccessFs::MakeDir.bit() == 0x80,
        AccessFs::MakeReg.bit() == 0x100,
        AccessFs::MakeSock.bit() == 0x200,
        AccessFs::MakeFifo.bit() == 0x400,
        AccessFs::MakeBlock.bit() == 0x800,
        AccessFs::MakeSym.bit() == 0x1000,
        AccessFs::Refer.bit() == 0x2000,
        AccessFs::Truncate.bit() == 0x4000,
        AccessFs::IoctlDev.bit() == 0x8000,
{
    assert(1u64 << 0u64 == 0x1 && 1u64 << 1u64 == 0x2 && 1u64 << 2u64 == 0x4 && 1u64 << 3u64 == 0x8
        && 1u64 << 4u64 == 0x10 && 1u64 << 5u64 == 0x20 && 1u64 << 6u64 == 0x40 && 1u64 << 7u64
        == 0x80 && 1u64 << 8u64 == 0x100 && 1u64 << 9u64 == 0x200 && 1u64 << 10u64 == 0x400 && 1u64
        << 11u64 == 0x800 && 1u64 << 12u64 == 0x1000 && 1u64 << 13u64 == 0x2000 && 1u64 << 14u64
        == 0x4000 && 1u64 << 15u64 == 0x8000) by (bit_vector);
}

} // verus!
