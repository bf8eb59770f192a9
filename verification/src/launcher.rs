//! The launcher that runs inside Bubblewrap: it confines itself with a
//! deny-by-default Landlock ruleset before it starts the requested program.

use crate::access;
use crate::access::{Abi, AccessFs, AccessSet, LandlockSupport};
use crate::bwrap;
use crate::bwrap::{
    Mount, MountKind, Mounts, CARGO_HOME_IN_SANDBOX, LAUNCHER_CONTEXT_CONTENT,
    LAUNCHER_CONTEXT_DESTINATION,
};
use crate::error;
use crate::error::{CageError, CageResult, Fault};
use crate::flow;
use crate::flow::{Answer, Course, Exit, Flow, Halt, Pause, Query, Question};
use crate::os;
use crate::os::{OsText, PathText};
use crate::path;
use crate::plan::Layout;
use crate::policy::NetworkAccess;
use crate::text;
use crate::text::Compose;
use vstd::prelude::*;
use vstd::string::*;
use vstd::utf8::*;

verus! {

/// The exit code of a launcher that could not confine itself.
pub const LAUNCHER_SETUP_EXIT_CODE: i32 = 125;

pub const READ_ARGS: &'static str = "--landlock-read";

pub const EXECUTE_ARGS: &'static str = "--landlock-execute";

pub const WRITE_ARGS: &'static str = "--landlock-write";

pub const LOCKFILE_ARGS: &'static str = "--landlock-lockfile";

pub const PRIVATE_ARGS: &'static str = "--landlock-private";

pub const PROC_ARGS: &'static str = "--landlock-proc";

pub const DEVICE_ARGS: &'static str = "--landlock-device";

pub const NETWORK_DENY_ARGS: &'static str = "--landlock-network-deny";

pub const INHERIT_ENVIRONMENT_ARGS: &'static str = "--landlock-inherit-environment";

/// What a path is granted.
#[derive(Clone, Copy, Debug, PartialEq, Eq, Structural)]
pub enum Grant {
    Read,
    Execute,
    Write,
    Lockfile,
    Private,
    Proc,
    Device,
}

impl Grant {
    /// The option that asks for the grant.
    pub open spec fn option(self) -> Seq<char> {
        match self {
            Grant::Read => READ_ARGS@,
            Grant::Execute => EXECUTE_ARGS@,
            Grant::Write => WRITE_ARGS@,
            Grant::Lockfile => LOCKFILE_ARGS@,
            Grant::Private => PRIVATE_ARGS@,
            Grant::Proc => PROC_ARGS@,
            Grant::Device => DEVICE_ARGS@,
        }
    }

    pub fn option_text(self) -> (option: &'static str)
        ensures
            option@ == self.option(),
    {
        match self {
            Grant::Read => READ_ARGS,
            Grant::Execute => EXECUTE_ARGS,
            Grant::Write => WRITE_ARGS,
            Grant::Lockfile => LOCKFILE_ARGS,
            Grant::Private => PRIVATE_ARGS,
            Grant::Proc => PROC_ARGS,
            Grant::Device => DEVICE_ARGS,
        }
    }

    /// What the grant is called in messages.
    pub open spec fn name(self) -> Seq<char> {
        match self {
            Grant::Read => "read-only"@,
            Grant::Execute => "executable"@,
            Grant::Write => "writable"@,
            Grant::Lockfile => "lockfile"@,
            Grant::Private => "private"@,
            Grant::Proc => "procfs"@,
            Grant::Device => "device"@,
        }
    }

    pub fn label(self) -> (name: &'static str)
        ensures
            name@ == self.name(),
    {
        match self {
            Grant::Read => "read-only",
            Grant::Execute => "executable",
            Grant::Write => "writable",
            Grant::Lockfile => "lockfile",
            Grant::Private => "private",
            Grant::Proc => "procfs",
            Grant::Device => "device",
        }
    }

    /// Whether the grant allows a right.
    pub open spec fn allows(self, right: AccessFs) -> bool {
        match self {
            Grant::Read => access::may_read(right),
            Grant::Execute => access::may_execute(right),
            Grant::Write => access::may_write(right),
            Grant::Lockfile => access::may_change_content(right),
            Grant::Private => access::may_use_privately(right),
            Grant::Proc => access::may_read(right),
            Grant::Device => access::may_use_devices(right),
        }
    }

    /// The rights that the grant allows.
    pub fn access(self) -> (set: AccessSet)
        ensures
            forall|right: AccessFs| #[trigger] set.has(right) <==> self.allows(right),
            set.plain(),
    {
        match self {
            Grant::Read => access::read_access(),
            Grant::Execute => access::execute_access(),
            Grant::Write => access::write_access(),
            Grant::Lockfile => access::lockfile_access(),
            Grant::Private => access::private_access(),
            Grant::Proc => access::proc_access(),
            Grant::Device => access::device_access(),
        }
    }
}

/// The grant that an option asks for.
pub open spec fn grant_named(option: Seq<char>) -> Option<Grant> {
    if option == READ_ARGS@ {
        Some(Grant::Read)
    } else if option == EXECUTE_ARGS@ {
        Some(Grant::Execute)
    } else if option == WRITE_ARGS@ {
        Some(Grant::Write)
    } else if option == LOCKFILE_ARGS@ {
        Some(Grant::Lockfile)
    } else if option == PRIVATE_ARGS@ {
        Some(Grant::Private)
    } else if option == PROC_ARGS@ {
        Some(Grant::Proc)
    } else if option == DEVICE_ARGS@ {
        Some(Grant::Device)
    } else {
        None
    }
}

fn find_grant(option: &str) -> (grant: Option<Grant>)
    ensures
        grant == grant_named(option@),
{
    if text::same_text(option, READ_ARGS) {
        Some(Grant::Read)
    } else if text::same_text(option, EXECUTE_ARGS) {
        Some(Grant::Execute)
    } else if text::same_text(option, WRITE_ARGS) {
        Some(Grant::Write)
    } else if text::same_text(option, LOCKFILE_ARGS) {
        Some(Grant::Lockfile)
    } else if text::same_text(option, PRIVATE_ARGS) {
        Some(Grant::Private)
    } else if text::same_text(option, PROC_ARGS) {
        Some(Grant::Proc)
    } else if text::same_text(option, DEVICE_ARGS) {
        Some(Grant::Device)
    } else {
        None
    }
}

/// What a launcher is to allow, and what it is to start. The program is given
/// the launcher's own environment, which Bubblewrap has set up:
/// `inherit_environment` says that it was taken over from the host.
#[derive(Debug)]
pub struct LauncherPlan {
    pub read_paths: Vec<PathText>,
    pub execute_paths: Vec<PathText>,
    pub write_paths: Vec<PathText>,
    pub lockfile_paths: Vec<PathText>,
    pub private_paths: Vec<PathText>,
    pub proc_paths: Vec<PathText>,
    pub device_paths: Vec<PathText>,
    pub network_deny: bool,
    pub inherit_environment: bool,
    pub program: PathText,
    pub args: Vec<OsText>,
}

/// What a `LauncherPlan` holds.
pub struct Grants {
    pub read: Seq<Seq<u8>>,
    pub execute: Seq<Seq<u8>>,
    pub write: Seq<Seq<u8>>,
    pub lockfile: Seq<Seq<u8>>,
    pub private: Seq<Seq<u8>>,
    pub proc: Seq<Seq<u8>>,
    pub device: Seq<Seq<u8>>,
    pub network_deny: bool,
    pub inherit_environment: bool,
    pub program: Seq<u8>,
    pub args: Seq<Seq<u8>>,
}

impl View for LauncherPlan {
    type V = Grants;

    open spec fn view(&self) -> Grants {
        Grants {
            read: os::texts(self.read_paths@),
            execute: os::texts(self.execute_paths@),
            write: os::texts(self.write_paths@),
            lockfile: os::texts(self.lockfile_paths@),
            private: os::texts(self.private_paths@),
            proc: os::texts(self.proc_paths@),
            device: os::texts(self.device_paths@),
            network_deny: self.network_deny,
            inherit_environment: self.inherit_environment,
            program: self.program@,
            args: os::texts(self.args@),
        }
    }
}

impl Grants {
    /// Nothing allowed, nothing to start.
    pub open spec fn none() -> Grants {
        Grants {
            read: Seq::empty(),
            execute: Seq::empty(),
            write: Seq::empty(),
            lockfile: Seq::empty(),
            private: Seq::empty(),
            proc: Seq::empty(),
            device: Seq::empty(),
            network_deny: false,
            inherit_environment: false,
            program: Seq::empty(),
            args: Seq::empty(),
        }
    }

    /// With more paths for a grant.
    pub open spec fn with(self, grant: Grant, paths: Seq<Seq<u8>>) -> Grants {
        match grant {
            Grant::Read => Grants { read: self.read + paths, ..self },
            Grant::Execute => Grants { execute: self.execute + paths, ..self },
            Grant::Write => Grants { write: self.write + paths, ..self },
            Grant::Lockfile => Grants { lockfile: self.lockfile + paths, ..self },
            Grant::Private => Grants { private: self.private + paths, ..self },
            Grant::Proc => Grants { proc: self.proc + paths, ..self },
            Grant::Device => Grants { device: self.device + paths, ..self },
        }
    }
}

/// Whether a path may stand in a launcher's arguments.
pub open spec fn launcher_path_fits(value: Seq<u8>) -> bool {
    path::absolute(value) && !path::has_parent_part(value)
}

/// Whether a path may be granted anything: never the root of the filesystem.
pub open spec fn policy_path_fits(value: Seq<u8>) -> bool {
    launcher_path_fits(value) && !path::same_path(value, os::lit("/"))
}

/// A path that a launcher was given.
pub open spec fn launcher_path(value: Seq<u8>, label: Seq<char>) -> Result<Seq<u8>, Fault> {
    if !path::absolute(value) {
        Err(
            Fault::Policy {
                subject: os::lossy_text(value),
                rule: label + " must be an absolute sandbox path"@,
                remedy: "use the canonical absolute destination generated by cargo-cage"@,
            },
        )
    } else if path::has_parent_part(value) {
        Err(
            Fault::Policy {
                subject: os::lossy_text(value),
                rule: label + " must not contain parent-directory traversal"@,
                remedy: "use a normalized sandbox path without parent-directory components"@,
            },
        )
    } else {
        Ok(value)
    }
}

/// A path that a launcher is to grant something.
pub open spec fn policy_path(value: Seq<u8>, label: Seq<char>) -> Result<Seq<u8>, Fault> {
    match launcher_path(value, label) {
        Err(fault) => Err(fault),
        Ok(value) => if path::same_path(value, os::lit("/")) {
            Err(
                Fault::Policy {
                    subject: os::lossy_text(value),
                    rule: label + " must not be the filesystem root"@,
                    remedy: "grant only the sandbox destinations generated by cargo-cage"@,
                },
            )
        } else {
            Ok(value)
        },
    }
}

/// Checks a path that a launcher was given: absolute, and without `..`.
pub fn validate_launcher_path(value: &OsText, label: &str) -> (checked: CageResult<PathText>)
    ensures
        error::outcome(checked) == launcher_path(value@, label@),
{
    if !value.is_absolute() {
        return Err(
            CageError::policy(
                value.display().as_str(),
                text::owned(label).with(" must be an absolute sandbox path").as_str(),
                "use the canonical absolute destination generated by cargo-cage",
            ),
        );
    }
    if value.has_parent_component() {
        return Err(
            CageError::policy(
                value.display().as_str(),
                text::owned(label).with(" must not contain parent-directory traversal").as_str(),
                "use a normalized sandbox path without parent-directory components",
            ),
        );
    }
    Ok(value.clone())
}

fn validate_policy_path(value: &OsText, label: &str) -> (checked: CageResult<PathText>)
    ensures
        error::outcome(checked) == policy_path(value@, label@),
{
    let checked = validate_launcher_path(value, label)?;
    if checked.same_path(&OsText::new("/")) {
        return Err(
            CageError::policy(
                checked.display().as_str(),
                text::owned(label).with(" must not be the filesystem root").as_str(),
                "grant only the sandbox destinations generated by cargo-cage",
            ),
        );
    }
    Ok(checked)
}

/// The path behind an option.
pub open spec fn option_path(args: Seq<Seq<u8>>, index: int, grant: Grant) -> Result<
    Seq<u8>,
    Fault,
> {
    if index + 1 < args.len() {
        policy_path(args[index + 1], grant.option())
    } else {
        Err(
            Fault::InvalidInvocation(
                "internal Landlock launcher option "@ + grant.option() + " needs a path"@,
            ),
        )
    }
}

/// The program behind the separator, and its arguments.
pub open spec fn started(args: Seq<Seq<u8>>, index: int, grants: Grants) -> Result<Grants, Fault> {
    if index + 1 < args.len() {
        match launcher_path(args[index + 1], "internal launcher program"@) {
            Ok(program) => Ok(Grants { program, args: args.skip(index + 2), ..grants }),
            Err(fault) => Err(fault),
        }
    } else {
        Err(Fault::InvalidInvocation("internal Landlock launcher is missing its program"@))
    }
}

/// What the arguments from `index` on ask for, on top of `grants`.
pub open spec fn parsed_from(args: Seq<Seq<u8>>, index: int, grants: Grants) -> Result<
    Grants,
    Fault,
>
    decreases args.len() - index,
{
    if index < 0 || index >= args.len() {
        Err(
            Fault::InvalidInvocation(
                "internal Landlock launcher is missing the -- program separator"@,
            ),
        )
    } else if args[index] == os::lit("--") {
        started(args, index, grants)
    } else {
        let option = os::shown(args[index]);
        match grant_named(option) {
            Some(grant) => match option_path(args, index, grant) {
                Ok(path) => if index + 1 < args.len() {
                    parsed_from(args, index + 2, grants.with(grant, seq![path]))
                } else {
                    Ok(grants)
                },
                Err(fault) => Err(fault),
            },
            None => if option == NETWORK_DENY_ARGS@ {
                parsed_from(args, index + 1, Grants { network_deny: true, ..grants })
            } else if option == INHERIT_ENVIRONMENT_ARGS@ {
                parsed_from(args, index + 1, Grants { inherit_environment: true, ..grants })
            } else {
                Err(
                    Fault::InvalidInvocation(
                        "unknown internal Landlock launcher option "@ + option,
                    ),
                )
            },
        }
    }
}

/// What a launcher's arguments ask for.
pub open spec fn parsed(args: Seq<Seq<u8>>) -> Result<Grants, Fault> {
    parsed_from(args, 0, Grants::none())
}

fn next_path(args: &Vec<OsText>, index: usize, grant: Grant) -> (next: CageResult<PathText>)
    requires
        index < args.len(),
    ensures
        error::outcome(next) == option_path(os::texts(args@), index as int, grant),
        next is Ok ==> index + 1 < args.len(),
{
    let ghost all = os::texts(args@);
    if args.len() - index < 2 {
        return Err(
            CageError::invalid(
                text::owned("internal Landlock launcher option ").with(grant.option_text()).with(
                    " needs a path",
                ).as_str(),
            ),
        );
    }
    assert(all[index + 1] == args[index + 1]@);
    validate_policy_path(&args[index + 1], grant.option_text())
}

fn copy_from(args: &Vec<OsText>, from: usize) -> (rest: Vec<OsText>)
    requires
        from <= args.len(),
    ensures
        os::texts(rest@) == os::texts(args@).skip(from as int),
{
    let ghost all = os::texts(args@);
    let mut rest: Vec<OsText> = Vec::new();
    let mut index: usize = from;
    assert(os::texts(rest@) =~= all.subrange(from as int, from as int));
    while index < args.len()
        invariant
            from <= index <= args.len(),
            all == os::texts(args@),
            os::texts(rest@) == all.subrange(from as int, index as int),
        decreases args.len() - index,
    {
        os::push_text(&mut rest, &args[index]);
        index = index + 1;
        assert(os::texts(rest@) =~= all.subrange(from as int, index as int));
    }
    assert(all.subrange(from as int, index as int) =~= all.skip(from as int));
    rest
}

impl LauncherPlan {
    fn none() -> (plan: Self)
        ensures
            plan@ == Grants::none(),
    {
        let plan = LauncherPlan {
            read_paths: Vec::new(),
            execute_paths: Vec::new(),
            write_paths: Vec::new(),
            lockfile_paths: Vec::new(),
            private_paths: Vec::new(),
            proc_paths: Vec::new(),
            device_paths: Vec::new(),
            network_deny: false,
            inherit_environment: false,
            program: OsText { bytes: Vec::new() },
            args: Vec::new(),
        };
        assert(os::texts(plan.read_paths@) =~= Seq::empty());
        assert(plan.program@ =~= Seq::empty());
        plan
    }

    fn grant(&mut self, grant: Grant, path: &PathText)
        ensures
            final(self)@ == old(self)@.with(grant, seq![path@]),
    {
        match grant {
            Grant::Read => os::push_text(&mut self.read_paths, path),
            Grant::Execute => os::push_text(&mut self.execute_paths, path),
            Grant::Write => os::push_text(&mut self.write_paths, path),
            Grant::Lockfile => os::push_text(&mut self.lockfile_paths, path),
            Grant::Private => os::push_text(&mut self.private_paths, path),
            Grant::Proc => os::push_text(&mut self.proc_paths, path),
            Grant::Device => os::push_text(&mut self.device_paths, path),
        }
        proof {
            let before = old(self)@;
            let one = seq![path@];
            assert(before.read.push(path@) =~= before.read + one);
            assert(before.execute.push(path@) =~= before.execute + one);
            assert(before.write.push(path@) =~= before.write + one);
            assert(before.lockfile.push(path@) =~= before.lockfile + one);
            assert(before.private.push(path@) =~= before.private + one);
            assert(before.proc.push(path@) =~= before.proc + one);
            assert(before.device.push(path@) =~= before.device + one);
        }
    }

    /// Reads a launcher's arguments: options, then `--`, the program and its
    /// own arguments.
    pub fn parse(args: &Vec<OsText>) -> (plan: CageResult<Self>)
        ensures
            error::outcome(plan) == parsed(os::texts(args@)),
    {
        let ghost all = os::texts(args@);
        let mut plan = LauncherPlan::none();
        let mut index: usize = 0;
        while index < args.len()
            invariant
                index <= args.len(),
                all == os::texts(args@),
                parsed(all) == parsed_from(all, index as int, plan@),
            decreases args.len() - index,
        {
            assert(all[index as int] == args[index as int]@);
            if args[index].is_text("--") {
                if args.len() - index < 2 {
                    return Err(
                        CageError::invalid("internal Landlock launcher is missing its program"),
                    );
                }
                assert(all[index + 1] == args[index + 1]@);
                plan.program = validate_launcher_path(
                    &args[index + 1],
                    "internal launcher program",
                )?;
                plan.args = copy_from(args, index + 2);
                return Ok(plan);
            }
            let option = args[index].display();
            match find_grant(option.as_str()) {
                Some(grant) => {
                    let path = next_path(args, index, grant)?;
                    plan.grant(grant, &path);
                    index = index + 2;
                },
                None => {
                    if text::same_text(option.as_str(), NETWORK_DENY_ARGS) {
                        plan.network_deny = true;
                    } else if text::same_text(option.as_str(), INHERIT_ENVIRONMENT_ARGS) {
                        plan.inherit_environment = true;
                    } else {
                        return Err(
                            CageError::invalid(
                                text::owned("unknown internal Landlock launcher option ").with(
                                    option.as_str(),
                                ).as_str(),
                            ),
                        );
                    }
                    index = index + 1;
                },
            }
        }
        Err(
            CageError::invalid("internal Landlock launcher is missing the -- program separator"),
        )
    }
}

// ---------------------------------------------------------------------------
// Restrictions
// ---------------------------------------------------------------------------

/// A path and what it is granted.
#[derive(Debug)]
pub struct PathRule {
    pub grant: Grant,
    pub path: PathText,
}

/// What a process is to be confined to: everything that is handled is denied
/// except where a rule grants it.
#[derive(Debug)]
pub struct Restrictions {
    pub handled: AccessSet,
    pub deny_tcp: bool,
    pub scope: bool,
    pub rules: Vec<PathRule>,
}

/// What `Restrictions` say.
pub struct Ruleset {
    pub handled: AccessSet,
    pub deny_tcp: bool,
    pub scope: bool,
    pub rules: Seq<(Grant, Seq<u8>)>,
}

pub open spec fn rule_list(list: Seq<PathRule>) -> Seq<(Grant, Seq<u8>)> {
    list.map_values(|rule: PathRule| (rule.grant, rule.path@))
}

impl View for Restrictions {
    type V = Ruleset;

    open spec fn view(&self) -> Ruleset {
        Ruleset {
            handled: self.handled,
            deny_tcp: self.deny_tcp,
            scope: self.scope,
            rules: rule_list(self.rules@),
        }
    }
}

/// A failed restriction.
pub open spec fn landlock_fault(detail: Seq<char>, remedy: Seq<char>) -> Fault {
    Fault::SandboxSetup {
        subject: "sandbox-policy"@,
        rule: "every required Landlock restriction must be enforced before the child starts"@,
        remedy,
        detail,
    }
}

pub fn landlock_setup_error(detail: &str, remedy: &str) -> (error: CageError)
    ensures
        error@ == landlock_fault(detail@, remedy@),
{
    CageError::sandbox_setup(
        "sandbox-policy",
        "every required Landlock restriction must be enforced before the child starts",
        remedy,
        detail,
    )
}

/// The Landlock features that a ruleset uses.
#[derive(Clone, Copy, Debug, PartialEq, Eq, Structural)]
pub struct LandlockFeatures {
    pub filesystem_abi: Abi,
    pub scope_supported: bool,
}

impl View for LandlockFeatures {
    type V = LandlockFeatures;

    open spec fn view(&self) -> LandlockFeatures {
        *self
    }
}

/// The features to use on a kernel; without the required version, none.
pub open spec fn required_features(support: LandlockSupport) -> Result<LandlockFeatures, Fault> {
    if support.filesystem_abi.rank() < Abi::V5.rank() {
        Err(
            landlock_fault(
                "the running kernel does not provide the required Landlock filesystem ABI 5"@,
                "enable Landlock or upgrade to a Linux kernel with ABI 5 or newer"@,
            ),
        )
    } else {
        Ok(
            LandlockFeatures {
                filesystem_abi: if support.filesystem_abi.rank() >= Abi::V9.rank() {
                    Abi::V9
                } else {
                    Abi::V5
                },
                scope_supported: support.scope_supported,
            },
        )
    }
}

pub fn required_landlock_features(support: &LandlockSupport) -> (features: CageResult<
    LandlockFeatures,
>)
    ensures
        error::outcome(features) == required_features(*support),
{
    if !support.filesystem_abi.at_least(Abi::V5) {
        return Err(
            landlock_setup_error(
                "the running kernel does not provide the required Landlock filesystem ABI 5",
                "enable Landlock or upgrade to a Linux kernel with ABI 5 or newer",
            ),
        );
    }
    Ok(
        LandlockFeatures {
            filesystem_abi: if support.filesystem_abi.at_least(Abi::V9) {
                Abi::V9
            } else {
                Abi::V5
            },
            scope_supported: support.scope_supported,
        },
    )
}

/// The same grant for each of some paths.
pub open spec fn rules_for(grant: Grant, paths: Seq<Seq<u8>>) -> Seq<(Grant, Seq<u8>)> {
    paths.map_values(|path: Seq<u8>| (grant, path))
}

/// The rules of a plan, kind by kind.
pub open spec fn plan_rules(grants: Grants) -> Seq<(Grant, Seq<u8>)> {
    rules_for(Grant::Read, grants.read) + rules_for(Grant::Execute, grants.execute) + rules_for(
        Grant::Write,
        grants.write,
    ) + rules_for(Grant::Lockfile, grants.lockfile) + rules_for(Grant::Private, grants.private)
        + rules_for(Grant::Proc, grants.proc) + rules_for(Grant::Device, grants.device)
}

/// What a plan confines a process to on a kernel.
pub open spec fn ruleset(grants: Grants, support: LandlockSupport) -> Result<Ruleset, Fault> {
    match required_features(support) {
        Err(fault) => Err(fault),
        Ok(features) => Ok(
            Ruleset {
                handled: AccessSet { bits: access::known_rights(features.filesystem_abi) },
                deny_tcp: grants.network_deny,
                scope: features.scope_supported,
                rules: plan_rules(grants),
            },
        ),
    }
}

fn push_rules(rules: &mut Vec<PathRule>, grant: Grant, paths: &Vec<PathText>)
    ensures
        rule_list(final(rules)@) == rule_list(old(rules)@) + rules_for(grant, os::texts(paths@)),
{
    let ghost before = rule_list(rules@);
    let ghost all = rules_for(grant, os::texts(paths@));
    let mut index: usize = 0;
    assert(rule_list(rules@) =~= before + all.take(0));
    while index < paths.len()
        invariant
            index <= paths.len(),
            all == rules_for(grant, os::texts(paths@)),
            rule_list(rules@) == before + all.take(index as int),
        decreases paths.len() - index,
    {
        assert(all[index as int] == (grant, paths[index as int]@));
        let ghost earlier = rule_list(rules@);
        let path = paths[index].clone();
        rules.push(PathRule { grant, path });
        assert(rule_list(rules@) =~= earlier.push((grant, path@)));
        index = index + 1;
        assert(rule_list(rules@) =~= before + all.take(index as int));
    }
    assert(all.take(index as int) =~= all);
}

/// What a plan confines a process to on a kernel.
pub fn apply_landlock(plan: &LauncherPlan, support: &LandlockSupport) -> (restrictions: CageResult<
    Restrictions,
>)
    ensures
        error::outcome(restrictions) == ruleset(plan@, *support),
{
    let features = required_landlock_features(support)?;
    let mut rules: Vec<PathRule> = Vec::new();
    push_rules(&mut rules, Grant::Read, &plan.read_paths);
    assert(rule_list(rules@) =~= rules_for(Grant::Read, plan@.read));
    push_rules(&mut rules, Grant::Execute, &plan.execute_paths);
    push_rules(&mut rules, Grant::Write, &plan.write_paths);
    push_rules(&mut rules, Grant::Lockfile, &plan.lockfile_paths);
    push_rules(&mut rules, Grant::Private, &plan.private_paths);
    push_rules(&mut rules, Grant::Proc, &plan.proc_paths);
    push_rules(&mut rules, Grant::Device, &plan.device_paths);
    Ok(
        Restrictions {
            handled: access::handled_access(features.filesystem_abi),
            deny_tcp: plan.network_deny,
            scope: features.scope_supported,
            rules,
        },
    )
}

/// The steps of a restriction that the kernel can refuse.
#[derive(Debug)]
pub enum RestrictionStep {
    Filesystem,
    Network,
    Scope,
    Create,
    OpenPath(Grant, PathText),
    AddRule(Grant, PathText),
    Enforce,
}

/// What a refused step says.
pub open spec fn refused_step(step: RestrictionStep, message: Seq<char>) -> Fault {
    match step {
        RestrictionStep::Filesystem => landlock_fault(
            "could not configure required filesystem rights: "@ + message,
            "run on a kernel that supports Landlock filesystem ABI 5"@,
        ),
        RestrictionStep::Network => landlock_fault(
            "could not configure required TCP network denial: "@ + message,
            "run on a kernel that supports Landlock TCP rights or fix the Linux kernel"@,
        ),
        RestrictionStep::Scope => landlock_fault(
            "could not configure Unix-socket and signal scope denial: "@ + message,
            "run on a kernel with working Landlock scope support"@,
        ),
        RestrictionStep::Create => landlock_fault(
            "could not create the Landlock ruleset: "@ + message,
            "enable Landlock in the Linux kernel and retry"@,
        ),
        RestrictionStep::OpenPath(grant, path) => landlock_fault(
            "could not open "@ + grant.name() + " Landlock path "@ + os::lossy_text(path@) + ": "@
                + message,
            "ensure every sandbox destination exists after Bubblewrap setup"@,
        ),
        RestrictionStep::AddRule(grant, path) => landlock_fault(
            "could not add "@ + grant.name() + " Landlock rule for "@ + os::lossy_text(path@)
                + ": "@ + message,
            "remove the conflicting mount and retry with canonical sandbox paths"@,
        ),
        RestrictionStep::Enforce => landlock_fault(
            "could not enforce the Landlock ruleset: "@ + message,
            "use a Linux kernel with enabled unprivileged Landlock and no_new_privs support"@,
        ),
    }
}

/// The error of a step that the kernel refused.
pub fn restriction_error(step: &RestrictionStep, message: &str) -> (error: CageError)
    ensures
        error@ == refused_step(*step, message@),
{
    match step {
        RestrictionStep::Filesystem => landlock_setup_error(
            text::owned("could not configure required filesystem rights: ").with(message).as_str(),
            "run on a kernel that supports Landlock filesystem ABI 5",
        ),
        RestrictionStep::Network => landlock_setup_error(
            text::owned("could not configure required TCP network denial: ").with(message).as_str(),
            "run on a kernel that supports Landlock TCP rights or fix the Linux kernel",
        ),
        RestrictionStep::Scope => landlock_setup_error(
            text::owned("could not configure Unix-socket and signal scope denial: ").with(
                message,
            ).as_str(),
            "run on a kernel with working Landlock scope support",
        ),
        RestrictionStep::Create => landlock_setup_error(
            text::owned("could not create the Landlock ruleset: ").with(message).as_str(),
            "enable Landlock in the Linux kernel and retry",
        ),
        RestrictionStep::OpenPath(grant, path) => landlock_setup_error(
            text::owned("could not open ").with(grant.label()).with(" Landlock path ").with(
                path.display().as_str(),
            ).with(": ").with(message).as_str(),
            "ensure every sandbox destination exists after Bubblewrap setup",
        ),
        RestrictionStep::AddRule(grant, path) => landlock_setup_error(
            text::owned("could not add ").with(grant.label()).with(" Landlock rule for ").with(
                path.display().as_str(),
            ).with(": ").with(message).as_str(),
            "remove the conflicting mount and retry with canonical sandbox paths",
        ),
        RestrictionStep::Enforce => landlock_setup_error(
            text::owned("could not enforce the Landlock ruleset: ").with(message).as_str(),
            "use a Linux kernel with enabled unprivileged Landlock and no_new_privs support",
        ),
    }
}

// ---------------------------------------------------------------------------
// Running
// ---------------------------------------------------------------------------

/// The marker that only the sandbox setup leaves behind.
pub open spec fn marker(log: Seq<Answer>, at: int) -> Course<()> {
    let rule = "the launcher must run inside the sandbox that Bubblewrap set up"@;
    let remedy = "start builds through cargo-cage instead of calling the launcher"@;
    match flow::content(Query::ReadText(os::lit(LAUNCHER_CONTEXT_DESTINATION)), log, at) {
        Err(pause) => Err(pause),
        Ok((Err(failure), at)) => Err(
            flow::setup_pause(
                LAUNCHER_CONTEXT_DESTINATION@,
                rule,
                remedy,
                "could not read the launcher context: "@ + failure.message,
                at,
            ),
        ),
        Ok((Ok(content), at)) => if content == LAUNCHER_CONTEXT_CONTENT@ {
            Ok(((), at))
        } else {
            Err(
                flow::setup_pause(
                    LAUNCHER_CONTEXT_DESTINATION@,
                    rule,
                    remedy,
                    "the launcher context does not hold the expected marker"@,
                    at,
                ),
            )
        },
    }
}

fn require_marker(log: &Vec<Answer>, at: usize) -> (checked: Flow<()>)
    ensures
        flow::course(checked) == marker(log@, at as int),
{
    let rule = "the launcher must run inside the sandbox that Bubblewrap set up";
    let remedy = "start builds through cargo-cage instead of calling the launcher";
    let (reply, at) = flow::ask_content(
        Question::ReadText(OsText::new(LAUNCHER_CONTEXT_DESTINATION)),
        log,
        at,
    )?;
    match reply {
        Err(failure) => Err(
            flow::setup_halt(
                LAUNCHER_CONTEXT_DESTINATION,
                rule,
                remedy,
                text::owned("could not read the launcher context: ").with(
                    failure.message.as_str(),
                ).as_str(),
                at,
            ),
        ),
        Ok(content) => {
            if text::same_text(content.as_str(), LAUNCHER_CONTEXT_CONTENT) {
                Ok(((), at))
            } else {
                Err(
                    flow::setup_halt(
                        LAUNCHER_CONTEXT_DESTINATION,
                        rule,
                        remedy,
                        "the launcher context does not hold the expected marker",
                        at,
                    ),
                )
            }
        },
    }
}

/// Confinement on this kernel: it counts only when it took hold entirely.
pub open spec fn confined(grants: Grants, log: Seq<Answer>, at: int) -> Course<()> {
    match flow::supported(Query::Support, log, at) {
        Err(pause) => Err(pause),
        Ok((support, at)) => match ruleset(grants, support) {
            Err(fault) => flow::fail(fault, at),
            Ok(rules) => match flow::restricted(Query::Restrict(rules), log, at) {
                Err(pause) => Err(pause),
                Ok((enforcement, at)) => if enforcement.fully_enforced && enforcement.no_new_privs {
                    Ok(((), at))
                } else {
                    flow::fail(
                        landlock_fault(
                            "Landlock did not report a fully enforced ruleset with no_new_privs"@,
                            "run on a Linux kernel with Landlock ABI 5 or newer and retry"@,
                        ),
                        at,
                    )
                },
            },
        },
    }
}

fn confine(plan: &LauncherPlan, log: &Vec<Answer>, at: usize) -> (result: Flow<()>)
    ensures
        flow::course(result) == confined(plan@, log@, at as int),
{
    let (support, at) = flow::ask_support(log, at)?;
    let restrictions = match apply_landlock(plan, &support) {
        Ok(restrictions) => restrictions,
        Err(error) => return Err(Halt::Fail(error, at)),
    };
    let (enforcement, at) = flow::ask_restriction(Question::Restrict(restrictions), log, at)?;
    if !enforcement.fully_enforced || !enforcement.no_new_privs {
        return Err(
            Halt::Fail(
                landlock_setup_error(
                    "Landlock did not report a fully enforced ruleset with no_new_privs",
                    "run on a Linux kernel with Landlock ABI 5 or newer and retry",
                ),
                at,
            ),
        );
    }
    Ok(((), at))
}

/// The exit code for a program that ended: its own, or 128 and the signal.
pub open spec fn exit_code(exit: Exit) -> int {
    match exit.code {
        Some(code) => code as int,
        None => match exit.signal {
            Some(signal) => 128 + signal,
            None => 129,
        },
    }
}

/// The exit code for a program that ended: its own, or 128 and the signal.
pub fn child_exit_code(exit: &Exit) -> (code: i32)
    requires
        exit.signal matches Some(signal) ==> signal <= i32::MAX - 128,
    ensures
        code == exit_code(*exit),
{
    match exit.code {
        Some(code) => code,
        None => match exit.signal {
            Some(signal) => 128 + signal,
            None => 129,
        },
    }
}

/// A launcher's run: the arguments, the marker, the confinement, and only then
/// the program.
#[verifier::opaque]
pub open spec fn launched(args: Seq<Seq<u8>>, log: Seq<Answer>, at: int) -> Course<Exit> {
    match parsed(args) {
        Err(fault) => flow::fail(fault, at),
        Ok(grants) => match marker(log, at) {
            Err(pause) => Err(pause),
            Ok((_, at)) => match confined(grants, log, at) {
                Err(pause) => Err(pause),
                Ok((_, at)) => match flow::exited(
                    Query::RunProgram(grants.program, grants.args),
                    log,
                    at,
                ) {
                    Err(pause) => Err(pause),
                    Ok((Ok(exit), at)) => Ok((exit, at)),
                    Ok((Err(failure), at)) => Err(
                        flow::io_pause(
                            "could not start sandboxed program "@ + os::lossy_text(grants.program),
                            failure,
                            at,
                        ),
                    ),
                },
            },
        },
    }
}

/// Runs the launcher after Bubblewrap has completed its setup.
///
/// It always applies a deny-by-default Landlock ruleset before it starts the
/// requested child and has no option to disable or widen it.
pub fn run_internal_launcher(args: &Vec<OsText>, log: &Vec<Answer>, at: usize) -> (exit: Flow<Exit>)
    ensures
        flow::course(exit) == launched(os::texts(args@), log@, at as int),
{
    proof {
        reveal(launched);
    }
    let plan = match LauncherPlan::parse(args) {
        Ok(plan) => plan,
        Err(error) => return Err(Halt::Fail(error, at)),
    };
    let (_, at) = require_marker(log, at)?;
    let (_, at) = confine(&plan, log, at)?;
    let (reply, at) = flow::ask_exit(
        Question::RunProgram(plan.program.clone(), os::copy_texts(&plan.args)),
        log,
        at,
    )?;
    match reply {
        Ok(exit) => Ok((exit, at)),
        Err(failure) => Err(
            flow::io_halt(
                text::owned("could not start sandboxed program ").with(
                    plan.program.display().as_str(),
                ).as_str(),
                &failure,
                at,
            ),
        ),
    }
}

// ---------------------------------------------------------------------------
// Laws
// ---------------------------------------------------------------------------

/// Each option asks for its own grant, and none of them is another option or
/// the separator.
proof fn lemma_options(grant: Grant)
    ensures
        grant_named(grant.option()) == Some(grant),
        grant.option() != "--"@,
        is_ascii_chars(grant.option()),
        grant_named(NETWORK_DENY_ARGS@) is None,
        NETWORK_DENY_ARGS@ != "--"@,
        is_ascii_chars(NETWORK_DENY_ARGS@),
        grant_named(INHERIT_ENVIRONMENT_ARGS@) is None,
        INHERIT_ENVIRONMENT_ARGS@ != NETWORK_DENY_ARGS@,
        INHERIT_ENVIRONMENT_ARGS@ != "--"@,
        is_ascii_chars(INHERIT_ENVIRONMENT_ARGS@),
{
    reveal_strlit("--");
    reveal_strlit("--landlock-read");
    reveal_strlit("--landlock-execute");
    reveal_strlit("--landlock-write");
    reveal_strlit("--landlock-lockfile");
    reveal_strlit("--landlock-private");
    reveal_strlit("--landlock-proc");
    reveal_strlit("--landlock-device");
    reveal_strlit("--landlock-network-deny");
    reveal_strlit("--landlock-inherit-environment");
    assert("--"@.len() == 2);
    assert(READ_ARGS@.len() == 15 && EXECUTE_ARGS@.len() == 18 && WRITE_ARGS@.len() == 16);
    assert(LOCKFILE_ARGS@.len() == 19 && PRIVATE_ARGS@.len() == 18 && PROC_ARGS@.len() == 15);
    assert(DEVICE_ARGS@.len() == 17 && NETWORK_DENY_ARGS@.len() == 23);
    assert(INHERIT_ENVIRONMENT_ARGS@.len() == 30);
    assert(READ_ARGS@[11] == 'r' && PROC_ARGS@[11] == 'p');
    assert(EXECUTE_ARGS@[11] == 'e' && PRIVATE_ARGS@[11] == 'p');
}

/// Options and paths, as the launcher's arguments spell them.
pub open spec fn spelled(list: Seq<(Grant, Seq<u8>)>) -> Seq<Seq<u8>>
    decreases list.len(),
{
    if list.len() == 0 {
        Seq::empty()
    } else {
        spelled(list.drop_last()).push(encode_utf8(list.last().0.option())).push(list.last().1)
    }
}

/// Grants with the rules of a list added in order.
pub open spec fn granted(base: Grants, list: Seq<(Grant, Seq<u8>)>) -> Grants
    decreases list.len(),
{
    if list.len() == 0 {
        base
    } else {
        granted(base, list.drop_last()).with(list.last().0, seq![list.last().1])
    }
}

proof fn lemma_spelled(list: Seq<(Grant, Seq<u8>)>)
    ensures
        spelled(list).len() == 2 * list.len(),
        forall|i: int|
            #![trigger list[i]]
            0 <= i < list.len() ==> spelled(list)[2 * i] == encode_utf8(list[i].0.option())
                && spelled(list)[2 * i + 1] == list[i].1,
    decreases list.len(),
{
    if list.len() > 0 {
        let front = list.drop_last();
        lemma_spelled(front);
        assert forall|i: int| #![trigger list[i]] 0 <= i < list.len() implies spelled(list)[2 * i]
            == encode_utf8(list[i].0.option()) && spelled(list)[2 * i + 1] == list[i].1 by {
            if i < front.len() {
                assert(front[i] == list[i]);
            }
        }
    }
}

proof fn lemma_spelled_together(left: Seq<(Grant, Seq<u8>)>, right: Seq<(Grant, Seq<u8>)>)
    ensures
        spelled(left + right) == spelled(left) + spelled(right),
    decreases right.len(),
{
    if right.len() == 0 {
        assert(left + right =~= left);
        assert(spelled(left) + spelled(right) =~= spelled(left));
    } else {
        lemma_spelled_together(left, right.drop_last());
        assert((left + right).drop_last() =~= left + right.drop_last());
        assert(spelled(left + right) =~= spelled(left) + spelled(right));
    }
}

proof fn lemma_granted_together(
    base: Grants,
    left: Seq<(Grant, Seq<u8>)>,
    right: Seq<(Grant, Seq<u8>)>,
)
    ensures
        granted(base, left + right) == granted(granted(base, left), right),
    decreases right.len(),
{
    if right.len() == 0 {
        assert(left + right =~= left);
    } else {
        lemma_granted_together(base, left, right.drop_last());
        assert((left + right).drop_last() =~= left + right.drop_last());
    }
}

proof fn lemma_with_together(base: Grants, grant: Grant, left: Seq<Seq<u8>>, right: Seq<Seq<u8>>)
    ensures
        base.with(grant, left).with(grant, right) == base.with(grant, left + right),
        base.with(grant, Seq::empty()) == base,
{
    let none = Seq::<Seq<u8>>::empty();
    assert(base.read + left + right =~= base.read + (left + right));
    assert(base.execute + left + right =~= base.execute + (left + right));
    assert(base.write + left + right =~= base.write + (left + right));
    assert(base.lockfile + left + right =~= base.lockfile + (left + right));
    assert(base.private + left + right =~= base.private + (left + right));
    assert(base.proc + left + right =~= base.proc + (left + right));
    assert(base.device + left + right =~= base.device + (left + right));
    assert(base.read + none =~= base.read);
    assert(base.execute + none =~= base.execute);
    assert(base.write + none =~= base.write);
    assert(base.lockfile + none =~= base.lockfile);
    assert(base.private + none =~= base.private);
    assert(base.proc + none =~= base.proc);
    assert(base.device + none =~= base.device);
}

/// The same grant for several paths.
proof fn lemma_uniform(base: Grants, grant: Grant, option: &str, paths: Seq<Seq<u8>>)
    requires
        option@ == grant.option(),
    ensures
        spelled(rules_for(grant, paths)) == bwrap::option_all(option, paths),
        granted(base, rules_for(grant, paths)) == base.with(grant, paths),
    decreases paths.len(),
{
    let rules = rules_for(grant, paths);
    if paths.len() == 0 {
        assert(rules =~= Seq::empty());
        lemma_with_together(base, grant, paths, paths);
        assert(paths =~= Seq::empty());
    } else {
        let front = paths.drop_last();
        lemma_uniform(base, grant, option, front);
        assert(rules.drop_last() =~= rules_for(grant, front));
        assert(rules.last() == (grant, paths.last()));
        lemma_with_together(base, grant, front, seq![paths.last()]);
        assert(front + seq![paths.last()] =~= paths);
        lemma_option_front(os::lit(option), paths, front.len() as int);
    }
}

proof fn lemma_option_front(option: Seq<u8>, paths: Seq<Seq<u8>>, count: int)
    requires
        0 <= count < paths.len(),
    ensures
        bwrap::option_each(option, paths.drop_last(), count) == bwrap::option_each(
            option,
            paths,
            count,
        ),
    decreases count,
{
    if count > 0 {
        lemma_option_front(option, paths, count - 1);
    }
}

/// What writable mounts are granted: directories may be changed freely, files
/// only in their content.
pub open spec fn writable_rules(list: Seq<Mount>) -> Seq<(Grant, Seq<u8>)> {
    list.map_values(
        |mount: Mount|
            (
                if mount.kind == MountKind::Directory {
                    Grant::Write
                } else {
                    Grant::Lockfile
                },
                mount.destination,
            ),
    )
}

/// The destinations of directories, or of everything else.
pub open spec fn destinations_of(list: Seq<Mount>, directories: bool) -> Seq<Seq<u8>> {
    bwrap::destinations(
        list.filter(|mount: Mount| (mount.kind == MountKind::Directory) == directories),
    )
}

proof fn lemma_writable(base: Grants, list: Seq<Mount>, count: int)
    requires
        0 <= count <= list.len(),
    ensures
        spelled(writable_rules(list.take(count))) == bwrap::writable_each(list, count),
        granted(base, writable_rules(list.take(count))) == base.with(
            Grant::Write,
            destinations_of(list.take(count), true),
        ).with(Grant::Lockfile, destinations_of(list.take(count), false)),
    decreases count,
{
    reveal(Seq::filter);
    let rules = writable_rules(list.take(count));
    let is_directory = |mount: Mount| (mount.kind == MountKind::Directory) == true;
    let is_other = |mount: Mount| (mount.kind == MountKind::Directory) == false;
    if count == 0 {
        assert(rules =~= Seq::empty());
        assert(list.take(0).filter(is_directory) =~= Seq::empty());
        assert(list.take(0).filter(is_other) =~= Seq::empty());
        assert(destinations_of(list.take(0), true) =~= Seq::empty());
        assert(destinations_of(list.take(0), false) =~= Seq::empty());
        lemma_with_together(base, Grant::Write, Seq::empty(), Seq::empty());
        lemma_with_together(base, Grant::Lockfile, Seq::empty(), Seq::empty());
    } else {
        let front = list.take(count - 1);
        let mount = list[count - 1];
        lemma_writable(base, list, count - 1);
        assert(list.take(count).drop_last() =~= front);
        assert(list.take(count).last() == mount);
        assert(rules.drop_last() =~= writable_rules(front));
        let written = destinations_of(front, true);
        let changed = destinations_of(front, false);
        if mount.kind == MountKind::Directory {
            assert(list.take(count).filter(is_directory) =~= front.filter(is_directory).push(
                mount,
            ));
            assert(list.take(count).filter(is_other) =~= front.filter(is_other));
            assert(destinations_of(list.take(count), true) =~= written + seq![mount.destination]);
            assert(destinations_of(list.take(count), false) == changed);
            lemma_with_together(base, Grant::Write, written, seq![mount.destination]);
        } else {
            assert(list.take(count).filter(is_directory) =~= front.filter(is_directory));
            assert(list.take(count).filter(is_other) =~= front.filter(is_other).push(mount));
            assert(destinations_of(list.take(count), true) == written);
            assert(destinations_of(list.take(count), false) =~= changed + seq![mount.destination]);
            lemma_with_together(
                base.with(Grant::Write, written),
                Grant::Lockfile,
                changed,
                seq![mount.destination],
            );
        }
    }
}

/// A launcher reads spelled options back one by one.
proof fn lemma_reads_back(args: Seq<Seq<u8>>, list: Seq<(Grant, Seq<u8>)>, base: Grants)
    requires
        spelled(list).is_prefix_of(args),
        forall|i: int| 0 <= i < list.len() ==> policy_path_fits((#[trigger] list[i]).1),
    ensures
        parsed_from(args, 0, base) == parsed_from(
            args,
            spelled(list).len() as int,
            granted(base, list),
        ),
    decreases list.len(),
{
    lemma_spelled(list);
    if list.len() > 0 {
        let front = list.drop_last();
        let last = list.last();
        let start = 2 * front.len() as int;
        lemma_spelled(front);
        assert(spelled(list).take(start) =~= spelled(front));
        assert(spelled(front) =~= args.take(start)) by {
            assert(spelled(list) =~= args.take(spelled(list).len() as int));
            assert forall|i: int| 0 <= i < start implies spelled(front)[i] == args[i] by {
                assert(spelled(list)[i] == args[i]);
            }
        }
        assert(forall|i: int| 0 <= i < front.len() ==> (#[trigger] front[i]) == list[i]);
        lemma_reads_back(args, front, base);
        lemma_options(last.0);
        let option = encode_utf8(last.0.option());
        assert(args[start] == option && args[start + 1] == last.1) by {
            assert(list[front.len() as int] == last);
            assert(spelled(list)[start] == args[start]);
            assert(spelled(list)[start + 1] == args[start + 1]);
        }
        encode_utf8_valid_utf8(last.0.option());
        encode_utf8_decode_utf8(last.0.option());
        encode_utf8_decode_utf8("--"@);
        assert(option != os::lit("--"));
        assert(policy_path_fits(last.1));
    }
}

/// Every option and path before the switches.
pub open spec fn grant_list(layout: Layout, mounts: Mounts) -> Seq<(Grant, Seq<u8>)> {
    rules_for(Grant::Execute, bwrap::destinations(mounts.runtime)) + rules_for(
        Grant::Execute,
        bwrap::destinations(mounts.read_only),
    ) + rules_for(Grant::Read, bwrap::destinations(mounts.caches)) + writable_rules(mounts.writable)
        + rules_for(Grant::Private, layout.private_paths) + seq![
        (Grant::Private, os::lit(CARGO_HOME_IN_SANDBOX)),
        (Grant::Proc, os::lit("/proc")),
        (Grant::Device, os::lit("/dev")),
    ]
}

/// What a sandbox grants the program that it runs.
pub open spec fn sandbox_grants(
    layout: Layout,
    mounts: Mounts,
    program: Seq<u8>,
    args: Seq<Seq<u8>>,
) -> Grants {
    Grants {
        read: bwrap::destinations(mounts.caches),
        execute: bwrap::destinations(mounts.runtime) + bwrap::destinations(mounts.read_only),
        write: destinations_of(mounts.writable, true),
        lockfile: destinations_of(mounts.writable, false),
        private: layout.private_paths.push(os::lit(CARGO_HOME_IN_SANDBOX)),
        proc: seq![os::lit("/proc")],
        device: seq![os::lit("/dev")],
        network_deny: layout.network == NetworkAccess::Deny,
        inherit_environment: layout.environment.inherit,
        program,
        args,
    }
}

proof fn lemma_fixed(base: Grants)
    ensures
        ({
            let fixed = seq![
                (Grant::Private, os::lit(CARGO_HOME_IN_SANDBOX)),
                (Grant::Proc, os::lit("/proc")),
                (Grant::Device, os::lit("/dev")),
            ];
            &&& spelled(fixed) == bwrap::fixed_grants()
            &&& granted(base, fixed) == base.with(
                Grant::Private,
                seq![os::lit(CARGO_HOME_IN_SANDBOX)],
            ).with(Grant::Proc, seq![os::lit("/proc")]).with(Grant::Device, seq![os::lit("/dev")])
        }),
{
    let home = (Grant::Private, os::lit(CARGO_HOME_IN_SANDBOX));
    let proc = (Grant::Proc, os::lit("/proc"));
    let device = (Grant::Device, os::lit("/dev"));
    let fixed = seq![home, proc, device];
    assert(fixed.drop_last() =~= seq![home, proc]);
    assert(seq![home, proc].drop_last() =~= seq![home]);
    assert(seq![home].drop_last() =~= Seq::empty());
    assert(spelled(Seq::empty()) =~= Seq::empty());
    assert(spelled(seq![home]) =~= seq![
        os::lit("--landlock-private"),
        os::lit(CARGO_HOME_IN_SANDBOX),
    ]);
    assert(spelled(seq![home, proc]) =~= spelled(seq![home]) + seq![
        os::lit("--landlock-proc"),
        os::lit("/proc"),
    ]);
    assert(spelled(fixed) =~= bwrap::fixed_grants());
    assert(granted(base, Seq::empty()) == base);
    assert(granted(base, seq![home]) == base.with(home.0, seq![home.1]));
    assert(granted(base, seq![home, proc]) == granted(base, seq![home]).with(proc.0, seq![proc.1]));
}

proof fn lemma_grant_list(layout: Layout, mounts: Mounts)
    ensures
        spelled(grant_list(layout, mounts)) == bwrap::launcher_grants(layout, mounts),
        granted(Grants::none(), grant_list(layout, mounts)) == (Grants {
            network_deny: false,
            inherit_environment: false,
            program: Seq::empty(),
            args: Seq::empty(),
            ..sandbox_grants(layout, mounts, Seq::empty(), Seq::empty())
        }),
{
    let none = Grants::none();
    let runtime = bwrap::destinations(mounts.runtime);
    let readable = bwrap::destinations(mounts.read_only);
    let caches = bwrap::destinations(mounts.caches);
    let first = rules_for(Grant::Execute, runtime);
    let second = rules_for(Grant::Execute, readable);
    let third = rules_for(Grant::Read, caches);
    let fourth = writable_rules(mounts.writable);
    let fifth = rules_for(Grant::Private, layout.private_paths);
    let sixth = seq![
        (Grant::Private, os::lit(CARGO_HOME_IN_SANDBOX)),
        (Grant::Proc, os::lit("/proc")),
        (Grant::Device, os::lit("/dev")),
    ];
    lemma_spelled_together(first, second);
    lemma_spelled_together(first + second, third);
    lemma_spelled_together(first + second + third, fourth);
    lemma_spelled_together(first + second + third + fourth, fifth);
    lemma_spelled_together(first + second + third + fourth + fifth, sixth);
    lemma_granted_together(none, first, second);
    lemma_granted_together(none, first + second, third);
    lemma_granted_together(none, first + second + third, fourth);
    lemma_granted_together(none, first + second + third + fourth, fifth);
    lemma_granted_together(none, first + second + third + fourth + fifth, sixth);
    lemma_uniform(none, Grant::Execute, EXECUTE_ARGS, runtime);
    let base = none.with(Grant::Execute, runtime);
    lemma_uniform(base, Grant::Execute, EXECUTE_ARGS, readable);
    let base = base.with(Grant::Execute, readable);
    lemma_uniform(base, Grant::Read, READ_ARGS, caches);
    let base = base.with(Grant::Read, caches);
    assert(mounts.writable.take(mounts.writable.len() as int) =~= mounts.writable);
    lemma_writable(base, mounts.writable, mounts.writable.len() as int);
    let base = base.with(Grant::Write, destinations_of(mounts.writable, true)).with(
        Grant::Lockfile,
        destinations_of(mounts.writable, false),
    );
    lemma_uniform(base, Grant::Private, PRIVATE_ARGS, layout.private_paths);
    let base = base.with(Grant::Private, layout.private_paths);
    lemma_fixed(base);
    let given = granted(none, grant_list(layout, mounts));
    let wanted = sandbox_grants(layout, mounts, Seq::empty(), Seq::empty());
    assert(given.read =~= wanted.read);
    assert(given.execute =~= wanted.execute);
    assert(given.write =~= wanted.write);
    assert(given.lockfile =~= wanted.lockfile);
    assert(given.private =~= wanted.private);
    assert(given.proc =~= wanted.proc);
    assert(given.device =~= wanted.device);
}

proof fn lemma_reads_switch(words: Seq<Seq<u8>>, index: int, base: Grants)
    requires
        0 <= index < words.len(),
    ensures
        words[index] == os::lit(NETWORK_DENY_ARGS) ==> parsed_from(words, index, base)
            == parsed_from(words, index + 1, Grants { network_deny: true, ..base }),
        words[index] == os::lit(INHERIT_ENVIRONMENT_ARGS) ==> parsed_from(words, index, base)
            == parsed_from(words, index + 1, Grants { inherit_environment: true, ..base }),
        words[index] == os::lit("--") ==> parsed_from(words, index, base) == started(
            words,
            index,
            base,
        ),
{
    lemma_options(Grant::Read);
    encode_utf8_valid_utf8(NETWORK_DENY_ARGS@);
    encode_utf8_decode_utf8(NETWORK_DENY_ARGS@);
    encode_utf8_valid_utf8(INHERIT_ENVIRONMENT_ARGS@);
    encode_utf8_decode_utf8(INHERIT_ENVIRONMENT_ARGS@);
    encode_utf8_decode_utf8("--"@);
}

/// The launcher reads back from its command line exactly what the sandbox
/// grants: no path more, no path less, under the grant it was given, with the
/// network decision, the environment switch, the program and its arguments.
pub proof fn launcher_reads_what_was_written(
    layout: Layout,
    mounts: Mounts,
    program: Seq<u8>,
    args: Seq<Seq<u8>>,
)
    requires
        forall|i: int|
            0 <= i < grant_list(layout, mounts).len() ==> policy_path_fits(
                (#[trigger] grant_list(layout, mounts)[i]).1,
            ),
        launcher_path_fits(program),
    ensures
        parsed(bwrap::launcher_args(layout, mounts, program, args)) == Ok::<Grants, Fault>(
            sandbox_grants(layout, mounts, program, args),
        ),
{
    let list = grant_list(layout, mounts);
    let words = bwrap::launcher_args(layout, mounts, program, args);
    let start = spelled(list).len() as int;
    lemma_grant_list(layout, mounts);
    assert(spelled(list) =~= words.take(start));
    lemma_reads_back(words, list, Grants::none());
    let base = granted(Grants::none(), list);
    let (next, base) = if layout.network == NetworkAccess::Deny {
        assert(words[start] == os::lit(NETWORK_DENY_ARGS));
        lemma_reads_switch(words, start, base);
        (start + 1, Grants { network_deny: true, ..base })
    } else {
        (start, base)
    };
    let (next, base) = if layout.environment.inherit {
        assert(words[next] == os::lit(INHERIT_ENVIRONMENT_ARGS));
        lemma_reads_switch(words, next, base);
        (next + 1, Grants { inherit_environment: true, ..base })
    } else {
        (next, base)
    };
    assert(words[next] == os::lit("--"));
    assert(words[next + 1] == program);
    assert(words.skip(next + 2) =~= args);
    lemma_reads_switch(words, next, base);
}

/// A program starts only after the marker was found and the whole ruleset took
/// hold.
pub proof fn programs_start_only_confined(args: Seq<Seq<u8>>, log: Seq<Answer>, at: int)
    requires
        launched(args, log, at) matches Err(Pause::Ask(query)) && query is RunProgram,
    ensures
        parsed(args) is Ok,
        flow::given(log, at) matches Some(Answer::Content(Ok(content))) && content@
            == LAUNCHER_CONTEXT_CONTENT@,
        flow::given(log, at + 1) matches Some(Answer::Supported(support)) && ruleset(
            parsed(args)->Ok_0,
            support,
        ) is Ok,
        flow::given(log, at + 2) matches Some(Answer::Restricted(Ok(enforcement)))
            && enforcement.fully_enforced && enforcement.no_new_privs,
        launched(args, log, at) == Err::<(Exit, int), Pause>(
            Pause::Ask(Query::RunProgram(parsed(args)->Ok_0.program, parsed(args)->Ok_0.args)),
        ),
{
    reveal(launched);
}

} // verus!
