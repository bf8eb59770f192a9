//! The command line of Bubblewrap, and of the launcher that runs inside it.

use crate::error;
use crate::error::{CageError, CageResult, Fault};
use crate::flow::Model;
use crate::order;
use crate::os;
use crate::os::{OsText, PathText};
use crate::path;
use crate::plan;
use crate::plan::{BindMount, Layout, Mask, MaskPath, SandboxPlan, SCRUBBER_SHELL};
use crate::policy::{EnvironmentRules, NetworkAccess};
use crate::text;
use vstd::prelude::*;
use vstd::string::*;
use vstd::utf8::*;

verus! {

/// Where Cargo's home is inside the sandbox.
pub const CARGO_HOME_IN_SANDBOX: &'static str = "/run/cargo-cage-home";

/// Where the launcher is inside the sandbox.
pub const LAUNCHER_DESTINATION: &'static str = "/run/cargo-cage-landlock-launcher";

/// The first argument of the launcher.
pub const INTERNAL_LAUNCHER_ARG: &'static str = "__cargo_cage_landlock_exec";

/// Where the marker of the launcher is inside the sandbox.
pub const LAUNCHER_CONTEXT_DESTINATION: &'static str = "/run/cargo-cage-launcher-context";

/// What the marker of the launcher holds.
pub const LAUNCHER_CONTEXT_CONTENT: &'static str = "cargo-cage-launcher-context\n";

/// Closes every inherited descriptor but the standard ones and runs the rest of
/// the command line.
pub const FD_SCRUBBER: &'static str =
    "set -eu\nfor descriptor in /proc/self/fd/*; do\n  number=${descriptor##*/}\n  if [ \"$number\" -gt 2 ]; then\n    eval \"exec $number>&-\"\n  fi\ndone\nexec \"$@\"\n";

/// Where a mount comes from.
#[derive(Debug)]
pub enum MountSource {
    Path(PathText),
    Fd(i32),
}

/// What a mount must be.
#[derive(Clone, Copy, Debug, PartialEq, Eq, Structural)]
pub enum MountKind {
    Directory,
    File,
    Executable,
    Special,
}

#[derive(Debug)]
pub struct MountArgument {
    pub source: MountSource,
    pub destination: PathText,
    pub kind: MountKind,
}

/// The mounts of a sandbox.
#[derive(Debug)]
pub struct MountArguments {
    pub runtime: Vec<MountArgument>,
    pub read_only: Vec<MountArgument>,
    pub caches: Vec<MountArgument>,
    pub hidden_files: Vec<MountArgument>,
    pub writable: Vec<MountArgument>,
    pub launcher: Option<MountArgument>,
}

/// What a `MountSource` names.
pub enum Source {
    Path(Seq<u8>),
    Fd(i32),
}

/// What a `MountArgument` mounts.
pub struct Mount {
    pub source: Source,
    pub destination: Seq<u8>,
    pub kind: MountKind,
}

/// What `MountArguments` mount.
pub struct Mounts {
    pub runtime: Seq<Mount>,
    pub read_only: Seq<Mount>,
    pub caches: Seq<Mount>,
    pub hidden_files: Seq<Mount>,
    pub writable: Seq<Mount>,
    pub launcher: Option<Mount>,
}

impl View for MountSource {
    type V = Source;

    open spec fn view(&self) -> Source {
        match self {
            MountSource::Path(path) => Source::Path(path@),
            MountSource::Fd(fd) => Source::Fd(*fd),
        }
    }
}

impl View for MountArgument {
    type V = Mount;

    open spec fn view(&self) -> Mount {
        Mount { source: self.source@, destination: self.destination@, kind: self.kind }
    }
}

impl Model for MountArgument {
    type M = Mount;

    open spec fn model(&self) -> Mount {
        self@
    }
}

pub open spec fn mounts(list: Seq<MountArgument>) -> Seq<Mount> {
    list.map_values(|mount: MountArgument| mount@)
}

impl Model for Vec<MountArgument> {
    type M = Seq<Mount>;

    open spec fn model(&self) -> Seq<Mount> {
        mounts(self@)
    }
}

impl View for MountArguments {
    type V = Mounts;

    open spec fn view(&self) -> Mounts {
        Mounts {
            runtime: mounts(self.runtime@),
            read_only: mounts(self.read_only@),
            caches: mounts(self.caches@),
            hidden_files: mounts(self.hidden_files@),
            writable: mounts(self.writable@),
            launcher: self.launcher.model(),
        }
    }
}

impl Model for MountArguments {
    type M = Mounts;

    open spec fn model(&self) -> Mounts {
        self@
    }
}

pub fn push_mount(list: &mut Vec<MountArgument>, mount: MountArgument)
    ensures
        mounts(final(list)@) == mounts(old(list)@).push(mount@),
{
    list.push(mount);
    assert(mounts(list@) =~= mounts(old(list)@).push(mount@));
}

// ---------------------------------------------------------------------------
// Pieces of a command line
// ---------------------------------------------------------------------------

/// An option before each of the first `count` values.
pub open spec fn option_each(option: Seq<u8>, values: Seq<Seq<u8>>, count: int) -> Seq<Seq<u8>>
    decreases count,
{
    if count <= 0 {
        Seq::empty()
    } else {
        option_each(option, values, count - 1).push(option).push(values[count - 1])
    }
}

/// An option before each of the values.
pub open spec fn option_all(option: &str, values: Seq<Seq<u8>>) -> Seq<Seq<u8>> {
    option_each(os::lit(option), values, values.len() as int)
}

pub fn push_option_all(command: &mut Vec<OsText>, option: &str, values: &Vec<OsText>)
    ensures
        os::texts(final(command)@) == os::texts(old(command)@) + option_all(
            option,
            os::texts(values@),
        ),
{
    let ghost before = os::texts(command@);
    let ghost all = os::texts(values@);
    let mut index: usize = 0;
    assert(os::texts(command@) =~= before + option_each(os::lit(option), all, 0));
    while index < values.len()
        invariant
            index <= values.len(),
            all == os::texts(values@),
            os::texts(command@) == before + option_each(os::lit(option), all, index as int),
        decreases values.len() - index,
    {
        assert(all[index as int] == values[index as int]@);
        os::push_lit(command, option);
        os::push_text(command, &values[index]);
        index = index + 1;
        assert(os::texts(command@) =~= before + option_each(os::lit(option), all, index as int));
    }
}

/// The first `count` paths, each mounted over itself.
pub open spec fn bind_each(option: Seq<u8>, paths: Seq<Seq<u8>>, count: int) -> Seq<Seq<u8>>
    decreases count,
{
    if count <= 0 {
        Seq::empty()
    } else {
        bind_each(option, paths, count - 1).push(option).push(paths[count - 1]).push(
            paths[count - 1],
        )
    }
}

/// Paths mounted over themselves.
pub open spec fn bind_all(option: &str, paths: Seq<Seq<u8>>) -> Seq<Seq<u8>> {
    bind_each(os::lit(option), paths, paths.len() as int)
}

fn push_bind_all(command: &mut Vec<OsText>, option: &str, paths: &Vec<PathText>)
    ensures
        os::texts(final(command)@) == os::texts(old(command)@) + bind_all(
            option,
            os::texts(paths@),
        ),
{
    let ghost before = os::texts(command@);
    let ghost all = os::texts(paths@);
    let mut index: usize = 0;
    assert(os::texts(command@) =~= before + bind_each(os::lit(option), all, 0));
    while index < paths.len()
        invariant
            index <= paths.len(),
            all == os::texts(paths@),
            os::texts(command@) == before + bind_each(os::lit(option), all, index as int),
        decreases paths.len() - index,
    {
        assert(all[index as int] == paths[index as int]@);
        os::push_lit(command, option);
        os::push_text(command, &paths[index]);
        os::push_text(command, &paths[index]);
        index = index + 1;
        assert(os::texts(command@) =~= before + bind_each(os::lit(option), all, index as int));
    }
}

/// The first `count` variables, each set.
pub open spec fn set_each(pairs: Seq<(Seq<u8>, Seq<u8>)>, count: int) -> Seq<Seq<u8>>
    decreases count,
{
    if count <= 0 {
        Seq::empty()
    } else {
        set_each(pairs, count - 1).push(os::lit("--setenv")).push(pairs[count - 1].0).push(
            pairs[count - 1].1,
        )
    }
}

fn push_set_all(command: &mut Vec<OsText>, pairs: &Vec<(OsText, OsText)>)
    ensures
        os::texts(final(command)@) == os::texts(old(command)@) + set_each(
            os::pairs(pairs@),
            pairs@.len() as int,
        ),
{
    let ghost before = os::texts(command@);
    let ghost all = os::pairs(pairs@);
    let mut index: usize = 0;
    assert(os::texts(command@) =~= before + set_each(all, 0));
    while index < pairs.len()
        invariant
            index <= pairs.len(),
            all == os::pairs(pairs@),
            os::texts(command@) == before + set_each(all, index as int),
        decreases pairs.len() - index,
    {
        assert(all[index as int] == (pairs[index as int].0@, pairs[index as int].1@));
        os::push_lit(command, "--setenv");
        os::push_text(command, &pairs[index].0);
        os::push_text(command, &pairs[index].1);
        index = index + 1;
        assert(os::texts(command@) =~= before + set_each(all, index as int));
    }
}

/// The first `count` hidden paths, each covered.
pub open spec fn mask_each(hidden: Seq<Mask>, count: int) -> Seq<Seq<u8>>
    decreases count,
{
    if count <= 0 {
        Seq::empty()
    } else {
        let before = mask_each(hidden, count - 1);
        match hidden[count - 1] {
            Mask::Directory(path) => before.push(os::lit("--tmpfs")).push(path),
            Mask::File(path) => before.push(os::lit("--ro-bind")).push(os::lit("/dev/null")).push(
                path,
            ),
        }
    }
}

fn push_mask_all(command: &mut Vec<OsText>, hidden: &Vec<MaskPath>)
    ensures
        os::texts(final(command)@) == os::texts(old(command)@) + mask_each(
            plan::masks(hidden@),
            hidden@.len() as int,
        ),
{
    let ghost before = os::texts(command@);
    let ghost all = plan::masks(hidden@);
    let mut index: usize = 0;
    assert(os::texts(command@) =~= before + mask_each(all, 0));
    while index < hidden.len()
        invariant
            index <= hidden.len(),
            all == plan::masks(hidden@),
            os::texts(command@) == before + mask_each(all, index as int),
        decreases hidden.len() - index,
    {
        assert(all[index as int] == hidden[index as int]@);
        match &hidden[index] {
            MaskPath::Directory(path) => {
                os::push_lit(command, "--tmpfs");
                os::push_text(command, path);
            },
            MaskPath::File(path) => {
                os::push_lit(command, "--ro-bind");
                os::push_lit(command, "/dev/null");
                os::push_text(command, path);
            },
        }
        index = index + 1;
        assert(os::texts(command@) =~= before + mask_each(all, index as int));
    }
}

/// The hidden directories among the first `count` masks.
pub open spec fn hidden_directories(hidden: Seq<Mask>, count: int) -> Seq<Seq<u8>>
    decreases count,
{
    if count <= 0 {
        Seq::empty()
    } else {
        let before = hidden_directories(hidden, count - 1);
        match hidden[count - 1] {
            Mask::Directory(path) => before.push(path),
            Mask::File(_) => before,
        }
    }
}

/// The hidden files among the first `count` masks.
pub open spec fn hidden_files(hidden: Seq<Mask>, count: int) -> Seq<Seq<u8>>
    decreases count,
{
    if count <= 0 {
        Seq::empty()
    } else {
        let before = hidden_files(hidden, count - 1);
        match hidden[count - 1] {
            Mask::Directory(_) => before,
            Mask::File(path) => before.push(path),
        }
    }
}

fn list_hidden_directories(hidden: &Vec<MaskPath>) -> (list: Vec<PathText>)
    ensures
        os::texts(list@) == hidden_directories(plan::masks(hidden@), hidden@.len() as int),
{
    let ghost all = plan::masks(hidden@);
    let mut list: Vec<PathText> = Vec::new();
    let mut index: usize = 0;
    assert(os::texts(list@) =~= Seq::empty());
    while index < hidden.len()
        invariant
            index <= hidden.len(),
            all == plan::masks(hidden@),
            os::texts(list@) == hidden_directories(all, index as int),
        decreases hidden.len() - index,
    {
        assert(all[index as int] == hidden[index as int]@);
        if let MaskPath::Directory(path) = &hidden[index] {
            os::push_text(&mut list, path);
        }
        index = index + 1;
    }
    list
}

pub fn list_hidden_files(hidden: &Vec<MaskPath>) -> (list: Vec<PathText>)
    ensures
        os::texts(list@) == hidden_files(plan::masks(hidden@), hidden@.len() as int),
{
    let ghost all = plan::masks(hidden@);
    let mut list: Vec<PathText> = Vec::new();
    let mut index: usize = 0;
    assert(os::texts(list@) =~= Seq::empty());
    while index < hidden.len()
        invariant
            index <= hidden.len(),
            all == plan::masks(hidden@),
            os::texts(list@) == hidden_files(all, index as int),
        decreases hidden.len() - index,
    {
        assert(all[index as int] == hidden[index as int]@);
        if let MaskPath::File(path) = &hidden[index] {
            os::push_text(&mut list, path);
        }
        index = index + 1;
    }
    list
}

/// What closes off the process: namespaces, capabilities, session and lifetime.
pub open spec fn isolation_args(network: NetworkAccess) -> Seq<Seq<u8>> {
    let always = seq![
        os::lit("--unshare-user"),
        os::lit("--unshare-ipc"),
        os::lit("--unshare-pid"),
        os::lit("--unshare-uts"),
        os::lit("--disable-userns"),
        os::lit("--assert-userns-disabled"),
        os::lit("--cap-drop"),
        os::lit("ALL"),
        os::lit("--new-session"),
        os::lit("--die-with-parent"),
        os::lit("--hostname"),
        os::lit("cargo-cage"),
        os::lit("--chdir"),
    ];
    if network == NetworkAccess::Deny {
        seq![os::lit("--unshare-net")] + always
    } else {
        always
    }
}

fn push_isolation(command: &mut Vec<OsText>, network: NetworkAccess)
    ensures
        os::texts(final(command)@) == os::texts(old(command)@) + isolation_args(network),
{
    if network == NetworkAccess::Deny {
        os::push_lit(command, "--unshare-net");
    }
    os::push_lit(command, "--unshare-user");
    os::push_lit(command, "--unshare-ipc");
    os::push_lit(command, "--unshare-pid");
    os::push_lit(command, "--unshare-uts");
    os::push_lit(command, "--disable-userns");
    os::push_lit(command, "--assert-userns-disabled");
    os::push_lit(command, "--cap-drop");
    os::push_lit(command, "ALL");
    os::push_lit(command, "--new-session");
    os::push_lit(command, "--die-with-parent");
    os::push_lit(command, "--hostname");
    os::push_lit(command, "cargo-cage");
    os::push_lit(command, "--chdir");
    assert(os::texts(command@) =~= os::texts(old(command)@) + isolation_args(network));
}

/// The environment of the process: emptied unless it is inherited, then the
/// removals, then the variables that are set.
pub open spec fn environment_args(environment: EnvironmentRules) -> Seq<Seq<u8>> {
    let start: Seq<Seq<u8>> = if environment.inherit {
        Seq::empty()
    } else {
        seq![os::lit("--clearenv")]
    };
    start + option_all("--unsetenv", environment.remove) + set_each(
        environment.set,
        environment.set.len() as int,
    )
}

/// The sandbox's own Cargo home as a variable.
pub open spec fn cargo_home_args() -> Seq<Seq<u8>> {
    seq![os::lit("--setenv"), os::lit("CARGO_HOME"), os::lit(CARGO_HOME_IN_SANDBOX)]
}

fn push_environment(command: &mut Vec<OsText>, plan: &SandboxPlan)
    ensures
        os::texts(final(command)@) == os::texts(old(command)@) + environment_args(
            plan@.environment,
        ),
{
    if !plan.environment.inherit {
        os::push_lit(command, "--clearenv");
    }
    push_option_all(command, "--unsetenv", &plan.environment.remove);
    push_set_all(command, &plan.environment.set);
    assert(os::texts(command@) =~= os::texts(old(command)@) + environment_args(
        plan@.environment,
    ));
}

fn push_cargo_home(command: &mut Vec<OsText>)
    ensures
        os::texts(final(command)@) == os::texts(old(command)@) + cargo_home_args(),
{
    os::push_lit(command, "--setenv");
    os::push_lit(command, "CARGO_HOME");
    os::push_lit(command, CARGO_HOME_IN_SANDBOX);
    assert(os::texts(command@) =~= os::texts(old(command)@) + cargo_home_args());
}

/// The command that the sandbox runs, behind the separator.
pub open spec fn program_args(program: Seq<u8>, args: Seq<Seq<u8>>) -> Seq<Seq<u8>> {
    seq![os::lit("--"), program] + args
}

fn push_program(command: &mut Vec<OsText>, program: &PathText, args: &Vec<OsText>)
    ensures
        os::texts(final(command)@) == os::texts(old(command)@) + program_args(
            program@,
            os::texts(args@),
        ),
{
    os::push_lit(command, "--");
    os::push_text(command, program);
    os::push_texts(command, args);
    assert(os::texts(command@) =~= os::texts(old(command)@) + program_args(
        program@,
        os::texts(args@),
    ));
}

// ---------------------------------------------------------------------------
// A sandbox over the whole host, read-only
// ---------------------------------------------------------------------------

/// The host, read-only, with its own process and device filesystems.
pub open spec fn host_args() -> Seq<Seq<u8>> {
    seq![
        os::lit("--ro-bind"),
        os::lit("/"),
        os::lit("/"),
        os::lit("--proc"),
        os::lit("/proc"),
        os::lit("--dev"),
        os::lit("/dev"),
    ]
}

/// Cargo's caches inside the sandbox's Cargo home.
pub open spec fn try_cache_args(cargo_home: Option<Seq<u8>>) -> Seq<Seq<u8>> {
    let home = seq![os::lit("--dir"), os::lit(CARGO_HOME_IN_SANDBOX)];
    match cargo_home {
        Some(source) => home + seq![
            os::lit("--ro-bind-try"),
            path::join(source, os::lit("registry")),
            path::join(os::lit(CARGO_HOME_IN_SANDBOX), os::lit("registry")),
            os::lit("--ro-bind-try"),
            path::join(source, os::lit("git")),
            path::join(os::lit(CARGO_HOME_IN_SANDBOX), os::lit("git")),
        ],
        None => home,
    }
}

fn push_try_caches(command: &mut Vec<OsText>, cargo_home: &Option<PathText>)
    ensures
        os::texts(final(command)@) == os::texts(old(command)@) + try_cache_args(
            cargo_home.model(),
        ),
{
    os::push_lit(command, "--dir");
    os::push_lit(command, CARGO_HOME_IN_SANDBOX);
    if let Some(source) = cargo_home {
        let inner = OsText::new(CARGO_HOME_IN_SANDBOX);
        os::push_lit(command, "--ro-bind-try");
        os::push_text(command, &source.join_text("registry"));
        os::push_text(command, &inner.join_text("registry"));
        os::push_lit(command, "--ro-bind-try");
        os::push_text(command, &source.join_text("git"));
        os::push_text(command, &inner.join_text("git"));
    }
    assert(os::texts(command@) =~= os::texts(old(command)@) + try_cache_args(cargo_home.model()));
}

/// The whole command line: the host read-only, private filesystems over it, the
/// caches, what stays readable, what is hidden, what is writable, then the
/// isolation, the environment and the program.
pub open spec fn bwrap_args(layout: Layout, program: Seq<u8>, args: Seq<Seq<u8>>) -> Seq<Seq<u8>> {
    host_args() + option_all("--tmpfs", layout.private_paths) + try_cache_args(layout.cargo_home)
        + bind_all("--ro-bind", layout.read_only_paths) + mask_each(
        layout.hidden_paths,
        layout.hidden_paths.len() as int,
    ) + bind_all("--bind", layout.writable_paths) + isolation_args(layout.network)
        + seq![layout.current_dir] + environment_args(layout.environment) + cargo_home_args()
        + program_args(program, args)
}

/// The arguments of Bubblewrap for a sandbox over the whole host.
pub fn build_bwrap_args(plan: &SandboxPlan, program: &PathText, args: &Vec<OsText>) -> (command:
    Vec<OsText>)
    ensures
        os::texts(command@) == bwrap_args(plan@, program@, os::texts(args@)),
{
    let mut command: Vec<OsText> = Vec::new();
    os::push_lit(&mut command, "--ro-bind");
    os::push_lit(&mut command, "/");
    os::push_lit(&mut command, "/");
    os::push_lit(&mut command, "--proc");
    os::push_lit(&mut command, "/proc");
    os::push_lit(&mut command, "--dev");
    os::push_lit(&mut command, "/dev");
    assert(os::texts(command@) =~= host_args());
    push_option_all(&mut command, "--tmpfs", &plan.private_paths);
    push_try_caches(&mut command, &plan.cargo_home);
    push_bind_all(&mut command, "--ro-bind", &plan.read_only_paths);
    push_mask_all(&mut command, &plan.hidden_paths);
    push_bind_all(&mut command, "--bind", &plan.writable_paths);
    push_isolation(&mut command, plan.network);
    let ghost before = os::texts(command@);
    os::push_text(&mut command, &plan.current_dir);
    assert(os::texts(command@) =~= before + seq![plan@.current_dir]);
    push_environment(&mut command, plan);
    push_cargo_home(&mut command);
    push_program(&mut command, program, args);
    command
}

// ---------------------------------------------------------------------------
// A sandbox made of chosen mounts
// ---------------------------------------------------------------------------

/// The option of a mount.
pub open spec fn mount_option(read_only: bool, source: Source) -> Seq<u8> {
    match source {
        Source::Fd(_) => if read_only {
            os::lit("--ro-bind-fd")
        } else {
            os::lit("--bind-fd")
        },
        Source::Path(_) => if read_only {
            os::lit("--ro-bind")
        } else {
            os::lit("--bind")
        },
    }
}

/// The source of a mount as an argument.
pub open spec fn source_text(source: Source) -> Seq<u8> {
    match source {
        Source::Fd(fd) => encode_utf8(text::signed_decimal(fd as int)),
        Source::Path(path) => path,
    }
}

/// The first `count` mounts.
pub open spec fn mount_each(read_only: bool, list: Seq<Mount>, count: int) -> Seq<Seq<u8>>
    decreases count,
{
    if count <= 0 {
        Seq::empty()
    } else {
        let mount = list[count - 1];
        mount_each(read_only, list, count - 1).push(mount_option(read_only, mount.source)).push(
            source_text(mount.source),
        ).push(mount.destination)
    }
}

pub open spec fn mount_all(read_only: bool, list: Seq<Mount>) -> Seq<Seq<u8>> {
    mount_each(read_only, list, list.len() as int)
}

pub fn push_mount_argument(command: &mut Vec<OsText>, read_only: bool, mount: &MountArgument)
    ensures
        os::texts(final(command)@) == os::texts(old(command)@).push(
            mount_option(read_only, mount@.source),
        ).push(source_text(mount@.source)).push(mount@.destination),
{
    match &mount.source {
        MountSource::Fd(fd) => {
            os::push_lit(
                command,
                if read_only {
                    "--ro-bind-fd"
                } else {
                    "--bind-fd"
                },
            );
            os::push_lit(command, text::signed_text(*fd).as_str());
        },
        MountSource::Path(path) => {
            os::push_lit(
                command,
                if read_only {
                    "--ro-bind"
                } else {
                    "--bind"
                },
            );
            os::push_text(command, path);
        },
    }
    os::push_text(command, &mount.destination);
}

fn push_mount_all(command: &mut Vec<OsText>, read_only: bool, list: &Vec<MountArgument>)
    ensures
        os::texts(final(command)@) == os::texts(old(command)@) + mount_all(
            read_only,
            mounts(list@),
        ),
{
    let ghost before = os::texts(command@);
    let ghost all = mounts(list@);
    let mut index: usize = 0;
    assert(os::texts(command@) =~= before + mount_each(read_only, all, 0));
    while index < list.len()
        invariant
            index <= list.len(),
            all == mounts(list@),
            os::texts(command@) == before + mount_each(read_only, all, index as int),
        decreases list.len() - index,
    {
        assert(all[index as int] == list[index as int]@);
        push_mount_argument(command, read_only, &list[index]);
        index = index + 1;
        assert(os::texts(command@) =~= before + mount_each(read_only, all, index as int));
    }
}

/// The places where the runtime is mounted.
pub open spec fn runtime_destinations(mounts: Seq<(Seq<u8>, Seq<u8>)>) -> Seq<Seq<u8>> {
    mounts.map_values(|mount: (Seq<u8>, Seq<u8>)| mount.1)
}

fn list_runtime_destinations(list: &Vec<BindMount>) -> (destinations: Vec<PathText>)
    ensures
        os::texts(destinations@) == runtime_destinations(plan::binds(list@)),
{
    let mut destinations: Vec<PathText> = Vec::new();
    let mut index: usize = 0;
    let ghost all = runtime_destinations(plan::binds(list@));
    while index < list.len()
        invariant
            index <= list.len(),
            all == runtime_destinations(plan::binds(list@)),
            os::texts(destinations@) == all.take(index as int),
        decreases list.len() - index,
    {
        os::push_text(&mut destinations, &list[index].destination);
        assert(all[index as int] == list[index as int].destination@);
        index = index + 1;
        assert(os::texts(destinations@) =~= all.take(index as int));
    }
    assert(all.take(index as int) =~= all);
    destinations
}

/// The directories that must exist before paths can be mounted.
pub open spec fn directory_args(
    paths: Seq<Seq<u8>>,
    blocked: Seq<Seq<u8>>,
    runtime: Seq<(Seq<u8>, Seq<u8>)>,
) -> Seq<Seq<u8>> {
    option_all(
        "--dir",
        order::needed_directories(paths, blocked, runtime_destinations(runtime)),
    )
}

pub fn push_parent_directories(
    command: &mut Vec<OsText>,
    paths: &Vec<PathText>,
    blocked: &Vec<PathText>,
    runtime: &Vec<BindMount>,
)
    ensures
        os::texts(final(command)@) == os::texts(old(command)@) + directory_args(
            os::texts(paths@),
            os::texts(blocked@),
            plan::binds(runtime@),
        ),
{
    let destinations = list_runtime_destinations(runtime);
    let directories = order::collect_parent_directories(paths, blocked, &destinations);
    push_option_all(command, "--dir", &directories);
}

/// The marker of the launcher, handed over through a descriptor.
pub open spec fn context_args(descriptor: Option<i32>) -> Seq<Seq<u8>> {
    match descriptor {
        Some(fd) => seq![
            os::lit("--file"),
            encode_utf8(text::signed_decimal(fd as int)),
            os::lit(LAUNCHER_CONTEXT_DESTINATION),
        ],
        None => Seq::empty(),
    }
}

fn push_context(command: &mut Vec<OsText>, descriptor: Option<i32>)
    ensures
        os::texts(final(command)@) == os::texts(old(command)@) + context_args(descriptor),
{
    if let Some(fd) = descriptor {
        os::push_lit(command, "--file");
        os::push_lit(command, text::signed_text(fd).as_str());
        os::push_lit(command, LAUNCHER_CONTEXT_DESTINATION);
    }
    assert(os::texts(command@) =~= os::texts(old(command)@) + context_args(descriptor));
}

/// The filesystems of the sandbox: runtime, private places, what stays
/// readable, caches, masks, what is writable.
pub open spec fn filesystem_args(layout: Layout, mounts: Mounts) -> Seq<Seq<u8>> {
    mount_all(true, mounts.runtime) + seq![
        os::lit("--proc"),
        os::lit("/proc"),
        os::lit("--dev"),
        os::lit("/dev"),
    ] + directory_args(layout.private_paths, Seq::empty(), layout.runtime_mounts) + option_all(
        "--tmpfs",
        order::private_order(layout.private_paths),
    ) + seq![os::lit("--dir"), os::lit(CARGO_HOME_IN_SANDBOX)] + directory_args(
        layout.read_only_paths,
        layout.private_paths,
        layout.runtime_mounts,
    ) + mount_all(true, mounts.read_only) + mount_all(true, mounts.caches) + option_all(
        "--tmpfs",
        hidden_directories(layout.hidden_paths, layout.hidden_paths.len() as int),
    ) + mount_all(true, mounts.hidden_files) + mount_all(false, mounts.writable)
}

fn push_filesystem(command: &mut Vec<OsText>, plan: &SandboxPlan, mounts: &MountArguments)
    requires
        os::texts(old(command)@) == Seq::<Seq<u8>>::empty(),
    ensures
        os::texts(final(command)@) == filesystem_args(plan@, mounts@),
{
    push_mount_all(command, true, &mounts.runtime);
    assert(os::texts(command@) =~= mount_all(true, mounts@.runtime));
    let ghost before = os::texts(command@);
    os::push_lit(command, "--proc");
    os::push_lit(command, "/proc");
    os::push_lit(command, "--dev");
    os::push_lit(command, "/dev");
    assert(os::texts(command@) =~= before + seq![
        os::lit("--proc"),
        os::lit("/proc"),
        os::lit("--dev"),
        os::lit("/dev"),
    ]);
    let none: Vec<PathText> = Vec::new();
    assert(os::texts(none@) =~= Seq::empty());
    push_parent_directories(command, &plan.private_paths, &none, &plan.runtime_mounts);
    push_option_all(command, "--tmpfs", &order::private_mount_order(&plan.private_paths));
    let ghost before = os::texts(command@);
    os::push_lit(command, "--dir");
    os::push_lit(command, CARGO_HOME_IN_SANDBOX);
    assert(os::texts(command@) =~= before + seq![
        os::lit("--dir"),
        os::lit(CARGO_HOME_IN_SANDBOX),
    ]);
    push_parent_directories(
        command,
        &plan.read_only_paths,
        &plan.private_paths,
        &plan.runtime_mounts,
    );
    push_mount_all(command, true, &mounts.read_only);
    push_mount_all(command, true, &mounts.caches);
    push_option_all(command, "--tmpfs", &list_hidden_directories(&plan.hidden_paths));
    push_mount_all(command, true, &mounts.hidden_files);
    push_mount_all(command, false, &mounts.writable);
}

/// The Cargo home variable, unless it is to be removed.
pub open spec fn cargo_home_unless_removed(environment: EnvironmentRules) -> Seq<Seq<u8>> {
    if environment.remove.contains(os::lit("CARGO_HOME")) {
        Seq::empty()
    } else {
        cargo_home_args()
    }
}

/// What runs first inside the sandbox: the descriptor scrubber, then the
/// launcher.
pub open spec fn scrubber_args() -> Seq<Seq<u8>> {
    seq![
        os::lit("--"),
        os::lit(SCRUBBER_SHELL),
        os::lit("-c"),
        os::lit(FD_SCRUBBER),
        os::lit("cargo-cage-fd-scrubber"),
        os::lit(LAUNCHER_DESTINATION),
        os::lit(INTERNAL_LAUNCHER_ARG),
    ]
}

fn push_scrubber(command: &mut Vec<OsText>)
    ensures
        os::texts(final(command)@) == os::texts(old(command)@) + scrubber_args(),
{
    os::push_lit(command, "--");
    os::push_lit(command, SCRUBBER_SHELL);
    os::push_lit(command, "-c");
    os::push_lit(command, FD_SCRUBBER);
    os::push_lit(command, "cargo-cage-fd-scrubber");
    os::push_lit(command, LAUNCHER_DESTINATION);
    os::push_lit(command, INTERNAL_LAUNCHER_ARG);
    assert(os::texts(command@) =~= os::texts(old(command)@) + scrubber_args());
}

/// Everything before the launcher's own mount.
pub open spec fn setup_args(
    layout: Layout,
    mounts: Mounts,
    descriptor: Option<i32>,
) -> Seq<Seq<u8>> {
    filesystem_args(layout, mounts) + context_args(descriptor) + isolation_args(layout.network)
        + seq![layout.current_dir] + environment_args(layout.environment)
        + cargo_home_unless_removed(layout.environment)
}

/// The whole command line of a sandbox made of chosen mounts.
pub open spec fn mounted_args(
    layout: Layout,
    mounts: Mounts,
    program: Seq<u8>,
    args: Seq<Seq<u8>>,
    descriptor: Option<i32>,
) -> Result<Seq<Seq<u8>>, Fault> {
    match mounts.launcher {
        None => Err(
            Fault::SandboxSetup {
                subject: LAUNCHER_DESTINATION@,
                rule: "Cargo must start only after the internal Landlock launcher is mounted"@,
                remedy: "rebuild cargo-cage from a complete installation"@,
                detail: "the launcher mount was not prepared"@,
            },
        ),
        Some(launcher) => Ok(
            setup_args(layout, mounts, descriptor) + mount_all(true, seq![launcher])
                + scrubber_args() + launcher_args(layout, mounts, program, args),
        ),
    }
}

/// A list of strings, or the error.
pub open spec fn list_outcome(result: CageResult<Vec<OsText>>) -> Result<Seq<Seq<u8>>, Fault> {
    match result {
        Ok(list) => Ok(os::texts(list@)),
        Err(error) => Err(error@),
    }
}

fn push_setup(
    command: &mut Vec<OsText>,
    plan: &SandboxPlan,
    mounts: &MountArguments,
    descriptor: Option<i32>,
)
    requires
        os::texts(old(command)@) == Seq::<Seq<u8>>::empty(),
    ensures
        os::texts(final(command)@) == setup_args(plan@, mounts@, descriptor),
{
    push_filesystem(command, plan, mounts);
    push_context(command, descriptor);
    push_isolation(command, plan.network);
    let ghost before = os::texts(command@);
    os::push_text(command, &plan.current_dir);
    assert(os::texts(command@) =~= before + seq![plan@.current_dir]);
    push_environment(command, plan);
    let ghost before = os::texts(command@);
    if !os::contains_text(&plan.environment.remove, &OsText::new("CARGO_HOME")) {
        push_cargo_home(command);
    } else {
        assert(before + Seq::<Seq<u8>>::empty() =~= before);
    }
}

/// The arguments of Bubblewrap for a sandbox made of chosen mounts. The program
/// is started by the launcher, behind the descriptor scrubber.
pub fn build_bwrap_args_with_mounts(
    plan: &SandboxPlan,
    mounts: &MountArguments,
    program: &PathText,
    args: &Vec<OsText>,
    launcher_context_fd: Option<i32>,
) -> (command: CageResult<Vec<OsText>>)
    requires
        mounts@.launcher is Some ==> writable_kinds_fit(mounts@.writable),
    ensures
        list_outcome(command) == mounted_args(
            plan@,
            mounts@,
            program@,
            os::texts(args@),
            launcher_context_fd,
        ),
{
    let launcher = match &mounts.launcher {
        Some(launcher) => launcher,
        None => {
            return Err(
                CageError::sandbox_setup(
                    LAUNCHER_DESTINATION,
                    "Cargo must start only after the internal Landlock launcher is mounted",
                    "rebuild cargo-cage from a complete installation",
                    "the launcher mount was not prepared",
                ),
            );
        },
    };
    let mut command: Vec<OsText> = Vec::new();
    assert(os::texts(command@) =~= Seq::empty());
    push_setup(&mut command, plan, mounts, launcher_context_fd);
    let ghost before = os::texts(command@);
    push_mount_argument(&mut command, true, launcher);
    proof {
        let single = seq![launcher@];
        assert(mount_each(true, single, 0) =~= Seq::empty());
        assert(mount_each(true, single, 1) =~= Seq::<Seq<u8>>::empty().push(
            mount_option(true, single[0].source),
        ).push(source_text(single[0].source)).push(single[0].destination));
    }
    assert(os::texts(command@) =~= before + mount_all(true, seq![launcher@]));
    push_scrubber(&mut command);
    os::push_texts(&mut command, &landlock_launcher_args(plan, mounts, program, args));
    Ok(command)
}

// ---------------------------------------------------------------------------
// The launcher's command line
// ---------------------------------------------------------------------------

/// Writable mounts are directories or single files.
pub open spec fn writable_kinds_fit(list: Seq<Mount>) -> bool {
    forall|i: int|
        0 <= i < list.len() ==> ((#[trigger] list[i]).kind == MountKind::Directory || list[i].kind
            == MountKind::File)
}

pub open spec fn destinations(list: Seq<Mount>) -> Seq<Seq<u8>> {
    list.map_values(|mount: Mount| mount.destination)
}

fn list_destinations(list: &Vec<MountArgument>) -> (result: Vec<PathText>)
    ensures
        os::texts(result@) == destinations(mounts(list@)),
{
    let mut result: Vec<PathText> = Vec::new();
    let mut index: usize = 0;
    let ghost all = destinations(mounts(list@));
    while index < list.len()
        invariant
            index <= list.len(),
            all == destinations(mounts(list@)),
            os::texts(result@) == all.take(index as int),
        decreases list.len() - index,
    {
        os::push_text(&mut result, &list[index].destination);
        assert(all[index as int] == list[index as int].destination@);
        index = index + 1;
        assert(os::texts(result@) =~= all.take(index as int));
    }
    assert(all.take(index as int) =~= all);
    result
}

/// The first `count` writable mounts: directories may be changed freely, files
/// only in their content.
pub open spec fn writable_each(list: Seq<Mount>, count: int) -> Seq<Seq<u8>>
    decreases count,
{
    if count <= 0 {
        Seq::empty()
    } else {
        let mount = list[count - 1];
        writable_each(list, count - 1).push(
            if mount.kind == MountKind::Directory {
                os::lit("--landlock-write")
            } else {
                os::lit("--landlock-lockfile")
            },
        ).push(mount.destination)
    }
}

fn push_writable_all(command: &mut Vec<OsText>, list: &Vec<MountArgument>)
    requires
        writable_kinds_fit(mounts(list@)),
    ensures
        os::texts(final(command)@) == os::texts(old(command)@) + writable_each(
            mounts(list@),
            list@.len() as int,
        ),
{
    let ghost before = os::texts(command@);
    let ghost all = mounts(list@);
    let mut index: usize = 0;
    assert(os::texts(command@) =~= before + writable_each(all, 0));
    while index < list.len()
        invariant
            index <= list.len(),
            all == mounts(list@),
            os::texts(command@) == before + writable_each(all, index as int),
        decreases list.len() - index,
    {
        assert(all[index as int] == list[index as int]@);
        os::push_lit(
            command,
            if list[index].kind == MountKind::Directory {
                "--landlock-write"
            } else {
                "--landlock-lockfile"
            },
        );
        os::push_text(command, &list[index].destination);
        index = index + 1;
        assert(os::texts(command@) =~= before + writable_each(all, index as int));
    }
}

/// What every launcher grants: the Cargo home, the process and the device
/// filesystems.
pub open spec fn fixed_grants() -> Seq<Seq<u8>> {
    seq![
        os::lit("--landlock-private"),
        os::lit(CARGO_HOME_IN_SANDBOX),
        os::lit("--landlock-proc"),
        os::lit("/proc"),
        os::lit("--landlock-device"),
        os::lit("/dev"),
    ]
}

/// The launcher's switches.
pub open spec fn launcher_switches(network: NetworkAccess, inherit: bool) -> Seq<Seq<u8>> {
    let deny: Seq<Seq<u8>> = if network == NetworkAccess::Deny {
        seq![os::lit("--landlock-network-deny")]
    } else {
        Seq::empty()
    };
    if inherit {
        deny.push(os::lit("--landlock-inherit-environment"))
    } else {
        deny
    }
}

/// What the launcher is to allow.
pub open spec fn launcher_grants(layout: Layout, mounts: Mounts) -> Seq<Seq<u8>> {
    option_all("--landlock-execute", destinations(mounts.runtime)) + option_all(
        "--landlock-execute",
        destinations(mounts.read_only),
    ) + option_all("--landlock-read", destinations(mounts.caches)) + writable_each(
        mounts.writable,
        mounts.writable.len() as int,
    ) + option_all("--landlock-private", layout.private_paths) + fixed_grants()
}

/// The launcher's whole command line.
pub open spec fn launcher_args(
    layout: Layout,
    mounts: Mounts,
    program: Seq<u8>,
    args: Seq<Seq<u8>>,
) -> Seq<Seq<u8>> {
    launcher_grants(layout, mounts) + launcher_switches(
        layout.network,
        layout.environment.inherit,
    ) + program_args(program, args)
}

/// The arguments of the launcher: what it allows, and the program it starts.
pub fn landlock_launcher_args(
    plan: &SandboxPlan,
    mounts: &MountArguments,
    program: &PathText,
    args: &Vec<OsText>,
) -> (command: Vec<OsText>)
    requires
        writable_kinds_fit(mounts@.writable),
    ensures
        os::texts(command@) == launcher_args(plan@, mounts@, program@, os::texts(args@)),
{
    let mut command: Vec<OsText> = Vec::new();
    push_option_all(&mut command, "--landlock-execute", &list_destinations(&mounts.runtime));
    assert(os::texts(command@) =~= option_all(
        "--landlock-execute",
        destinations(mounts@.runtime),
    ));
    push_option_all(&mut command, "--landlock-execute", &list_destinations(&mounts.read_only));
    push_option_all(&mut command, "--landlock-read", &list_destinations(&mounts.caches));
    push_writable_all(&mut command, &mounts.writable);
    push_option_all(&mut command, "--landlock-private", &plan.private_paths);
    let ghost before = os::texts(command@);
    os::push_lit(&mut command, "--landlock-private");
    os::push_lit(&mut command, CARGO_HOME_IN_SANDBOX);
    os::push_lit(&mut command, "--landlock-proc");
    os::push_lit(&mut command, "/proc");
    os::push_lit(&mut command, "--landlock-device");
    os::push_lit(&mut command, "/dev");
    assert(os::texts(command@) =~= before + fixed_grants());
    let ghost before = os::texts(command@);
    if plan.network == NetworkAccess::Deny {
        os::push_lit(&mut command, "--landlock-network-deny");
    }
    if plan.environment.inherit {
        os::push_lit(&mut command, "--landlock-inherit-environment");
    }
    assert(os::texts(command@) =~= before + launcher_switches(
        plan@.network,
        plan@.environment.inherit,
    ));
    push_program(&mut command, program, args);
    command
}

// ---------------------------------------------------------------------------
// Laws
// ---------------------------------------------------------------------------

/// Where the isolation options begin.
pub open spec fn isolation_start(layout: Layout, mounts: Mounts, descriptor: Option<i32>) -> int {
    (filesystem_args(layout, mounts).len() + context_args(descriptor).len()) as int
}

/// Denying the network adds one option that takes the network away, and changes
/// nothing else of the setup.
pub proof fn network_denial_unshares_the_network(
    layout: Layout,
    mounts: Mounts,
    descriptor: Option<i32>,
)
    requires
        layout.network == NetworkAccess::Deny,
    ensures
        setup_args(layout, mounts, descriptor) == setup_args(
            (Layout { network: NetworkAccess::Allow, ..layout }),
            mounts,
            descriptor,
        ).insert(isolation_start(layout, mounts, descriptor), os::lit("--unshare-net")),
{
    let open = Layout { network: NetworkAccess::Allow, ..layout };
    let start = isolation_start(layout, mounts, descriptor);
    let word = os::lit("--unshare-net");
    let front = filesystem_args(layout, mounts) + context_args(descriptor);
    let always = isolation_args(NetworkAccess::Allow);
    let behind = seq![layout.current_dir];
    let environment = environment_args(layout.environment);
    let home = cargo_home_unless_removed(layout.environment);
    assert(filesystem_args(open, mounts) == filesystem_args(layout, mounts));
    assert(isolation_args(layout.network) == seq![word] + always);
    lemma_inserted(front, word, always);
    lemma_inserted_before(front + always, start, word, behind);
    lemma_inserted_before(front + always + behind, start, word, environment);
    lemma_inserted_before(front + always + behind + environment, start, word, home);
}

/// A word between two lists.
proof fn lemma_inserted(front: Seq<Seq<u8>>, word: Seq<u8>, tail: Seq<Seq<u8>>)
    ensures
        front + (seq![word] + tail) == (front + tail).insert(front.len() as int, word),
{
    assert(front + (seq![word] + tail) =~= (front + tail).insert(front.len() as int, word));
}

/// More behind a list leaves a word inserted in it where it is.
proof fn lemma_inserted_before(
    list: Seq<Seq<u8>>,
    place: int,
    word: Seq<u8>,
    tail: Seq<Seq<u8>>,
)
    requires
        0 <= place <= list.len(),
    ensures
        list.insert(place, word) + tail == (list + tail).insert(place, word),
{
    assert(list.insert(place, word) + tail =~= (list + tail).insert(place, word));
}

/// An environment that is not inherited is emptied before anything is set in
/// it.
pub proof fn environment_is_emptied_first(environment: EnvironmentRules)
    requires
        !environment.inherit,
    ensures
        environment_args(environment).len() > 0,
        environment_args(environment)[0] == os::lit("--clearenv"),
        environment_args(environment).skip(1) == environment_args(
            EnvironmentRules { inherit: true, ..environment },
        ),
{
    let inherited = EnvironmentRules { inherit: true, ..environment };
    assert(environment_args(environment).skip(1) =~= environment_args(inherited));
}

/// The program and its arguments end the command line unchanged, behind the
/// separator.
pub proof fn the_program_comes_last(
    layout: Layout,
    mounts: Mounts,
    program: Seq<u8>,
    args: Seq<Seq<u8>>,
    descriptor: Option<i32>,
)
    ensures
        program_args(program, args).is_suffix_of(bwrap_args(layout, program, args)),
        program_args(program, args).is_suffix_of(launcher_args(layout, mounts, program, args)),
        mounted_args(layout, mounts, program, args, descriptor) matches Ok(command) ==> (
        scrubber_args() + launcher_args(layout, mounts, program, args)).is_suffix_of(command),
{
    let tail = program_args(program, args);
    assert(tail.is_suffix_of(bwrap_args(layout, program, args))) by {
        let front = host_args() + option_all("--tmpfs", layout.private_paths) + try_cache_args(
            layout.cargo_home,
        ) + bind_all("--ro-bind", layout.read_only_paths) + mask_each(
            layout.hidden_paths,
            layout.hidden_paths.len() as int,
        ) + bind_all("--bind", layout.writable_paths) + isolation_args(layout.network)
            + seq![layout.current_dir] + environment_args(layout.environment) + cargo_home_args();
        lemma_ends_with(front, tail);
    }
    assert(tail.is_suffix_of(launcher_args(layout, mounts, program, args))) by {
        let front = launcher_grants(layout, mounts) + launcher_switches(
            layout.network,
            layout.environment.inherit,
        );
        lemma_ends_with(front, tail);
    }
    if let Some(launcher) = mounts.launcher {
        let inner = launcher_args(layout, mounts, program, args);
        let front = setup_args(layout, mounts, descriptor) + mount_all(true, seq![launcher]);
        assert((scrubber_args() + inner).is_suffix_of(front + scrubber_args() + inner)) by {
            lemma_together(front, scrubber_args(), inner);
            lemma_ends_with(front, scrubber_args() + inner);
        }
    }
}

proof fn lemma_together(first: Seq<Seq<u8>>, second: Seq<Seq<u8>>, third: Seq<Seq<u8>>)
    ensures
        first + second + third == first + (second + third),
{
    assert(first + second + third =~= first + (second + third));
}

/// What is put behind something ends the whole.
proof fn lemma_ends_with(front: Seq<Seq<u8>>, tail: Seq<Seq<u8>>)
    ensures
        tail.is_suffix_of(front + tail),
{
    let whole = front + tail;
    assert(whole.subrange(whole.len() - tail.len(), whole.len() as int) =~= tail);
}

/// A read-only mount is always spelled with a read-only option, a writable one
/// never is.
pub proof fn mount_options_follow_the_policy(read_only: bool, list: Seq<Mount>, index: int)
    requires
        0 <= index < list.len(),
    ensures
        mount_all(read_only, list).len() == 3 * list.len(),
        mount_all(read_only, list)[3 * index] == mount_option(read_only, list[index].source),
        mount_all(read_only, list)[3 * index + 2] == list[index].destination,
        read_only <==> mount_all(read_only, list)[3 * index] == os::lit("--ro-bind")
            || mount_all(read_only, list)[3 * index] == os::lit("--ro-bind-fd"),
{
    lemma_mount_each(read_only, list, list.len() as int);
    lemma_mount_options();
}

proof fn lemma_mount_each(read_only: bool, list: Seq<Mount>, count: int)
    requires
        0 <= count <= list.len(),
    ensures
        mount_each(read_only, list, count).len() == 3 * count,
        forall|i: int|
            #![trigger list[i]]
            0 <= i < count ==> mount_each(read_only, list, count)[3 * i] == mount_option(
                read_only,
                list[i].source,
            ) && mount_each(read_only, list, count)[3 * i + 2] == list[i].destination,
    decreases count,
{
    if count > 0 {
        lemma_mount_each(read_only, list, count - 1);
    }
}

proof fn lemma_mount_options()
    ensures
        os::lit("--bind") != os::lit("--ro-bind"),
        os::lit("--bind") != os::lit("--ro-bind-fd"),
        os::lit("--bind-fd") != os::lit("--ro-bind"),
        os::lit("--bind-fd") != os::lit("--ro-bind-fd"),
{
    reveal_strlit("--bind");
    reveal_strlit("--bind-fd");
    reveal_strlit("--ro-bind");
    reveal_strlit("--ro-bind-fd");
    assert("--bind"@[2] == 'b' && "--bind-fd"@[2] == 'b');
    assert("--ro-bind"@[2] == 'r' && "--ro-bind-fd"@[2] == 'r');
    encode_utf8_decode_utf8("--bind"@);
    encode_utf8_decode_utf8("--bind-fd"@);
    encode_utf8_decode_utf8("--ro-bind"@);
    encode_utf8_decode_utf8("--ro-bind-fd"@);
}

} // verus!
