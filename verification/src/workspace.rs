//! Finding the workspace, and the environment in which Cargo looks for it.

use crate::backend::{Job, OutputMode, SandboxRequest};
use crate::cargo_args;
use crate::cargo_policy;
use crate::error::{CageError, Fault};
use crate::flow;
use crate::flow::{Answer, Course, FileKind, Flow, Halt, Model, Pause, Query, Question};
use crate::os;
use crate::os::{OsText, PathText};
use crate::path;
use crate::policy;
use crate::policy::{Environment, EnvironmentRules, PolicyRules};
use crate::text;
use crate::text::Compose;
use crate::toolchain;
use crate::toolchain::{Kit, Toolchain};
use crate::walk;
use vstd::prelude::*;
use vstd::string::*;
use vstd::utf8::*;

verus! {

impl Model for Environment {
    type M = EnvironmentRules;

    open spec fn model(&self) -> EnvironmentRules {
        self@
    }
}

/// The canonical current directory.
#[verifier::opaque]
pub open spec fn current_directory(log: Seq<Answer>, at: int) -> Course<Seq<u8>> {
    match flow::place(Query::CurrentDirectory, log, at) {
        Err(pause) => Err(pause),
        Ok((Err(failure), at)) => Err(
            flow::io_pause("could not determine the current directory"@, failure, at),
        ),
        Ok((Ok(directory), at)) => match flow::place(Query::Resolve(directory), log, at) {
            Err(pause) => Err(pause),
            Ok((Err(failure), at)) => Err(
                flow::io_pause("could not canonicalize the current directory"@, failure, at),
            ),
            Ok((Ok(canonical), at)) => Ok((canonical, at)),
        },
    }
}

pub fn canonical_current_dir(log: &Vec<Answer>, at: usize) -> (directory: Flow<PathText>)
    ensures
        flow::course(directory) == current_directory(log@, at as int),
{
    proof {
        reveal(current_directory);
    }
    let (reply, at) = flow::ask_place(Question::CurrentDirectory, log, at)?;
    match reply {
        Err(failure) => Err(
            flow::io_halt("could not determine the current directory", &failure, at),
        ),
        Ok(directory) => {
            let (reply, at) = flow::ask_place(Question::Resolve(directory), log, at)?;
            match reply {
                Err(failure) => Err(
                    flow::io_halt("could not canonicalize the current directory", &failure, at),
                ),
                Ok(canonical) => Ok((canonical, at)),
            }
        },
    }
}

/// The Cargo home that the variables name.
pub open spec fn host_cargo_home(log: Seq<Answer>, at: int) -> Course<Option<Seq<u8>>> {
    match flow::value(Query::Variable(os::lit("CARGO_HOME")), log, at) {
        Err(pause) => Err(pause),
        Ok((Some(chosen), at)) => Ok((Some(chosen), at)),
        Ok((None, at)) => match flow::value(Query::Variable(os::lit("HOME")), log, at) {
            Err(pause) => Err(pause),
            Ok((None, at)) => Ok((None, at)),
            Ok((Some(home), at)) => Ok((Some(path::join(home, os::lit(".cargo"))), at)),
        },
    }
}

pub fn ask_cargo_home(log: &Vec<Answer>, at: usize) -> (home: Flow<Option<PathText>>)
    ensures
        flow::course(home) == host_cargo_home(log@, at as int),
{
    let (chosen, at) = flow::ask_value(Question::Variable(OsText::new("CARGO_HOME")), log, at)?;
    match chosen {
        Some(chosen) => Ok((Some(chosen), at)),
        None => {
            let (home, at) = flow::ask_value(Question::Variable(OsText::new("HOME")), log, at)?;
            match home {
                Some(home) => Ok((Some(home.join_text(".cargo")), at)),
                None => Ok((None, at)),
            }
        },
    }
}

/// Whether a name is a directory and not a symlink.
pub open spec fn is_directory(path: Seq<u8>, log: Seq<Answer>, at: int) -> Course<bool> {
    match flow::entry(Query::Inspect(path), log, at) {
        Err(pause) => Err(pause),
        Ok((Ok(stat), at)) => Ok((stat.kind == FileKind::Directory, at)),
        Ok((Err(_), at)) => Ok((false, at)),
    }
}

fn ask_directory(path: &PathText, log: &Vec<Answer>, at: usize) -> (yes: Flow<bool>)
    ensures
        flow::course(yes) == is_directory(path@, log@, at as int),
{
    let (reply, at) = flow::ask_entry(Question::Inspect(path.clone()), log, at)?;
    match reply {
        Ok(stat) => Ok((stat.is_dir(), at)),
        Err(_) => Ok((false, at)),
    }
}

/// Whether Cargo has a registry or a Git cache.
#[verifier::opaque]
pub open spec fn cache_present(log: Seq<Answer>, at: int) -> Course<bool> {
    match host_cargo_home(log, at) {
        Err(pause) => Err(pause),
        Ok((None, at)) => Ok((false, at)),
        Ok((Some(home), at)) => match is_directory(
            path::join(home, os::lit("registry")),
            log,
            at,
        ) {
            Err(pause) => Err(pause),
            Ok((true, at)) => Ok((true, at)),
            Ok((false, at)) => is_directory(path::join(home, os::lit("git")), log, at),
        },
    }
}

pub fn cargo_cache_present(log: &Vec<Answer>, at: usize) -> (present: Flow<bool>)
    ensures
        flow::course(present) == cache_present(log@, at as int),
{
    proof {
        reveal(cache_present);
    }
    let (home, at) = ask_cargo_home(log, at)?;
    match home {
        None => Ok((false, at)),
        Some(home) => {
            let (registry, at) = ask_directory(&home.join_text("registry"), log, at)?;
            if registry {
                return Ok((true, at));
            }
            ask_directory(&home.join_text("git"), log, at)
        },
    }
}

/// The first `count` variables whose names may be forwarded.
pub open spec fn forwarded(variables: Seq<(Seq<u8>, Seq<u8>)>, count: int) -> Seq<
    (Seq<u8>, Seq<u8>),
>
    decreases count,
{
    if count <= 0 {
        Seq::empty()
    } else if policy::forwarded_name(variables[count - 1].0) {
        forwarded(variables, count - 1).push(variables[count - 1])
    } else {
        forwarded(variables, count - 1)
    }
}

/// The host variables that may be forwarded.
pub fn safe_host_environment(variables: &Vec<(OsText, OsText)>) -> (kept: Vec<(OsText, OsText)>)
    ensures
        os::pairs(kept@) == forwarded(os::pairs(variables@), variables@.len() as int),
{
    let ghost all = os::pairs(variables@);
    let mut kept: Vec<(OsText, OsText)> = Vec::new();
    let mut index: usize = 0;
    assert(os::pairs(kept@) =~= Seq::empty());
    while index < variables.len()
        invariant
            index <= variables.len(),
            all == os::pairs(variables@),
            os::pairs(kept@) == forwarded(all, index as int),
        decreases variables.len() - index,
    {
        assert(all[index as int] == (
            variables[index as int].0@,
            variables[index as int].1@,
        ));
        if policy::is_allowed_host_environment_name(&variables[index].0) {
            os::push_pair(&mut kept, variables[index].0.clone(), variables[index].1.clone());
        }
        index = index + 1;
    }
    kept
}

/// The variables that the toolchain determines.
pub open spec fn toolchain_variables(kit: Kit, current_dir: Seq<u8>) -> Seq<(Seq<u8>, Seq<u8>)> {
    let always = seq![
        (os::lit("HOME"), kit.home),
        (os::lit("PATH"), kit.path),
        (os::lit("PWD"), current_dir),
        (os::lit("RUSTC"), kit.rustc),
    ];
    match kit.rustdoc {
        Some(rustdoc) => always.push((os::lit("RUSTDOC"), rustdoc)),
        None => always,
    }
}

/// The environment of a Cargo process: forwarded host variables, then those of
/// the toolchain, then the overrides.
pub open spec fn cargo_variables(
    kit: Kit,
    current_dir: Seq<u8>,
    variables: Seq<(Seq<u8>, Seq<u8>)>,
    overrides: Seq<(Seq<u8>, Seq<u8>)>,
) -> EnvironmentRules {
    EnvironmentRules {
        inherit: false,
        set: forwarded(variables, variables.len() as int) + toolchain_variables(kit, current_dir)
            + overrides,
        remove: Seq::empty(),
    }
}

#[verifier::opaque]
pub open spec fn environment_for(
    kit: Kit,
    current_dir: Seq<u8>,
    overrides: Seq<(Seq<u8>, Seq<u8>)>,
    log: Seq<Answer>,
    at: int,
) -> Course<EnvironmentRules> {
    match flow::listing(Query::Variables, log, at) {
        Err(pause) => Err(pause),
        Ok((variables, at)) => Ok((cargo_variables(kit, current_dir, variables, overrides), at)),
    }
}

/// The environment of a Cargo process, from a clean start.
pub fn cargo_environment(
    toolchain: &Toolchain,
    current_dir: &PathText,
    overrides: &Vec<(OsText, OsText)>,
    log: &Vec<Answer>,
    at: usize,
) -> (environment: Flow<Environment>)
    ensures
        flow::course(environment) == environment_for(
            toolchain@,
            current_dir@,
            os::pairs(overrides@),
            log@,
            at as int,
        ),
{
    proof {
        reveal(environment_for);
    }
    let (variables, at) = flow::ask_listing(Question::Variables, log, at)?;
    let mut set = safe_host_environment(&variables);
    let ghost host = os::pairs(set@);
    os::push_pair(&mut set, OsText::new("HOME"), toolchain.home.clone());
    os::push_pair(&mut set, OsText::new("PATH"), toolchain.path.clone());
    os::push_pair(&mut set, OsText::new("PWD"), current_dir.clone());
    os::push_pair(&mut set, OsText::new("RUSTC"), toolchain.rustc.clone());
    if let Some(rustdoc) = &toolchain.rustdoc {
        os::push_pair(&mut set, OsText::new("RUSTDOC"), rustdoc.clone());
    }
    assert(os::pairs(set@) =~= host + toolchain_variables(toolchain@, current_dir@));
    let ghost base = os::pairs(set@);
    let mut index: usize = 0;
    assert(os::pairs(set@) =~= base + os::pairs(overrides@).take(0));
    while index < overrides.len()
        invariant
            index <= overrides.len(),
            os::pairs(set@) == base + os::pairs(overrides@).take(index as int),
        decreases overrides.len() - index,
    {
        os::push_pair(&mut set, overrides[index].0.clone(), overrides[index].1.clone());
        assert(os::pairs(overrides@)[index as int] == (
            overrides[index as int].0@,
            overrides[index as int].1@,
        ));
        index = index + 1;
        assert(os::pairs(set@) =~= base + os::pairs(overrides@).take(index as int));
    }
    assert(os::pairs(overrides@).take(index as int) =~= os::pairs(overrides@));
    let environment = Environment { inherit: false, set, remove: Vec::new() };
    assert(os::texts(environment.remove@) =~= Seq::empty());
    Ok((environment, at))
}

/// A Cargo process never receives a variable whose name counts as sensitive, as
/// long as the overrides are variables that the sandbox sets; and it inherits
/// nothing.
pub proof fn cargo_environment_carries_no_secrets(
    kit: Kit,
    current_dir: Seq<u8>,
    variables: Seq<(Seq<u8>, Seq<u8>)>,
    overrides: Seq<(Seq<u8>, Seq<u8>)>,
)
    requires
        forall|i: int| 0 <= i < overrides.len() ==> policy::sandbox_owned_name(
            (#[trigger] overrides[i]).0,
        ),
    ensures
        !cargo_variables(kit, current_dir, variables, overrides).inherit,
        forall|i: int|
            0 <= i < cargo_variables(kit, current_dir, variables, overrides).set.len() ==> {
                let name = (#[trigger] cargo_variables(
                    kit,
                    current_dir,
                    variables,
                    overrides,
                ).set[i]).0;
                &&& policy::forwarded_name(name) || policy::sandbox_owned_name(name)
                &&& !policy::sensitive_name(name)
            },
{
    let host = forwarded(variables, variables.len() as int);
    let own = toolchain_variables(kit, current_dir);
    let all = cargo_variables(kit, current_dir, variables, overrides).set;
    lemma_forwarded_names(variables, variables.len() as int);
    assert forall|i: int| 0 <= i < all.len() implies {
        let name = (#[trigger] all[i]).0;
        &&& policy::forwarded_name(name) || policy::sandbox_owned_name(name)
        &&& !policy::sensitive_name(name)
    } by {
        if i < host.len() {
            assert(all[i] == host[i]);
        } else if i < host.len() + own.len() {
            assert(all[i] == own[i - host.len()]);
            reveal(policy::sandbox_owned_name);
        } else {
            assert(all[i] == overrides[i - host.len() - own.len()]);
        }
        policy::allowed_names_are_not_sensitive(all[i].0);
    }
}

pub proof fn lemma_forwarded_names(variables: Seq<(Seq<u8>, Seq<u8>)>, count: int)
    requires
        0 <= count <= variables.len(),
    ensures
        forall|i: int|
            0 <= i < forwarded(variables, count).len() ==> policy::forwarded_name(
                (#[trigger] forwarded(variables, count)[i]).0,
            ),
    decreases count,
{
    if count > 0 {
        lemma_forwarded_names(variables, count - 1);
        let before = forwarded(variables, count - 1);
        let after = forwarded(variables, count);
        assert forall|i: int| 0 <= i < after.len() implies policy::forwarded_name(
            (#[trigger] after[i]).0,
        ) by {
            if i < before.len() {
                assert(after[i] == before[i]);
            }
        }
    }
}

/// The candidates from `index` on that exist.
pub open spec fn present_from(
    candidates: Seq<Seq<u8>>,
    index: int,
    kept: Seq<Seq<u8>>,
    log: Seq<Answer>,
    at: int,
) -> Course<Seq<Seq<u8>>>
    decreases candidates.len() - index,
{
    if index < 0 || index >= candidates.len() {
        Ok((kept, at))
    } else {
        match flow::entry(Query::Inspect(candidates[index]), log, at) {
            Err(pause) => Err(pause),
            Ok((Ok(_), at)) => present_from(
                candidates,
                index + 1,
                if kept.len() > 0 && path::same_path(kept.last(), candidates[index]) {
                    kept
                } else {
                    kept.push(candidates[index])
                },
                log,
                at,
            ),
            Ok((Err(_), at)) => present_from(candidates, index + 1, kept, log, at),
        }
    }
}

/// The target directories to look for before the workspace is known.
pub open spec fn target_candidates(
    base: Seq<u8>,
    args: Seq<Seq<u8>>,
    current_dir: Seq<u8>,
    log: Seq<Answer>,
    at: int,
) -> Course<Seq<Seq<u8>>> {
    let standard = seq![path::join(base, os::lit("target"))];
    match cargo_args::requested_target(args, current_dir, current_dir, log, at) {
        Err(Pause::Ask(query)) => Err(Pause::Ask(query)),
        Err(Pause::Fail(_, at)) => Ok((standard, at)),
        Ok((target, at)) => if path::within(target, base) {
            Ok((standard.push(target), at))
        } else {
            Ok((standard, at))
        },
    }
}

/// The existing target directories that the discovery of the workspace may
/// write to.
#[verifier::opaque]
pub open spec fn discovery_targets(
    args: Seq<Seq<u8>>,
    current_dir: Seq<u8>,
    log: Seq<Answer>,
    at: int,
) -> Course<Seq<Seq<u8>>> {
    match cargo_args::manifest_directory(args, current_dir, log, at) {
        Err(pause) => Err(pause),
        Ok((directory, at)) => {
            let base = match directory {
                Some(directory) => directory,
                None => current_dir,
            };
            match target_candidates(base, args, current_dir, log, at) {
                Err(pause) => Err(pause),
                Ok((candidates, at)) => present_from(candidates, 0, Seq::empty(), log, at),
            }
        },
    }
}

fn list_target_candidates(
    base: &PathText,
    args: &Vec<OsText>,
    current_dir: &PathText,
    log: &Vec<Answer>,
    at: usize,
) -> (candidates: Flow<Vec<PathText>>)
    ensures
        flow::course(candidates) == target_candidates(
            base@,
            os::texts(args@),
            current_dir@,
            log@,
            at as int,
        ),
{
    let mut candidates: Vec<PathText> = Vec::new();
    os::push_text(&mut candidates, &base.join_text("target"));
    assert(os::texts(candidates@) =~= seq![path::join(base@, os::lit("target"))]);
    match cargo_args::target_dir_arg(args, current_dir, current_dir, log, at) {
        Err(Halt::Ask(question)) => Err(Halt::Ask(question)),
        Err(Halt::Fail(_, at)) => Ok((candidates, at)),
        Ok((target, at)) => {
            if target.starts_with(base) {
                os::push_text(&mut candidates, &target);
            }
            Ok((candidates, at))
        },
    }
}

pub fn discovery_writable_paths(
    args: &Vec<OsText>,
    current_dir: &PathText,
    log: &Vec<Answer>,
    at: usize,
) -> (paths: Flow<Vec<PathText>>)
    ensures
        flow::course(paths) == discovery_targets(
            os::texts(args@),
            current_dir@,
            log@,
            at as int,
        ),
{
    proof {
        reveal(discovery_targets);
    }
    let (directory, at) = cargo_args::manifest_parent_path(args, current_dir, log, at)?;
    let base = match directory {
        Some(directory) => directory,
        None => current_dir.clone(),
    };
    let (candidates, at) = list_target_candidates(&base, args, current_dir, log, at)?;
    keep_present(&candidates, log, at)
}

/// Keeps the candidates that exist, without immediate repetitions.
fn keep_present(candidates: &Vec<PathText>, log: &Vec<Answer>, at: usize) -> (kept: Flow<
    Vec<PathText>,
>)
    ensures
        flow::course(kept) == present_from(
            os::texts(candidates@),
            0,
            Seq::empty(),
            log@,
            at as int,
        ),
{
    let ghost all = os::texts(candidates@);
    let mut kept: Vec<PathText> = Vec::new();
    let mut index: usize = 0;
    let mut used: usize = at;
    assert(os::texts(kept@) =~= Seq::empty());
    while index < candidates.len()
        invariant
            index <= candidates.len(),
            all == os::texts(candidates@),
            present_from(all, 0, Seq::empty(), log@, at as int) == present_from(
                all,
                index as int,
                os::texts(kept@),
                log@,
                used as int,
            ),
        decreases candidates.len() - index,
    {
        assert(all[index as int] == candidates[index as int]@);
        let (reply, next) = flow::ask_entry(
            Question::Inspect(candidates[index].clone()),
            log,
            used,
        )?;
        if reply.is_ok() {
            let ghost before = os::texts(kept@);
            let count = kept.len();
            assert(count > 0 ==> before.last() == kept[count - 1]@);
            let repeated = count > 0 && kept[count - 1].same_path(&candidates[index]);
            if !repeated {
                os::push_text(&mut kept, &candidates[index]);
            }
        }
        used = next;
        index = index + 1;
    }
    Ok((kept, used))
}

/// The workspace that Cargo's answer names: the directory of a regular
/// `Cargo.toml`, reached without symlinks, that contains the requested manifest
/// or else the current directory.
#[verifier::opaque]
pub open spec fn discovered_workspace(
    stdout: Seq<u8>,
    current_dir: Seq<u8>,
    args: Seq<Seq<u8>>,
    log: Seq<Answer>,
    at: int,
) -> Course<Seq<u8>> {
    match toolchain::single_line(stdout) {
        None => Err(
            flow::setup_pause(
                "Cargo workspace discovery"@,
                "locate-project must return exactly one manifest path"@,
                "verify the manifest and rerun cargo-cage from the intended workspace"@,
                "Cargo returned an invalid workspace manifest path"@,
                at,
            ),
        ),
        Some(line) => match walk::existing(
            path::join(current_dir, encode_utf8(line)),
            "workspace manifest"@,
            log,
            at,
        ) {
            Err(pause) => Err(pause),
            Ok((manifest, at)) => match cargo_args::leads_to(manifest, FileKind::File, log, at) {
                Err(pause) => Err(pause),
                Ok((false, at)) => Err(
                    flow::refusal(
                        manifest,
                        "workspace discovery must return a regular Cargo.toml file"@,
                        "run cargo-cage from a workspace with a real Cargo.toml manifest"@,
                        at,
                    ),
                ),
                Ok((true, at)) => if path::file_name(manifest) != Some(os::lit("Cargo.toml")) {
                    Err(
                        flow::refusal(
                            manifest,
                            "workspace discovery must return a Cargo.toml path"@,
                            "run cargo-cage from a Cargo workspace or pass a valid --manifest-path"@,
                            at,
                        ),
                    )
                } else {
                    containing_workspace(path::parent(manifest)->Some_0, current_dir, args, log, at)
                },
            },
        },
    }
}

/// The discovered workspace, if it contains what was asked for.
#[verifier::opaque]
pub open spec fn containing_workspace(
    workspace: Seq<u8>,
    current_dir: Seq<u8>,
    args: Seq<Seq<u8>>,
    log: Seq<Answer>,
    at: int,
) -> Course<Seq<u8>> {
    match cargo_args::requested_manifest(args, current_dir, log, at) {
        Err(pause) => Err(pause),
        Ok((Some(manifest), at)) => if path::within(manifest, workspace) {
            Ok((workspace, at))
        } else {
            Err(
                flow::refusal(
                    workspace,
                    "workspace discovery returned a root that does not contain the requested manifest"@,
                    "use a Cargo workspace or pass a manifest path inside the discovered workspace"@,
                    at,
                ),
            )
        },
        Ok((None, at)) => if path::within(current_dir, workspace) {
            Ok((workspace, at))
        } else {
            Err(
                flow::refusal(
                    workspace,
                    "workspace discovery returned a root that does not contain the current directory"@,
                    "run cargo-cage from the intended workspace or pass an explicit manifest path"@,
                    at,
                ),
            )
        },
    }
}

fn check_containing(
    workspace: PathText,
    current_dir: &PathText,
    args: &Vec<OsText>,
    log: &Vec<Answer>,
    at: usize,
) -> (checked: Flow<PathText>)
    ensures
        flow::course(checked) == containing_workspace(
            workspace@,
            current_dir@,
            os::texts(args@),
            log@,
            at as int,
        ),
{
    proof {
        reveal(containing_workspace);
    }
    let (manifest, at) = cargo_args::resolved_manifest_path(args, current_dir, log, at)?;
    match manifest {
        Some(manifest) => {
            if !manifest.starts_with(&workspace) {
                return Err(
                    flow::refuse(
                        &workspace,
                        "workspace discovery returned a root that does not contain the requested manifest",
                        "use a Cargo workspace or pass a manifest path inside the discovered workspace",
                        at,
                    ),
                );
            }
        },
        None => {
            if !current_dir.starts_with(&workspace) {
                return Err(
                    flow::refuse(
                        &workspace,
                        "workspace discovery returned a root that does not contain the current directory",
                        "run cargo-cage from the intended workspace or pass an explicit manifest path",
                        at,
                    ),
                );
            }
        },
    }
    Ok((workspace, at))
}

pub fn workspace_from_output(
    stdout: &Vec<u8>,
    current_dir: &PathText,
    args: &Vec<OsText>,
    log: &Vec<Answer>,
    at: usize,
) -> (workspace: Flow<PathText>)
    ensures
        flow::course(workspace) == discovered_workspace(
            stdout@,
            current_dir@,
            os::texts(args@),
            log@,
            at as int,
        ),
{
    proof {
        reveal(discovered_workspace);
    }
    let line = match toolchain::single_line_text(stdout) {
        Some(line) => line,
        None => {
            return Err(
                flow::setup_halt(
                    "Cargo workspace discovery",
                    "locate-project must return exactly one manifest path",
                    "verify the manifest and rerun cargo-cage from the intended workspace",
                    "Cargo returned an invalid workspace manifest path",
                    at,
                ),
            );
        },
    };
    let (manifest, at) = walk::canonical_existing_path_without_symlinks(
        &current_dir.join(&OsText::new(line.as_str())),
        "workspace manifest",
        log,
        at,
    )?;
    let (regular, at) = cargo_args::leads_to_kind(&manifest, FileKind::File, log, at)?;
    if !regular {
        return Err(
            flow::refuse(
                &manifest,
                "workspace discovery must return a regular Cargo.toml file",
                "run cargo-cage from a workspace with a real Cargo.toml manifest",
                at,
            ),
        );
    }
    let named = match manifest.file_name() {
        Some(name) => name.is_text("Cargo.toml"),
        None => false,
    };
    if !named {
        return Err(
            flow::refuse(
                &manifest,
                "workspace discovery must return a Cargo.toml path",
                "run cargo-cage from a Cargo workspace or pass a valid --manifest-path",
                at,
            ),
        );
    }
    proof {
        path::lemma_named_has_parent(manifest@);
    }
    match manifest.parent() {
        Some(workspace) => check_containing(workspace, current_dir, args, log, at),
        None => Err(
            flow::refuse(
                &manifest,
                "the workspace manifest must have a parent directory",
                "use a valid Cargo workspace manifest path",
                at,
            ),
        ),
    }
}

/// The arguments of the discovery command.
pub open spec fn locate_args(manifest: Option<Seq<u8>>) -> Seq<Seq<u8>> {
    let always = seq![
        os::lit("locate-project"),
        os::lit("--workspace"),
        os::lit("--message-format"),
        os::lit("plain"),
    ];
    match manifest {
        Some(manifest) => always.push(os::lit("--manifest-path")).push(manifest),
        None => always,
    }
}

fn list_locate_args(manifest: &Option<OsText>) -> (args: Vec<OsText>)
    ensures
        os::texts(args@) == locate_args(manifest.model()),
{
    let mut args: Vec<OsText> = Vec::new();
    os::push_lit(&mut args, "locate-project");
    os::push_lit(&mut args, "--workspace");
    os::push_lit(&mut args, "--message-format");
    os::push_lit(&mut args, "plain");
    assert(os::texts(args@) =~= seq![
        os::lit("locate-project"),
        os::lit("--workspace"),
        os::lit("--message-format"),
        os::lit("plain"),
    ]);
    if let Some(manifest) = manifest {
        os::push_lit(&mut args, "--manifest-path");
        os::push_text(&mut args, manifest);
    }
    args
}

/// The readable paths of the discovery: the current directory, that of the
/// manifest, and the toolchain.
pub open spec fn locate_sources(
    current_dir: Seq<u8>,
    manifest_directory: Option<Seq<u8>>,
    kit: Kit,
) -> Seq<Seq<u8>> {
    match manifest_directory {
        Some(directory) => seq![current_dir, directory] + kit.read_only_paths,
        None => seq![current_dir] + kit.read_only_paths,
    }
}

/// The sandboxed command that finds the workspace.
#[verifier::opaque]
pub open spec fn locate_job(
    kit: Kit,
    current_dir: Seq<u8>,
    args: Seq<Seq<u8>>,
    log: Seq<Answer>,
    at: int,
) -> Course<Job> {
    match cargo_args::manifest_option(args) {
        Err(fault) => Err(Pause::Fail(fault, at)),
        Ok(manifest) => match cargo_policy::built_policy(false, log, at) {
            Err(pause) => Err(pause),
            Ok((rules, at)) => match cargo_args::manifest_directory(args, current_dir, log, at) {
                Err(pause) => Err(pause),
                Ok((directory, at)) => match discovery_targets(args, current_dir, log, at) {
                    Err(pause) => Err(pause),
                    Ok((targets, at)) => match environment_for(
                        kit,
                        current_dir,
                        Seq::empty(),
                        log,
                        at,
                    ) {
                        Err(pause) => Err(pause),
                        Ok((environment, at)) => Ok(
                            (
                                Job {
                                    program: kit.cargo,
                                    args: locate_args(manifest),
                                    current_dir,
                                    environment,
                                    policy: PolicyRules {
                                        read_only_paths: locate_sources(
                                            current_dir,
                                            directory,
                                            kit,
                                        ),
                                        writable_paths: targets,
                                        ..rules
                                    },
                                    output: OutputMode::Capture,
                                },
                                at,
                            ),
                        ),
                    },
                },
            },
        },
    }
}

impl Model for SandboxRequest {
    type M = Job;

    open spec fn model(&self) -> Job {
        self@
    }
}

fn locate_request(
    toolchain: &Toolchain,
    current_dir: &PathText,
    args: &Vec<OsText>,
    log: &Vec<Answer>,
    at: usize,
) -> (request: Flow<SandboxRequest>)
    ensures
        flow::course(request) == locate_job(
            toolchain@,
            current_dir@,
            os::texts(args@),
            log@,
            at as int,
        ),
{
    proof {
        reveal(locate_job);
    }
    let manifest = match cargo_args::manifest_path_arg(args) {
        Ok(manifest) => manifest,
        Err(error) => {
            return Err(Halt::Fail(error, at));
        },
    };
    let (mut rules, at) = cargo_policy::cargo_policy(false, log, at)?;
    let (directory, at) = cargo_args::manifest_parent_path(args, current_dir, log, at)?;
    let (targets, at) = discovery_writable_paths(args, current_dir, log, at)?;
    let overrides: Vec<(OsText, OsText)> = Vec::new();
    assert(os::pairs(overrides@) =~= Seq::empty());
    let (environment, at) = cargo_environment(toolchain, current_dir, &overrides, log, at)?;
    let mut sources: Vec<PathText> = Vec::new();
    os::push_text(&mut sources, current_dir);
    if let Some(directory) = &directory {
        os::push_text(&mut sources, directory);
    }
    os::push_texts(&mut sources, &toolchain.read_only_paths);
    assert(os::texts(sources@) =~= locate_sources(
        current_dir@,
        directory.model(),
        toolchain@,
    ));
    rules.read_only_paths = sources;
    rules.writable_paths = targets;
    let request = SandboxRequest {
        program: toolchain.cargo.clone(),
        args: list_locate_args(&manifest),
        current_dir: current_dir.clone(),
        environment,
        policy: rules,
        output: OutputMode::Capture,
    };
    Ok((request, at))
}

/// The workspace that Cargo reports from inside the sandbox.
#[verifier::opaque]
pub open spec fn located_workspace(
    kit: Kit,
    current_dir: Seq<u8>,
    args: Seq<Seq<u8>>,
    log: Seq<Answer>,
    at: int,
) -> Course<Seq<u8>> {
    match locate_job(kit, current_dir, args, log, at) {
        Err(pause) => Err(pause),
        Ok((job, at)) => match flow::sandboxed(Query::RunSandbox(job), log, at) {
            Err(pause) => Err(pause),
            Ok((said, at)) => if said.status.code != Some(0i32) {
                Err(
                    Pause::Fail(
                        Fault::ProcessFailed {
                            status: said.status,
                            detail: "Cargo workspace discovery failed"@ + toolchain::detail(
                                said.stderr,
                            ),
                        },
                        at,
                    ),
                )
            } else {
                discovered_workspace(said.stdout, current_dir, args, log, at)
            },
        },
    }
}

pub fn locate_workspace(
    toolchain: &Toolchain,
    current_dir: &PathText,
    args: &Vec<OsText>,
    log: &Vec<Answer>,
    at: usize,
) -> (workspace: Flow<PathText>)
    ensures
        flow::course(workspace) == located_workspace(
            toolchain@,
            current_dir@,
            os::texts(args@),
            log@,
            at as int,
        ),
{
    proof {
        reveal(located_workspace);
    }
    let (request, at) = locate_request(toolchain, current_dir, args, log, at)?;
    let (outcome, at) = flow::ask_sandbox(Question::RunSandbox(request), log, at)?;
    if !outcome.status.successfully_exited() {
        let detail = text::owned("Cargo workspace discovery failed").with(
            toolchain::output_detail(&outcome.stderr).as_str(),
        );
        return Err(
            Halt::Fail(CageError::ProcessFailed { status: outcome.status, detail }, at),
        );
    }
    workspace_from_output(&outcome.stdout, current_dir, args, log, at)
}

} // verus!
