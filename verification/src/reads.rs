//! Which flows leave the filesystem alone.

use crate::cargo_args;
use crate::cargo_policy;
use crate::doctor;
use crate::doctor::{Notes, Probe};
use crate::flow::{Answer, Course, Pause};
use crate::path;
use crate::target;
use crate::toolchain;
use crate::toolchain::{Admission, Kit};
use crate::walk;
use crate::workspace;
use vstd::prelude::*;

verus! {

/// Whether the next question, if there is one, changes no files by itself.
pub open spec fn only_reads<M>(course: Course<M>) -> bool {
    course matches Err(Pause::Ask(query)) ==> !query.changes_files()
}

proof fn existing_from_reads(
    path: Seq<u8>,
    label: Seq<char>,
    index: int,
    log: Seq<Answer>,
    at: int,
)
    ensures
        only_reads(walk::existing_from(path, label, index, log, at)),
    decreases path::parts(path).len() - index,
{
    if 0 <= index < path::parts(path).len() {
        existing_from_reads(path, label, index + 1, log, at + 1);
    }
}

proof fn existing_reads()
    ensures
        forall|path: Seq<u8>, label: Seq<char>, log: Seq<Answer>, at: int|
            only_reads(#[trigger] walk::existing(path, label, log, at)),
{
    assert forall|path: Seq<u8>, label: Seq<char>, log: Seq<Answer>, at: int| only_reads(
        #[trigger] walk::existing(path, label, log, at),
    ) by {
        reveal(walk::existing);
        existing_from_reads(path, label, 0, log, at);
    }
}

proof fn executable_reads()
    ensures
        forall|file: Seq<u8>, log: Seq<Answer>, at: int|
            only_reads(#[trigger] toolchain::executable(file, log, at)),
{
}

proof fn searched_from_reads(
    directories: Seq<Seq<u8>>,
    index: int,
    program: Seq<u8>,
    current_dir: Seq<u8>,
    otherwise: Seq<char>,
    log: Seq<Answer>,
    at: int,
)
    ensures
        only_reads(
            toolchain::searched_from(
                directories,
                index,
                program,
                current_dir,
                otherwise,
                log,
                at,
            ),
        ),
    decreases directories.len() - index,
{
    executable_reads();
    if 0 <= index < directories.len() {
        searched_from_reads(
            directories,
            index + 1,
            program,
            current_dir,
            otherwise,
            log,
            at + 1,
        );
    }
}

proof fn program_reads()
    ensures
        forall|name: &str, variable: &str, current_dir: Seq<u8>, log: Seq<Answer>, at: int|
            only_reads(#[trigger] toolchain::program(name, variable, current_dir, log, at)),
{
    executable_reads();
    assert forall|name: &str, variable: &str, current_dir: Seq<u8>, log: Seq<Answer>, at: int|
        only_reads(#[trigger] toolchain::program(name, variable, current_dir, log, at)) by {
        reveal(toolchain::program);
        assert forall|
            directories: Seq<Seq<u8>>,
            program: Seq<u8>,
            current_dir: Seq<u8>,
            otherwise: Seq<char>,
            log: Seq<Answer>,
            at: int,
        | only_reads(
            #[trigger] toolchain::searched_from(
                directories,
                0,
                program,
                current_dir,
                otherwise,
                log,
                at,
            ),
        ) by {
            searched_from_reads(directories, 0, program, current_dir, otherwise, log, at);
        }
    }
}

proof fn homes_read()
    ensures
        forall|log: Seq<Answer>, at: int| only_reads(#[trigger] toolchain::user_home(log, at)),
        forall|home: Seq<u8>, log: Seq<Answer>, at: int|
            only_reads(#[trigger] toolchain::rustup_home(home, log, at)),
{
    existing_reads();
    assert forall|log: Seq<Answer>, at: int| only_reads(
        #[trigger] toolchain::user_home(log, at),
    ) by {
        reveal(toolchain::user_home);
    }
    assert forall|home: Seq<u8>, log: Seq<Answer>, at: int| only_reads(
        #[trigger] toolchain::rustup_home(home, log, at),
    ) by {
        reveal(toolchain::rustup_home);
    }
}

proof fn selected_program_reads()
    ensures
        forall|
            name: &str,
            fallback: Seq<u8>,
            sysroot_bin: Seq<u8>,
            required: bool,
            log: Seq<Answer>,
            at: int,
        |
            only_reads(
                #[trigger] toolchain::selected_program(
                    name,
                    fallback,
                    sysroot_bin,
                    required,
                    log,
                    at,
                ),
            ),
{
    executable_reads();
    assert forall|
        name: &str,
        fallback: Seq<u8>,
        sysroot_bin: Seq<u8>,
        required: bool,
        log: Seq<Answer>,
        at: int,
    | only_reads(
        #[trigger] toolchain::selected_program(name, fallback, sysroot_bin, required, log, at),
    ) by {
        reveal(toolchain::selected_program);
    }
}

proof fn compilers_read()
    ensures
        forall|
            host_rustc: Seq<u8>,
            home: Seq<u8>,
            current_dir: Seq<u8>,
            log: Seq<Answer>,
            at: int,
        |
            only_reads(#[trigger] toolchain::real_rustc(host_rustc, home, current_dir, log, at)),
        forall|
            rustc: Seq<u8>,
            home: Seq<u8>,
            current_dir: Seq<u8>,
            log: Seq<Answer>,
            at: int,
        |
            only_reads(#[trigger] toolchain::sysroot_of(rustc, home, current_dir, log, at)),
{
    existing_reads();
    homes_read();
    assert forall|
        host_rustc: Seq<u8>,
        home: Seq<u8>,
        current_dir: Seq<u8>,
        log: Seq<Answer>,
        at: int,
    | only_reads(#[trigger] toolchain::real_rustc(host_rustc, home, current_dir, log, at)) by {
        reveal(toolchain::real_rustc);
    }
    assert forall|
        rustc: Seq<u8>,
        home: Seq<u8>,
        current_dir: Seq<u8>,
        log: Seq<Answer>,
        at: int,
    | only_reads(#[trigger] toolchain::sysroot_of(rustc, home, current_dir, log, at)) by {
        reveal(toolchain::sysroot_of);
    }
}

proof fn mounts_from_reads(
    executables: Seq<Seq<u8>>,
    index: int,
    mounts: Seq<Seq<u8>>,
    log: Seq<Answer>,
    at: int,
)
    ensures
        only_reads(toolchain::mounts_from(executables, index, mounts, log, at)),
    decreases executables.len() - index,
{
    if 0 <= index < executables.len() {
        if let Some(above) = path::parent(executables[index]) {
            if let Ok((directory, _)) = walk::resolved(
                above,
                "could not canonicalize toolchain directory "@,
                log,
                at,
            ) {
                mounts_from_reads(executables, index + 1, mounts.push(directory), log, at + 2);
                mounts_from_reads(executables, index + 1, mounts, log, at + 2);
            }
        }
    }
}

proof fn required_from_reads(
    executables: Seq<Seq<u8>>,
    index: int,
    current_dir: Seq<u8>,
    found: Seq<Seq<u8>>,
    log: Seq<Answer>,
    at: int,
)
    ensures
        only_reads(
            toolchain::required_from(executables, index, current_dir, found, log, at),
        ),
    decreases executables.len() - index,
{
    if 0 <= index < executables.len() {
        required_from_reads(executables, index + 1, current_dir, found, log, at);
        required_from_reads(executables, index + 1, current_dir, found, log, at + 1);
        if let Some(above) = path::parent(executables[index]) {
            if let Ok((Ok(directory), _)) = crate::flow::place(
                crate::flow::Query::Resolve(path::join(current_dir, above)),
                log,
                at,
            ) {
                required_from_reads(
                    executables,
                    index + 1,
                    current_dir,
                    found.push(directory),
                    log,
                    at + 1,
                );
            }
        }
    }
}

proof fn admitted_from_reads(
    candidates: Seq<Seq<u8>>,
    index: int,
    admission: Admission,
    list: Seq<Seq<u8>>,
    log: Seq<Answer>,
    at: int,
)
    ensures
        only_reads(
            toolchain::admitted_from(candidates, index, admission, list, log, at),
        ),
    decreases candidates.len() - index,
{
    if 0 <= index < candidates.len() {
        admitted_from_reads(candidates, index + 1, admission, list, log, at + 1);
        admitted_from_reads(candidates, index + 1, admission, list, log, at + 2);
        if let Ok((Ok(directory), _)) = crate::flow::place(
            crate::flow::Query::Resolve(candidates[index]),
            log,
            at,
        ) {
            admitted_from_reads(
                candidates,
                index + 1,
                admission,
                list.push(directory),
                log,
                at + 2,
            );
        }
    }
}

proof fn assembled_reads()
    ensures
        forall|
            cargo: Seq<u8>,
            rustc: Seq<u8>,
            rustdoc: Option<Seq<u8>>,
            sysroot: Seq<u8>,
            home: Seq<u8>,
            current_dir: Seq<u8>,
            log: Seq<Answer>,
            at: int,
        |
            only_reads(
                #[trigger] toolchain::assembled(
                    cargo,
                    rustc,
                    rustdoc,
                    sysroot,
                    home,
                    current_dir,
                    log,
                    at,
                ),
            ),
{
    assert forall|
        home: Seq<u8>,
        current_dir: Seq<u8>,
        programs: Seq<Seq<u8>>,
        log: Seq<Answer>,
        at: int,
    | only_reads(#[trigger] toolchain::safe_path(home, current_dir, programs, log, at)) by {
        reveal(toolchain::safe_path);
        required_from_reads(programs, 0, current_dir, Seq::empty(), log, at);
        assert forall|
            candidates: Seq<Seq<u8>>,
            admission: Admission,
            list: Seq<Seq<u8>>,
            at: int,
        | only_reads(
            #[trigger] toolchain::admitted_from(candidates, 0, admission, list, log, at),
        ) by {
            admitted_from_reads(candidates, 0, admission, list, log, at);
        }
    }
    assert forall|sysroot: Seq<u8>, programs: Seq<Seq<u8>>, log: Seq<Answer>, at: int| only_reads(
        #[trigger] toolchain::mount_paths(sysroot, programs, log, at),
    ) by {
        reveal(toolchain::mount_paths);
        mounts_from_reads(programs, 0, Seq::empty(), log, at);
        mounts_from_reads(programs, 0, seq![sysroot], log, at);
    }
    assert forall|
        cargo: Seq<u8>,
        rustc: Seq<u8>,
        rustdoc: Option<Seq<u8>>,
        sysroot: Seq<u8>,
        home: Seq<u8>,
        current_dir: Seq<u8>,
        log: Seq<Answer>,
        at: int,
    | only_reads(
        #[trigger] toolchain::assembled(
            cargo,
            rustc,
            rustdoc,
            sysroot,
            home,
            current_dir,
            log,
            at,
        ),
    ) by {
        reveal(toolchain::assembled);
    }
}

/// Finding the toolchain changes no files.
pub proof fn toolchain_search_reads()
    ensures
        forall|
            cargo: Seq<u8>,
            current_dir: Seq<u8>,
            require_rustdoc: bool,
            log: Seq<Answer>,
            at: int,
        |
            only_reads(
                #[trigger] toolchain::toolchain_for(
                    cargo,
                    current_dir,
                    require_rustdoc,
                    log,
                    at,
                ),
            ),
{
    homes_read();
    program_reads();
    compilers_read();
    selected_program_reads();
    assembled_reads();
    assert forall|
        sysroot_bin: Seq<u8>,
        current_dir: Seq<u8>,
        needed: bool,
        log: Seq<Answer>,
        at: int,
    | only_reads(#[trigger] toolchain::rustdoc_of(sysroot_bin, current_dir, needed, log, at)) by {
        reveal(toolchain::rustdoc_of);
    }
    assert forall|cargo: Seq<u8>, sysroot_bin: Seq<u8>, log: Seq<Answer>, at: int| only_reads(
        #[trigger] toolchain::cargo_of(cargo, sysroot_bin, log, at),
    ) by {
        reveal(toolchain::cargo_of);
    }
    assert forall|
        cargo: Seq<u8>,
        current_dir: Seq<u8>,
        require_rustdoc: bool,
        log: Seq<Answer>,
        at: int,
    | only_reads(
        #[trigger] toolchain::toolchain_for(cargo, current_dir, require_rustdoc, log, at),
    ) by {
        reveal(toolchain::toolchain_for);
    }
}

proof fn arguments_read()
    ensures
        forall|
            args: Seq<Seq<u8>>,
            current_dir: Seq<u8>,
            workspace: Seq<u8>,
            log: Seq<Answer>,
            at: int,
        |
            only_reads(
                #[trigger] cargo_args::requested_target(args, current_dir, workspace, log, at),
            ),
        forall|args: Seq<Seq<u8>>, current_dir: Seq<u8>, log: Seq<Answer>, at: int|
            only_reads(#[trigger] cargo_args::requested_manifest(args, current_dir, log, at)),
        forall|args: Seq<Seq<u8>>, current_dir: Seq<u8>, log: Seq<Answer>, at: int|
            only_reads(#[trigger] cargo_args::manifest_directory(args, current_dir, log, at)),
{
    existing_reads();
    assert forall|
        args: Seq<Seq<u8>>,
        current_dir: Seq<u8>,
        workspace: Seq<u8>,
        log: Seq<Answer>,
        at: int,
    | only_reads(#[trigger] cargo_args::requested_target(args, current_dir, workspace, log, at)) by {
        reveal(cargo_args::requested_target);
    }
    assert forall|args: Seq<Seq<u8>>, current_dir: Seq<u8>, log: Seq<Answer>, at: int| only_reads(
        #[trigger] cargo_args::requested_manifest(args, current_dir, log, at),
    ) by {
        reveal(cargo_args::requested_manifest);
    }
    assert forall|args: Seq<Seq<u8>>, current_dir: Seq<u8>, log: Seq<Answer>, at: int| only_reads(
        #[trigger] cargo_args::manifest_directory(args, current_dir, log, at),
    ) by {
        reveal(cargo_args::manifest_directory);
    }
}

proof fn policy_reads()
    ensures
        forall|main_build: bool, log: Seq<Answer>, at: int|
            only_reads(#[trigger] cargo_policy::built_policy(main_build, log, at)),
{
    assert forall|main_build: bool, log: Seq<Answer>, at: int| only_reads(
        #[trigger] cargo_policy::built_policy(main_build, log, at),
    ) by {
        reveal(cargo_policy::built_policy);
    }
}

proof fn present_from_reads(
    candidates: Seq<Seq<u8>>,
    index: int,
    kept: Seq<Seq<u8>>,
    log: Seq<Answer>,
    at: int,
)
    ensures
        only_reads(workspace::present_from(candidates, index, kept, log, at)),
    decreases candidates.len() - index,
{
    if 0 <= index < candidates.len() {
        present_from_reads(candidates, index + 1, kept, log, at + 1);
        present_from_reads(candidates, index + 1, kept.push(candidates[index]), log, at + 1);
    }
}

/// Finding the workspace changes no files by itself; what the sandboxed command
/// may write is bounded by its policy.
pub proof fn workspace_search_reads()
    ensures
        forall|kit: Kit, current_dir: Seq<u8>, args: Seq<Seq<u8>>, log: Seq<Answer>, at: int|
            only_reads(#[trigger] workspace::located_workspace(kit, current_dir, args, log, at)),
{
    existing_reads();
    arguments_read();
    policy_reads();
    assert forall|args: Seq<Seq<u8>>, current_dir: Seq<u8>, log: Seq<Answer>, at: int| only_reads(
        #[trigger] workspace::discovery_targets(args, current_dir, log, at),
    ) by {
        reveal(workspace::discovery_targets);
        assert forall|candidates: Seq<Seq<u8>>, at: int| only_reads(
            #[trigger] workspace::present_from(candidates, 0, Seq::empty(), log, at),
        ) by {
            present_from_reads(candidates, 0, Seq::empty(), log, at);
        }
    }
    assert forall|
        workspace: Seq<u8>,
        current_dir: Seq<u8>,
        args: Seq<Seq<u8>>,
        log: Seq<Answer>,
        at: int,
    | only_reads(
        #[trigger] workspace::containing_workspace(workspace, current_dir, args, log, at),
    ) by {
        reveal(workspace::containing_workspace);
    }
    assert forall|
        stdout: Seq<u8>,
        current_dir: Seq<u8>,
        args: Seq<Seq<u8>>,
        log: Seq<Answer>,
        at: int,
    | only_reads(
        #[trigger] workspace::discovered_workspace(stdout, current_dir, args, log, at),
    ) by {
        reveal(workspace::discovered_workspace);
    }
    assert forall|kit: Kit, current_dir: Seq<u8>, args: Seq<Seq<u8>>, log: Seq<Answer>, at: int|
        only_reads(#[trigger] workspace::locate_job(kit, current_dir, args, log, at)) by {
        reveal(workspace::locate_job);
        reveal(workspace::environment_for);
    }
    assert forall|kit: Kit, current_dir: Seq<u8>, args: Seq<Seq<u8>>, log: Seq<Answer>, at: int|
        only_reads(#[trigger] workspace::located_workspace(kit, current_dir, args, log, at)) by {
        reveal(workspace::located_workspace);
    }
}

proof fn checks_read()
    ensures
        forall|
            notes: Notes,
            current_dir: Seq<u8>,
            workspace: Seq<u8>,
            kit: Kit,
            verbose: bool,
            log: Seq<Answer>,
            at: int,
        |
            only_reads(
                #[trigger] doctor::checked_workspace(
                    notes,
                    current_dir,
                    workspace,
                    kit,
                    verbose,
                    log,
                    at,
                ),
            ),
{
    arguments_read();
    policy_reads();
    assert forall|wanted: Seq<u8>, workspace: Seq<u8>, log: Seq<Answer>, at: int| only_reads(
        #[trigger] target::validated_target(wanted, workspace, log, at),
    ) by {
        target::validation_changes_nothing(wanted, workspace, log, at);
    }
    assert forall|
        notes: Notes,
        current_dir: Seq<u8>,
        workspace: Seq<u8>,
        log: Seq<Answer>,
        at: int,
    | only_reads(#[trigger] doctor::checked_target(notes, current_dir, workspace, log, at)) by {
        reveal(doctor::checked_target);
    }
    assert forall|
        notes: Notes,
        found: Option<Seq<u8>>,
        workspace: Seq<u8>,
        log: Seq<Answer>,
        at: int,
    | only_reads(#[trigger] doctor::checked_build_dir(notes, found, workspace, log, at)) by {
        reveal(doctor::checked_build_dir);
    }
    assert forall|notes: Notes, workspace: Seq<u8>, log: Seq<Answer>, at: int| only_reads(
        #[trigger] doctor::checked_lockfile(notes, workspace, log, at),
    ) by {
        reveal(doctor::checked_lockfile);
        reveal(target::inspected_lockfile);
    }
    assert forall|notes: Notes, log: Seq<Answer>, at: int| only_reads(
        #[trigger] doctor::checked_cache(notes, log, at),
    ) by {
        reveal(doctor::checked_cache);
        reveal(workspace::cache_present);
    }
    assert forall|notes: Notes, probe: Probe, log: Seq<Answer>, at: int| only_reads(
        #[trigger] doctor::checked_sandbox(notes, probe, log, at),
    ) by {
        reveal(doctor::checked_sandbox);
        reveal(workspace::environment_for);
    }
    assert forall|
        notes: Notes,
        current_dir: Seq<u8>,
        workspace: Seq<u8>,
        kit: Kit,
        verbose: bool,
        log: Seq<Answer>,
        at: int,
    | only_reads(
        #[trigger] doctor::checked_workspace(
            notes,
            current_dir,
            workspace,
            kit,
            verbose,
            log,
            at,
        ),
    ) by {
        reveal(doctor::checked_workspace);
    }
}

/// The doctor never asks for a file or a directory to be created, written or
/// removed.
pub proof fn doctor_changes_nothing(verbose: bool, log: Seq<Answer>, at: int)
    ensures
        only_reads(doctor::examination(verbose, log, at)),
{
    program_reads();
    toolchain_search_reads();
    workspace_search_reads();
    checks_read();
    reveal(doctor::examination);
    reveal(doctor::examined_toolchain);
    reveal(doctor::examined_workspace);
    reveal(workspace::current_directory);
}

/// Once every question has been answered, the doctor's exit code is zero
/// exactly when no check has failed.
pub proof fn doctor_code_tells_failures(notes: Notes, verbose: bool)
    ensures
        doctor::conclusion(notes, verbose).code == 0 <==> !notes.failed,
{
}

} // verus!
