//! The command line of `cargo-cage`.

use crate::error;
use crate::error::{CageError, CageResult, Fault};
use crate::os;
use crate::os::OsText;
use crate::text;
use crate::text::Compose;
use vstd::prelude::*;
use vstd::string::*;

verus! {

#[derive(Debug, PartialEq, Eq)]
pub enum CargoInvocation {
    Help,
    Cargo { command: CargoCommand, args: Vec<OsText>, reuse_target: bool },
    Doctor { verbose: bool },
}

#[derive(Clone, Copy, Debug, PartialEq, Eq, Structural)]
pub enum CargoCommand {
    Build,
    Check,
    Test,
    Doc,
}

/// What a `CargoInvocation` asks for.
pub enum Invocation {
    Help,
    Cargo { command: CargoCommand, args: Seq<Seq<u8>>, reuse_target: bool },
    Doctor { verbose: bool },
}

impl View for CargoInvocation {
    type V = Invocation;

    open spec fn view(&self) -> Invocation {
        match self {
            CargoInvocation::Help => Invocation::Help,
            CargoInvocation::Cargo { command, args, reuse_target } => Invocation::Cargo {
                command: *command,
                args: os::texts(args@),
                reuse_target: *reuse_target,
            },
            CargoInvocation::Doctor { verbose } => Invocation::Doctor { verbose: *verbose },
        }
    }
}

impl CargoCommand {
    pub open spec fn name(self) -> Seq<char> {
        match self {
            CargoCommand::Build => "build"@,
            CargoCommand::Check => "check"@,
            CargoCommand::Test => "test"@,
            CargoCommand::Doc => "doc"@,
        }
    }

    pub fn as_str(self) -> (name: &'static str)
        ensures
            name@ == self.name(),
    {
        match self {
            CargoCommand::Build => "build",
            CargoCommand::Check => "check",
            CargoCommand::Test => "test",
            CargoCommand::Doc => "doc",
        }
    }
}

/// The Cargo command that an argument names.
pub open spec fn command_named(arg: Seq<u8>) -> Option<CargoCommand> {
    if arg == os::lit("build") {
        Some(CargoCommand::Build)
    } else if arg == os::lit("check") {
        Some(CargoCommand::Check)
    } else if arg == os::lit("test") {
        Some(CargoCommand::Test)
    } else if arg == os::lit("doc") {
        Some(CargoCommand::Doc)
    } else {
        None
    }
}

pub open spec fn is_help_flag(arg: Seq<u8>) -> bool {
    arg == os::lit("--help") || arg == os::lit("-h")
}

pub open spec fn is_verbose_flag(arg: Seq<u8>) -> bool {
    arg == os::lit("--verbose") || arg == os::lit("-v")
}

/// The options of `doctor`.
pub open spec fn doctor_invocation(options: Seq<Seq<u8>>) -> Result<Invocation, Fault> {
    if options.len() == 0 {
        Ok(Invocation::Doctor { verbose: false })
    } else if options.len() == 1 && is_verbose_flag(options[0]) {
        Ok(Invocation::Doctor { verbose: true })
    } else if options.len() == 1 && is_help_flag(options[0]) {
        Ok(Invocation::Help)
    } else {
        Err(Fault::InvalidInvocation("`doctor` accepts only the optional `--verbose` flag"@))
    }
}

/// The command line after an optional leading `--reuse-target`.
pub open spec fn command_invocation(args: Seq<Seq<u8>>, reuse_target: bool) -> Result<
    Invocation,
    Fault,
> {
    if args.len() == 0 {
        Err(
            Fault::InvalidInvocation(
                if reuse_target {
                    "`--reuse-target` needs a Cargo command"@
                } else {
                    "expected `cargo-cage [--reuse-target] <build|check|test|doc|doctor> [OPTIONS]`"@
                },
            ),
        )
    } else if is_help_flag(args[0]) {
        Ok(Invocation::Help)
    } else if args[0] == os::lit("doctor") {
        if reuse_target {
            Err(
                Fault::InvalidInvocation(
                    "`--reuse-target` is only valid with build, check, test, or doc"@,
                ),
            )
        } else {
            doctor_invocation(args.skip(1))
        }
    } else {
        match command_named(args[0]) {
            Some(command) => Ok(
                Invocation::Cargo { command, args: args.skip(1), reuse_target },
            ),
            None => Err(
                Fault::InvalidInvocation(
                    "unsupported command `"@ + os::lossy_text(args[0])
                        + "`; supported commands are `build`, `check`, `test`, `doc`, and `doctor`"@,
                ),
            ),
        }
    }
}

/// What a whole command line asks for.
pub open spec fn invocation(args: Seq<Seq<u8>>) -> Result<Invocation, Fault> {
    if args.len() > 0 && args[0] == os::lit("cage") {
        Err(
            Fault::InvalidInvocation(
                "the `cargo cage` dispatcher form is not supported because Cargo aliases can bypass this sandbox; invoke `cargo-cage` directly"@,
            ),
        )
    } else if args.len() > 0 && args[0] == os::lit("--reuse-target") {
        command_invocation(args.skip(1), true)
    } else {
        command_invocation(args, false)
    }
}

fn copy_from(args: &Vec<OsText>, start: usize) -> (rest: Vec<OsText>)
    requires
        start <= args.len(),
    ensures
        os::texts(rest@) == os::texts(args@).skip(start as int),
{
    let mut rest: Vec<OsText> = Vec::new();
    let mut index: usize = start;
    while index < args.len()
        invariant
            start <= index <= args.len(),
            os::texts(rest@) == os::texts(args@).subrange(start as int, index as int),
        decreases args.len() - index,
    {
        os::push_text(&mut rest, &args[index]);
        index = index + 1;
        assert(os::texts(rest@) =~= os::texts(args@).subrange(start as int, index as int));
    }
    assert(os::texts(args@).subrange(start as int, index as int) =~= os::texts(args@).skip(
        start as int,
    ));
    rest
}

/// Reads the command line, without the program name.
pub fn parse_invocation(args: &Vec<OsText>) -> (parsed: CageResult<CargoInvocation>)
    ensures
        error::outcome(parsed) == invocation(os::texts(args@)),
{
    let ghost all = os::texts(args@);
    let count = args.len();
    assert(all.len() == count);
    assert(count > 0 ==> all[0] == args[0]@);
    if count > 0 && args[0].is_text("cage") {
        return Err(
            CageError::invalid(
                "the `cargo cage` dispatcher form is not supported because Cargo aliases can bypass this sandbox; invoke `cargo-cage` directly",
            ),
        );
    }
    let reuse_target = count > 0 && args[0].is_text("--reuse-target");
    let start: usize = if reuse_target { 1 } else { 0 };
    let ghost rest = all.skip(start as int);
    assert(!reuse_target ==> rest =~= all);
    assert(invocation(all) == command_invocation(rest, reuse_target));
    if start >= count {
        return Err(
            CageError::invalid(
                if reuse_target {
                    "`--reuse-target` needs a Cargo command"
                } else {
                    "expected `cargo-cage [--reuse-target] <build|check|test|doc|doctor> [OPTIONS]`"
                },
            ),
        );
    }
    assert(rest[0] == args[start as int]@);
    let command = &args[start];
    if command.is_text("--help") || command.is_text("-h") {
        return Ok(CargoInvocation::Help);
    }
    if command.is_text("doctor") {
        if reuse_target {
            return Err(
                CageError::invalid("`--reuse-target` is only valid with build, check, test, or doc"),
            );
        }
        let ghost options = rest.skip(1);
        assert(options.len() == count - 1);
        if count == 1 {
            return Ok(CargoInvocation::Doctor { verbose: false });
        }
        assert(options[0] == args[1]@);
        if count == 2 {
            let option = &args[1];
            if option.is_text("--verbose") || option.is_text("-v") {
                return Ok(CargoInvocation::Doctor { verbose: true });
            }
            if option.is_text("--help") || option.is_text("-h") {
                return Ok(CargoInvocation::Help);
            }
        }
        return Err(CageError::invalid("`doctor` accepts only the optional `--verbose` flag"));
    }
    let known = if command.is_text("build") {
        CargoCommand::Build
    } else if command.is_text("check") {
        CargoCommand::Check
    } else if command.is_text("test") {
        CargoCommand::Test
    } else if command.is_text("doc") {
        CargoCommand::Doc
    } else {
        let message = text::owned("unsupported command `").with(command.display().as_str()).with(
            "`; supported commands are `build`, `check`, `test`, `doc`, and `doctor`",
        );
        return Err(CageError::InvalidInvocation(message));
    };
    let options = copy_from(args, start + 1);
    assert(os::texts(options@) =~= rest.skip(1));
    Ok(CargoInvocation::Cargo { command: known, args: options, reuse_target })
}

/// Whether the command line only asks for the help text.
pub fn is_help_request(args: &Vec<OsText>) -> (help: bool)
    ensures
        help == (invocation(os::texts(args@)) == Ok::<Invocation, Fault>(Invocation::Help)),
{
    match parse_invocation(args) {
        Ok(CargoInvocation::Help) => true,
        _ => false,
    }
}

/// The usage of `cargo-cage`.
pub fn help_text() -> (help: &'static str)
    ensures
        help@ == HELP_TEXT@,
{
    HELP_TEXT
}

pub const HELP_TEXT: &'static str = "cargo-cage v0.1.0-alpha.1\n\nUSAGE:\n    cargo-cage [--reuse-target] <build|check|test|doc> [CARGO_OPTIONS...]\n    cargo-cage doctor [--verbose]\n\nCargo runs in an experimental Linux sandbox. Network access is denied,\nHOME is private, the child environment uses a fixed allowlist, and persistent\nwrites are limited to an isolated target run and Cargo.lock. Dependencies must\nbe available locally; use `cargo fetch` separately before running offline.\n\nThe direct `cargo-cage` executable is required for the security boundary.\nThe `cargo cage` dispatcher form is intentionally unsupported because Cargo\nconfiguration aliases can bypass external subcommands.\n\nEach command gets a fresh target run by default. Use `--reuse-target` only\nfor a trusted workspace when you explicitly need Cargo's existing target tree.\n\n`doctor` checks Bubblewrap, namespaces, workspace paths, toolchain paths, and\nCargo caches without modifying the project.\n";

} // verus!
