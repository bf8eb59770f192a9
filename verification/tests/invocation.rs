use cargo_cage::args::{help_text, is_help_request, parse_invocation, CargoCommand, CargoInvocation};
use cargo_cage::os::OsText;

fn words(list: &[&str]) -> Vec<OsText> {
    list.iter().map(|word| OsText::new(word)).collect()
}

fn refused(list: &[&str]) -> String {
    parse_invocation(&words(list)).expect_err("the invocation must be refused").to_string()
}

#[test]
fn rejects_cargo_dispatcher_invocation() {
    let error = parse_invocation(&words(&["cage", "build", "--release"]))
        .expect_err("Cargo dispatcher form must be rejected");
    assert!(error.to_string().contains("dispatcher form"));
    assert!(error.to_string().contains("cargo-cage"));
}

#[test]
fn parses_direct_invocation() {
    let invocation = parse_invocation(&words(&["build"])).expect("valid invocation");
    assert_eq!(
        invocation,
        CargoInvocation::Cargo {
            command: CargoCommand::Build,
            args: Vec::new(),
            reuse_target: false,
        }
    );
}

#[test]
fn parses_reuse_target_before_the_cargo_command() {
    let invocation = parse_invocation(&words(&["--reuse-target", "build", "--workspace"]))
        .expect("reuse target invocation");
    assert_eq!(
        invocation,
        CargoInvocation::Cargo {
            command: CargoCommand::Build,
            args: vec![OsText::new("--workspace")],
            reuse_target: true,
        }
    );
}

#[test]
fn keeps_reuse_target_after_the_command_for_cargo_to_reject() {
    let invocation = parse_invocation(&words(&["build", "--reuse-target"]))
        .expect("Cargo arguments remain Cargo arguments");
    assert_eq!(
        invocation,
        CargoInvocation::Cargo {
            command: CargoCommand::Build,
            args: vec![OsText::new("--reuse-target")],
            reuse_target: false,
        }
    );
}

#[test]
fn rejects_reuse_target_without_a_cargo_command() {
    let error =
        parse_invocation(&words(&["--reuse-target"])).expect_err("missing Cargo command");
    assert!(error.to_string().contains("needs a Cargo command"));
}

#[test]
fn rejects_reuse_target_for_doctor() {
    let error =
        parse_invocation(&words(&["--reuse-target", "doctor"])).expect_err("reuse target doctor");
    assert!(error.to_string().contains("only valid with"));
}

#[test]
fn parses_all_supported_commands() {
    for (name, command) in [
        ("build", CargoCommand::Build),
        ("check", CargoCommand::Check),
        ("test", CargoCommand::Test),
        ("doc", CargoCommand::Doc),
    ] {
        let invocation = parse_invocation(&words(&[name])).expect("valid command");
        assert_eq!(
            invocation,
            CargoInvocation::Cargo { command, args: Vec::new(), reuse_target: false }
        );
    }
}

#[test]
fn parses_doctor_options() {
    assert_eq!(
        parse_invocation(&words(&["doctor"])).expect("doctor"),
        CargoInvocation::Doctor { verbose: false }
    );
    assert_eq!(
        parse_invocation(&words(&["doctor", "--verbose"])).expect("verbose doctor"),
        CargoInvocation::Doctor { verbose: true }
    );
}

#[test]
fn rejects_unsupported_command() {
    let error = parse_invocation(&words(&["run"])).expect_err("run is unsupported");
    assert!(error.to_string().contains("supported commands"));
}

#[test]
fn rejects_doctor_options_other_than_verbose() {
    let error = parse_invocation(&words(&["doctor", "--manifest-path", "Cargo.toml"]))
        .expect_err("doctor manifest path is unsupported");
    assert!(error.to_string().contains("only the optional `--verbose`"));
}

#[test]
fn recognizes_direct_help_only() {
    assert!(is_help_request(&words(&["--help"])));
    assert!(!is_help_request(&words(&["cage", "--help"])));
    assert!(!is_help_request(&words(&["cage", "doctor", "--help"])));
    assert!(!is_help_request(&words(&["build"])));
}

#[test]
fn the_help_text_names_every_command() {
    assert!(help_text().contains("<build|check|test|doc>"));
    assert!(help_text().contains("cargo-cage doctor [--verbose]"));
}

#[test]
fn an_unsupported_command_is_quoted() {
    assert!(refused(&["run"]).contains("unsupported command `run`"));
    let odd = parse_invocation(&vec![OsText::from_bytes(&[b'r', 0xff])])
        .expect_err("not a command")
        .to_string();
    assert!(odd.contains("unsupported command `r\u{fffd}`"), "{odd}");
}

#[test]
fn an_empty_command_line_is_refused() {
    assert!(parse_invocation(&Vec::new()).is_err());
}
