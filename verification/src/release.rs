//! The local check: the release workflow's rules and the steps that every
//! change has to pass.

use crate::flow;
use crate::flow::{
    Answer, Course, FileKind, Flow, Model, Query, Question, Step, StepCommand, Tool, ToolCommand,
};
use crate::os;
use crate::os::{OsText, PathText};
use crate::path;
use crate::scan;
use crate::text;
use crate::text::Compose;
use crate::toolchain;
use vstd::prelude::*;
use vstd::string::*;
use vstd::utf8::*;

verus! {

/// How the local check is called.
pub const USAGE: &'static str =
    "usage: cargo run --manifest-path tools/ci-check/Cargo.toml -- [--require-linux]";

/// The action that exchanges the workflow's identity for a registry token.
pub const AUTH_ACTION: &'static str =
    "rust-lang/crates-io-auth-action@c6f97d42243bad5fab37ca0427f495c86d5b1a18";

/// The only registry token that a publish step may see.
pub const REGISTRY_TOKEN_OUTPUT: &'static str =
    "CARGO_REGISTRY_TOKEN: ${{ steps.crates_io_auth.outputs.token }}";

// ---------------------------------------------------------------------------
// Arguments
// ---------------------------------------------------------------------------

/// What the local check is asked to do.
#[derive(Clone, Copy, Debug, PartialEq, Eq, Structural)]
pub enum CheckMode {
    Help,
    Run { require_linux: bool },
}

/// What the arguments from `index` on ask for.
pub open spec fn mode_from(args: Seq<Seq<u8>>, index: int, require_linux: bool) -> Result<
    CheckMode,
    Seq<char>,
>
    decreases args.len() - index,
{
    if index < 0 || index >= args.len() {
        Ok(CheckMode::Run { require_linux })
    } else if !valid_utf8(args[index]) {
        Err("arguments must be valid UTF-8"@)
    } else {
        let argument = decode_utf8(args[index]);
        if argument == "--require-linux"@ {
            mode_from(args, index + 1, true)
        } else if argument == "--help"@ || argument == "-h"@ {
            Ok(CheckMode::Help)
        } else {
            Err("unknown option "@ + argument)
        }
    }
}

pub open spec fn mode_outcome(mode: Result<CheckMode, String>) -> Result<CheckMode, Seq<char>> {
    match mode {
        Ok(mode) => Ok(mode),
        Err(message) => Err(message@),
    }
}

/// Reads the arguments of the local check.
pub fn parse_args(args: &Vec<OsText>) -> (mode: Result<CheckMode, String>)
    ensures
        mode_outcome(mode) == mode_from(os::texts(args@), 0, false),
{
    let ghost all = os::texts(args@);
    let mut require_linux = false;
    let mut index: usize = 0;
    while index < args.len()
        invariant
            index <= args.len(),
            all == os::texts(args@),
            mode_from(all, 0, false) == mode_from(all, index as int, require_linux),
        decreases args.len() - index,
    {
        assert(all[index as int] == args[index as int]@);
        let argument = match args[index].as_text() {
            Some(argument) => argument,
            None => return Err(text::owned("arguments must be valid UTF-8")),
        };
        if text::same_text(argument.as_str(), "--require-linux") {
            require_linux = true;
        } else if text::same_text(argument.as_str(), "--help") || text::same_text(
            argument.as_str(),
            "-h",
        ) {
            return Ok(CheckMode::Help);
        } else {
            return Err(text::owned("unknown option ").with(argument.as_str()));
        }
        index = index + 1;
    }
    Ok(CheckMode::Run { require_linux })
}

// ---------------------------------------------------------------------------
// The release workflow
// ---------------------------------------------------------------------------

/// How often a pattern stands in a text from `index` on, without overlaps.
pub open spec fn occurrences_from(s: Seq<char>, pattern: Seq<char>, index: int) -> nat
    decreases s.len() - index,
{
    if index < 0 || index > s.len() || pattern.len() == 0 {
        0
    } else {
        match scan::found_from(s, pattern, index) {
            None => 0,
            Some(place) => {
                proof {
                    scan::lemma_found(s, pattern, index);
                }
                1 + occurrences_from(s, pattern, (place + pattern.len()) as int)
            },
        }
    }
}

/// The place of a pattern in a text.
pub fn find_text(text: &str, pattern: &str) -> (place: Option<usize>)
    ensures
        match place {
            Some(place) => scan::found_from(text@, pattern@, 0) == Some(place as int),
            None => scan::found_from(text@, pattern@, 0) is None,
        },
{
    match scan::split_once(text, pattern) {
        Some((before, _)) => {
            proof {
                scan::lemma_found(text@, pattern@, 0);
            }
            let characters = text::characters(before.as_str());
            Some(characters.len())
        },
        None => None,
    }
}

/// Whether a pattern stands in a text exactly once, without overlaps.
pub fn stands_once(text: &str, pattern: &str) -> (yes: bool)
    requires
        pattern@.len() > 0,
    ensures
        yes == (occurrences_from(text@, pattern@, 0) == 1),
{
    let characters = text::characters(pattern);
    match scan::split_once(text, pattern) {
        None => false,
        Some((before, behind)) => {
            let ghost place = scan::found_from(text@, pattern@, 0)->0;
            let ghost next = place + pattern@.len();
            proof {
                scan::lemma_found(text@, pattern@, 0);
                scan::lemma_found(text@, pattern@, next as int);
                scan::lemma_found(behind@, pattern@, 0);
                lemma_found_behind(text@, pattern@, next as int);
            }
            !scan::contains(behind.as_str(), pattern)
        },
    }
}

proof fn lemma_found_behind(s: Seq<char>, pattern: Seq<char>, start: int)
    requires
        0 <= start <= s.len(),
        pattern.len() > 0,
    ensures
        scan::found_from(s, pattern, start) is Some <==> scan::occurs(s.skip(start), pattern),
        occurrences_from(s, pattern, start) == 0 <==> !scan::occurs(s.skip(start), pattern),
{
    let rest = s.skip(start);
    scan::lemma_found(s, pattern, start);
    if let Some(place) = scan::found_from(s, pattern, start) {
        let inner = place - start;
        assert(rest.subrange(inner, inner + pattern.len()) =~= s.subrange(
            place,
            place + pattern.len(),
        ));
        assert(scan::occurs_at(rest, pattern, inner));
    } else if scan::occurs(rest, pattern) {
        let inner = choose|inner: int| scan::occurs_at(rest, pattern, inner);
        let place = start + inner;
        assert(rest.subrange(inner, inner + pattern.len()) =~= s.subrange(
            place,
            place + pattern.len(),
        ));
        assert(scan::occurs_at(s, pattern, place));
    }
}

/// The packages that are published, in order of dependency.
pub open spec fn published_packages() -> Seq<Seq<char>> {
    seq!["cargo-cage-core"@, "cargo-cage-cargo"@, "cargo-cage-linux"@, "cargo-cage"@]
}

/// The packages that depend on others and are tried out once those are there.
pub open spec fn dependent_packages() -> Seq<Seq<char>> {
    seq!["cargo-cage-cargo"@, "cargo-cage-linux"@, "cargo-cage"@]
}

/// A publish command.
pub open spec fn publish_command(package: Seq<char>, option: Seq<char>) -> Seq<char> {
    "cargo publish --locked --package "@ + package + option
}

/// The first package from `index` on without its publish command.
pub open spec fn unpublished_from(
    workflow: Seq<char>,
    packages: Seq<Seq<char>>,
    option: Seq<char>,
    index: int,
) -> Option<Seq<char>>
    decreases packages.len() - index,
{
    if index < 0 || index >= packages.len() {
        None
    } else if !scan::occurs(workflow, publish_command(packages[index], option)) {
        Some(packages[index])
    } else {
        unpublished_from(workflow, packages, option, index + 1)
    }
}

fn find_unpublished(workflow: &str, packages: &Vec<String>, option: &str) -> (missing: Option<
    String,
>)
    ensures
        match missing {
            Some(package) => unpublished_from(
                workflow@,
                scan::strings(packages@),
                option@,
                0,
            ) == Some(package@),
            None => unpublished_from(workflow@, scan::strings(packages@), option@, 0) is None,
        },
{
    let ghost all = scan::strings(packages@);
    let mut index: usize = 0;
    while index < packages.len()
        invariant
            index <= packages.len(),
            all == scan::strings(packages@),
            unpublished_from(workflow@, all, option@, 0) == unpublished_from(
                workflow@,
                all,
                option@,
                index as int,
            ),
        decreases packages.len() - index,
    {
        assert(all[index as int] == packages[index as int]@);
        let command = text::owned("cargo publish --locked --package ").with(
            packages[index].as_str(),
        ).with(option);
        if !scan::contains(workflow, command.as_str()) {
            return Some(packages[index].clone());
        }
        index = index + 1;
    }
    None
}

fn list_published() -> (packages: Vec<String>)
    ensures
        scan::strings(packages@) == published_packages(),
{
    let mut packages: Vec<String> = Vec::new();
    scan::push_string(&mut packages, text::owned("cargo-cage-core"));
    scan::push_string(&mut packages, text::owned("cargo-cage-cargo"));
    scan::push_string(&mut packages, text::owned("cargo-cage-linux"));
    scan::push_string(&mut packages, text::owned("cargo-cage"));
    assert(scan::strings(packages@) =~= published_packages());
    packages
}

fn list_dependent() -> (packages: Vec<String>)
    ensures
        scan::strings(packages@) == dependent_packages(),
{
    let mut packages: Vec<String> = Vec::new();
    scan::push_string(&mut packages, text::owned("cargo-cage-cargo"));
    scan::push_string(&mut packages, text::owned("cargo-cage-linux"));
    scan::push_string(&mut packages, text::owned("cargo-cage"));
    assert(scan::strings(packages@) =~= dependent_packages());
    packages
}

/// What is wrong with how a workflow gets its registry token.
pub open spec fn token_fault(workflow: Seq<char>) -> Option<Seq<char>> {
    if scan::occurs(workflow, "secrets.CARGO_REGISTRY_TOKEN"@) {
        Some("release workflow still references the long-lived CARGO_REGISTRY_TOKEN secret"@)
    } else if occurrences_from(workflow, "id-token: write"@, 0) != 1 {
        Some("release workflow must grant id-token: write exactly to the publish job"@)
    } else if !scan::occurs(workflow, AUTH_ACTION@) {
        Some("release workflow must pin the crates.io auth action to "@ + AUTH_ACTION@)
    } else if !scan::occurs(workflow, REGISTRY_TOKEN_OUTPUT@) {
        Some(
            "release workflow must pass only the short-lived crates.io auth output to cargo publish"@,
        )
    } else {
        None
    }
}

/// What is wrong with the order of a workflow's steps.
pub open spec fn order_fault(workflow: Seq<char>) -> Option<Seq<char>> {
    let dry_run = scan::found_from(
        workflow,
        "name: Dry-run packages without registry credentials"@,
        0,
    );
    let auth = scan::found_from(workflow, "name: Authenticate with crates.io"@, 0);
    let publish = scan::found_from(workflow, "name: Publish packages in dependency order"@, 0);
    if dry_run is None {
        Some("release workflow is missing the credential-free package dry-run"@)
    } else if auth is None {
        Some("release workflow is missing the crates.io OIDC auth step"@)
    } else if publish is None {
        Some("release workflow is missing the publish step"@)
    } else if !(dry_run->0 < auth->0 && auth->0 < publish->0) {
        Some("release workflow must dry-run packages before OIDC auth and publish"@)
    } else {
        None
    }
}

/// What is wrong with the packages that a workflow publishes.
pub open spec fn package_fault(workflow: Seq<char>) -> Option<Seq<char>> {
    let upload = unpublished_from(workflow, published_packages(), " --no-verify"@, 0);
    let dry_run = unpublished_from(workflow, dependent_packages(), " --dry-run"@, 0);
    if !scan::occurs(
        workflow,
        "cargo publish --locked --package \"$package\" --dry-run"@,
    ) {
        Some("release workflow dry-run must use locked Cargo packages"@)
    } else if upload is Some {
        Some("release workflow is missing the --no-verify upload for "@ + upload->0)
    } else if dry_run is Some {
        Some("release workflow is missing the dependency-aware dry-run for "@ + dry_run->0)
    } else {
        None
    }
}

/// What is wrong with how a workflow treats existing releases and tags.
pub open spec fn publication_fault(workflow: Seq<char>) -> Option<Seq<char>> {
    if !scan::occurs(workflow, "gh api --include"@) || !scan::occurs(workflow, "--json isDraft"@) {
        Some("release workflow must inspect existing releases before editing or creating them"@)
    } else if !scan::occurs(workflow, "immutable releases must never be edited or moved"@) {
        Some("release workflow must fail when the existing release is already published"@)
    } else if !scan::occurs(workflow, "- \"v*.*.*\""@) || scan::occurs(workflow, "- \"v*\""@) {
        Some(
            "release workflow must trigger only on semver-shaped tags, not the moving v1 action tag"@,
        )
    } else {
        None
    }
}

/// The first rule that a release workflow breaks.
pub open spec fn workflow_fault(workflow: Seq<char>) -> Option<Seq<char>> {
    match token_fault(workflow) {
        Some(fault) => Some(fault),
        None => match order_fault(workflow) {
            Some(fault) => Some(fault),
            None => match package_fault(workflow) {
                Some(fault) => Some(fault),
                None => publication_fault(workflow),
            },
        },
    }
}

/// The message of a failed check.
pub open spec fn complaint(result: Result<(), String>) -> Option<Seq<char>> {
    match result {
        Ok(_) => None,
        Err(message) => Some(message@),
    }
}

fn check_token(workflow: &str) -> (checked: Result<(), String>)
    ensures
        complaint(checked) == token_fault(workflow@),
{
    proof {
        reveal_strlit("id-token: write");
    }
    if scan::contains(workflow, "secrets.CARGO_REGISTRY_TOKEN") {
        return Err(
            text::owned(
                "release workflow still references the long-lived CARGO_REGISTRY_TOKEN secret",
            ),
        );
    }
    if !stands_once(workflow, "id-token: write") {
        return Err(
            text::owned("release workflow must grant id-token: write exactly to the publish job"),
        );
    }
    if !scan::contains(workflow, AUTH_ACTION) {
        return Err(
            text::owned("release workflow must pin the crates.io auth action to ").with(
                AUTH_ACTION,
            ),
        );
    }
    if !scan::contains(workflow, REGISTRY_TOKEN_OUTPUT) {
        return Err(
            text::owned(
                "release workflow must pass only the short-lived crates.io auth output to cargo publish",
            ),
        );
    }
    Ok(())
}

fn check_order(workflow: &str) -> (checked: Result<(), String>)
    ensures
        complaint(checked) == order_fault(workflow@),
{
    let dry_run: usize = match find_text(
        workflow,
        "name: Dry-run packages without registry credentials",
    ) {
        Some(place) => place,
        None => {
            return Err(
                text::owned("release workflow is missing the credential-free package dry-run"),
            );
        },
    };
    let auth: usize = match find_text(workflow, "name: Authenticate with crates.io") {
        Some(place) => place,
        None => {
            return Err(text::owned("release workflow is missing the crates.io OIDC auth step"));
        },
    };
    let publish: usize = match find_text(workflow, "name: Publish packages in dependency order") {
        Some(place) => place,
        None => return Err(text::owned("release workflow is missing the publish step")),
    };
    if dry_run < auth && auth < publish {
        Ok(())
    } else {
        Err(text::owned("release workflow must dry-run packages before OIDC auth and publish"))
    }
}

fn check_packages(workflow: &str) -> (checked: Result<(), String>)
    ensures
        complaint(checked) == package_fault(workflow@),
{
    if !scan::contains(workflow, "cargo publish --locked --package \"$package\" --dry-run") {
        return Err(text::owned("release workflow dry-run must use locked Cargo packages"));
    }
    if let Some(package) = find_unpublished(workflow, &list_published(), " --no-verify") {
        return Err(
            text::owned("release workflow is missing the --no-verify upload for ").with(
                package.as_str(),
            ),
        );
    }
    if let Some(package) = find_unpublished(workflow, &list_dependent(), " --dry-run") {
        return Err(
            text::owned("release workflow is missing the dependency-aware dry-run for ").with(
                package.as_str(),
            ),
        );
    }
    Ok(())
}

fn check_publication(workflow: &str) -> (checked: Result<(), String>)
    ensures
        complaint(checked) == publication_fault(workflow@),
{
    if !scan::contains(workflow, "gh api --include") || !scan::contains(
        workflow,
        "--json isDraft",
    ) {
        return Err(
            text::owned(
                "release workflow must inspect existing releases before editing or creating them",
            ),
        );
    }
    if !scan::contains(workflow, "immutable releases must never be edited or moved") {
        return Err(
            text::owned(
                "release workflow must fail when the existing release is already published",
            ),
        );
    }
    if !scan::contains(workflow, "- \"v*.*.*\"") || scan::contains(workflow, "- \"v*\"") {
        return Err(
            text::owned(
                "release workflow must trigger only on semver-shaped tags, not the moving v1 action tag",
            ),
        );
    }
    Ok(())
}

/// Checks the text of a release workflow against the rules for releases.
pub fn check_workflow(workflow: &str) -> (checked: Result<(), String>)
    ensures
        complaint(checked) == workflow_fault(workflow@),
{
    check_token(workflow)?;
    check_order(workflow)?;
    check_packages(workflow)?;
    check_publication(workflow)
}

// ---------------------------------------------------------------------------
// Steps
// ---------------------------------------------------------------------------

/// A step: what it is called, and the arguments of Cargo.
pub struct CheckStep {
    pub name: String,
    pub args: Vec<OsText>,
}

pub open spec fn step_list(list: Seq<CheckStep>) -> Seq<(Seq<char>, Seq<Seq<u8>>)> {
    list.map_values(|step: CheckStep| (step.name@, os::texts(step.args@)))
}

fn push_step(steps: &mut Vec<CheckStep>, name: &str, args: Vec<OsText>)
    ensures
        step_list(final(steps)@) == step_list(old(steps)@).push((name@, os::texts(args@))),
{
    let step = CheckStep { name: text::owned(name), args };
    steps.push(step);
    assert(step_list(steps@) =~= step_list(old(steps)@).push((name@, os::texts(args@))));
}

/// The steps that run on every host.
pub open spec fn workspace_steps() -> Seq<(Seq<char>, Seq<Seq<u8>>)> {
    seq![
        (
            "format workspace"@,
            seq![
                os::lit("fmt"),
                os::lit("--all"),
                os::lit("--"),
                os::lit("--check"),
            ],
        ),
        (
            "format independent red-team runner"@,
            seq![
                os::lit("fmt"),
                os::lit("--manifest-path"),
                os::lit("security/redteam/Cargo.toml"),
                os::lit("--"),
                os::lit("--check"),
            ],
        ),
        (
            "format local CI runner"@,
            seq![
                os::lit("fmt"),
                os::lit("--manifest-path"),
                os::lit("tools/ci-check/Cargo.toml"),
                os::lit("--"),
                os::lit("--check"),
            ],
        ),
        (
            "fetch locked dependencies"@,
            seq![
                os::lit("fetch"),
                os::lit("--locked"),
            ],
        ),
        (
            "clippy workspace"@,
            seq![
                os::lit("clippy"),
                os::lit("--workspace"),
                os::lit("--all-targets"),
                os::lit("--locked"),
                os::lit("--"),
                os::lit("-D"),
                os::lit("warnings"),
            ],
        ),
        (
            "clippy local-check runner"@,
            seq![
                os::lit("clippy"),
                os::lit("--manifest-path"),
                os::lit("tools/ci-check/Cargo.toml"),
                os::lit("--all-targets"),
                os::lit("--locked"),
                os::lit("--"),
                os::lit("-D"),
                os::lit("warnings"),
            ],
        ),
        (
            "test workspace"@,
            seq![
                os::lit("test"),
                os::lit("--workspace"),
                os::lit("--locked"),
                os::lit("--"),
                os::lit("--nocapture"),
            ],
        ),
    ]
}

fn list_workspace_steps() -> (steps: Vec<CheckStep>)
    ensures
        step_list(steps@) == workspace_steps(),
{
    let mut steps: Vec<CheckStep> = Vec::new();
    let mut args: Vec<OsText> = Vec::new();
    os::push_lit(&mut args, "fmt");
    os::push_lit(&mut args, "--all");
    os::push_lit(&mut args, "--");
    os::push_lit(&mut args, "--check");
    assert(os::texts(args@) =~= seq![
        os::lit("fmt"),
        os::lit("--all"),
        os::lit("--"),
        os::lit("--check"),
    ]);
    push_step(&mut steps, "format workspace", args);
    let mut args: Vec<OsText> = Vec::new();
    os::push_lit(&mut args, "fmt");
    os::push_lit(&mut args, "--manifest-path");
    os::push_lit(&mut args, "security/redteam/Cargo.toml");
    os::push_lit(&mut args, "--");
    os::push_lit(&mut args, "--check");
    assert(os::texts(args@) =~= seq![
        os::lit("fmt"),
        os::lit("--manifest-path"),
        os::lit("security/redteam/Cargo.toml"),
        os::lit("--"),
        os::lit("--check"),
    ]);
    push_step(&mut steps, "format independent red-team runner", args);
    let mut args: Vec<OsText> = Vec::new();
    os::push_lit(&mut args, "fmt");
    os::push_lit(&mut args, "--manifest-path");
    os::push_lit(&mut args, "tools/ci-check/Cargo.toml");
    os::push_lit(&mut args, "--");
    os::push_lit(&mut args, "--check");
    assert(os::texts(args@) =~= seq![
        os::lit("fmt"),
        os::lit("--manifest-path"),
        os::lit("tools/ci-check/Cargo.toml"),
        os::lit("--"),
        os::lit("--check"),
    ]);
    push_step(&mut steps, "format local CI runner", args);
    let mut args: Vec<OsText> = Vec::new();
    os::push_lit(&mut args, "fetch");
    os::push_lit(&mut args, "--locked");
    assert(os::texts(args@) =~= seq![
        os::lit("fetch"),
        os::lit("--locked"),
    ]);
    push_step(&mut steps, "fetch locked dependencies", args);
    let mut args: Vec<OsText> = Vec::new();
    os::push_lit(&mut args, "clippy");
    os::push_lit(&mut args, "--workspace");
    os::push_lit(&mut args, "--all-targets");
    os::push_lit(&mut args, "--locked");
    os::push_lit(&mut args, "--");
    os::push_lit(&mut args, "-D");
    os::push_lit(&mut args, "warnings");
    assert(os::texts(args@) =~= seq![
        os::lit("clippy"),
        os::lit("--workspace"),
        os::lit("--all-targets"),
        os::lit("--locked"),
        os::lit("--"),
        os::lit("-D"),
        os::lit("warnings"),
    ]);
    push_step(&mut steps, "clippy workspace", args);
    let mut args: Vec<OsText> = Vec::new();
    os::push_lit(&mut args, "clippy");
    os::push_lit(&mut args, "--manifest-path");
    os::push_lit(&mut args, "tools/ci-check/Cargo.toml");
    os::push_lit(&mut args, "--all-targets");
    os::push_lit(&mut args, "--locked");
    os::push_lit(&mut args, "--");
    os::push_lit(&mut args, "-D");
    os::push_lit(&mut args, "warnings");
    assert(os::texts(args@) =~= seq![
        os::lit("clippy"),
        os::lit("--manifest-path"),
        os::lit("tools/ci-check/Cargo.toml"),
        os::lit("--all-targets"),
        os::lit("--locked"),
        os::lit("--"),
        os::lit("-D"),
        os::lit("warnings"),
    ]);
    push_step(&mut steps, "clippy local-check runner", args);
    let mut args: Vec<OsText> = Vec::new();
    os::push_lit(&mut args, "test");
    os::push_lit(&mut args, "--workspace");
    os::push_lit(&mut args, "--locked");
    os::push_lit(&mut args, "--");
    os::push_lit(&mut args, "--nocapture");
    assert(os::texts(args@) =~= seq![
        os::lit("test"),
        os::lit("--workspace"),
        os::lit("--locked"),
        os::lit("--"),
        os::lit("--nocapture"),
    ]);
    push_step(&mut steps, "test workspace", args);
    assert(step_list(steps@) =~= workspace_steps());
    steps
}

/// The steps that need Linux.
pub open spec fn doctor_steps() -> Seq<(Seq<char>, Seq<Seq<u8>>)> {
    seq![
        (
            "doctor"@,
            seq![
                os::lit("run"),
                os::lit("--quiet"),
                os::lit("--package"),
                os::lit("cargo-cage"),
                os::lit("--bin"),
                os::lit("cargo-cage"),
                os::lit("--"),
                os::lit("doctor"),
            ],
        ),
    ]
}

fn list_doctor_steps() -> (steps: Vec<CheckStep>)
    ensures
        step_list(steps@) == doctor_steps(),
{
    let mut steps: Vec<CheckStep> = Vec::new();
    let mut args: Vec<OsText> = Vec::new();
    os::push_lit(&mut args, "run");
    os::push_lit(&mut args, "--quiet");
    os::push_lit(&mut args, "--package");
    os::push_lit(&mut args, "cargo-cage");
    os::push_lit(&mut args, "--bin");
    os::push_lit(&mut args, "cargo-cage");
    os::push_lit(&mut args, "--");
    os::push_lit(&mut args, "doctor");
    assert(os::texts(args@) =~= seq![
        os::lit("run"),
        os::lit("--quiet"),
        os::lit("--package"),
        os::lit("cargo-cage"),
        os::lit("--bin"),
        os::lit("cargo-cage"),
        os::lit("--"),
        os::lit("doctor"),
    ]);
    push_step(&mut steps, "doctor", args);
    assert(step_list(steps@) =~= doctor_steps());
    steps
}

/// The steps for the independent runner that need no Linux.
pub open spec fn runner_steps() -> Seq<(Seq<char>, Seq<Seq<u8>>)> {
    seq![
        (
            "clippy independent red-team runner"@,
            seq![
                os::lit("clippy"),
                os::lit("--manifest-path"),
                os::lit("security/redteam/Cargo.toml"),
                os::lit("--all-targets"),
                os::lit("--locked"),
                os::lit("--"),
                os::lit("-D"),
                os::lit("warnings"),
            ],
        ),
    ]
}

fn list_runner_steps() -> (steps: Vec<CheckStep>)
    ensures
        step_list(steps@) == runner_steps(),
{
    let mut steps: Vec<CheckStep> = Vec::new();
    let mut args: Vec<OsText> = Vec::new();
    os::push_lit(&mut args, "clippy");
    os::push_lit(&mut args, "--manifest-path");
    os::push_lit(&mut args, "security/redteam/Cargo.toml");
    os::push_lit(&mut args, "--all-targets");
    os::push_lit(&mut args, "--locked");
    os::push_lit(&mut args, "--");
    os::push_lit(&mut args, "-D");
    os::push_lit(&mut args, "warnings");
    assert(os::texts(args@) =~= seq![
        os::lit("clippy"),
        os::lit("--manifest-path"),
        os::lit("security/redteam/Cargo.toml"),
        os::lit("--all-targets"),
        os::lit("--locked"),
        os::lit("--"),
        os::lit("-D"),
        os::lit("warnings"),
    ]);
    push_step(&mut steps, "clippy independent red-team runner", args);
    assert(step_list(steps@) =~= runner_steps());
    steps
}

/// What is built for the independent runner.
pub open spec fn build_steps() -> Seq<(Seq<char>, Seq<Seq<u8>>)> {
    seq![
        (
            "build cargo-cage for red-team runner"@,
            seq![
                os::lit("build"),
                os::lit("--package"),
                os::lit("cargo-cage"),
                os::lit("--locked"),
            ],
        ),
    ]
}

fn list_build_steps() -> (steps: Vec<CheckStep>)
    ensures
        step_list(steps@) == build_steps(),
{
    let mut steps: Vec<CheckStep> = Vec::new();
    let mut args: Vec<OsText> = Vec::new();
    os::push_lit(&mut args, "build");
    os::push_lit(&mut args, "--package");
    os::push_lit(&mut args, "cargo-cage");
    os::push_lit(&mut args, "--locked");
    assert(os::texts(args@) =~= seq![
        os::lit("build"),
        os::lit("--package"),
        os::lit("cargo-cage"),
        os::lit("--locked"),
    ]);
    push_step(&mut steps, "build cargo-cage for red-team runner", args);
    assert(step_list(steps@) =~= build_steps());
    steps
}

/// The steps that compile for Linux on another host.
pub open spec fn linux_compile_steps() -> Seq<(Seq<char>, Seq<Seq<u8>>)> {
    seq![
        (
            "compile Linux workspace"@,
            seq![
                os::lit("check"),
                os::lit("--workspace"),
                os::lit("--target"),
                os::lit("x86_64-unknown-linux-gnu"),
                os::lit("--tests"),
                os::lit("--locked"),
            ],
        ),
        (
            "clippy Linux workspace"@,
            seq![
                os::lit("clippy"),
                os::lit("--workspace"),
                os::lit("--target"),
                os::lit("x86_64-unknown-linux-gnu"),
                os::lit("--all-targets"),
                os::lit("--locked"),
                os::lit("--"),
                os::lit("-D"),
                os::lit("warnings"),
            ],
        ),
    ]
}

fn list_linux_compile_steps() -> (steps: Vec<CheckStep>)
    ensures
        step_list(steps@) == linux_compile_steps(),
{
    let mut steps: Vec<CheckStep> = Vec::new();
    let mut args: Vec<OsText> = Vec::new();
    os::push_lit(&mut args, "check");
    os::push_lit(&mut args, "--workspace");
    os::push_lit(&mut args, "--target");
    os::push_lit(&mut args, "x86_64-unknown-linux-gnu");
    os::push_lit(&mut args, "--tests");
    os::push_lit(&mut args, "--locked");
    assert(os::texts(args@) =~= seq![
        os::lit("check"),
        os::lit("--workspace"),
        os::lit("--target"),
        os::lit("x86_64-unknown-linux-gnu"),
        os::lit("--tests"),
        os::lit("--locked"),
    ]);
    push_step(&mut steps, "compile Linux workspace", args);
    let mut args: Vec<OsText> = Vec::new();
    os::push_lit(&mut args, "clippy");
    os::push_lit(&mut args, "--workspace");
    os::push_lit(&mut args, "--target");
    os::push_lit(&mut args, "x86_64-unknown-linux-gnu");
    os::push_lit(&mut args, "--all-targets");
    os::push_lit(&mut args, "--locked");
    os::push_lit(&mut args, "--");
    os::push_lit(&mut args, "-D");
    os::push_lit(&mut args, "warnings");
    assert(os::texts(args@) =~= seq![
        os::lit("clippy"),
        os::lit("--workspace"),
        os::lit("--target"),
        os::lit("x86_64-unknown-linux-gnu"),
        os::lit("--all-targets"),
        os::lit("--locked"),
        os::lit("--"),
        os::lit("-D"),
        os::lit("warnings"),
    ]);
    push_step(&mut steps, "clippy Linux workspace", args);
    assert(step_list(steps@) =~= linux_compile_steps());
    steps
}

/// The step that runs the independent runner against an executable.
pub open spec fn runner_step(executable: Seq<char>) -> (Seq<char>, Seq<Seq<u8>>) {
    (
        "run independent red-team runner"@,
        seq![
            os::lit("run"),
            os::lit("--manifest-path"),
            os::lit("security/redteam/Cargo.toml"),
            os::lit("--locked"),
            os::lit("--"),
            os::lit("--cargo-cage"),
            encode_utf8(executable),
            os::lit("--iterations"),
            os::lit("64"),
        ],
    )
}

fn make_runner_step(executable: &str) -> (step: CheckStep)
    ensures
        (step.name@, os::texts(step.args@)) == runner_step(executable@),
{
    let mut args: Vec<OsText> = Vec::new();
    os::push_lit(&mut args, "run");
    os::push_lit(&mut args, "--manifest-path");
    os::push_lit(&mut args, "security/redteam/Cargo.toml");
    os::push_lit(&mut args, "--locked");
    os::push_lit(&mut args, "--");
    os::push_lit(&mut args, "--cargo-cage");
    os::push_lit(&mut args, executable);
    os::push_lit(&mut args, "--iterations");
    os::push_lit(&mut args, "64");
    assert(os::texts(args@) =~= runner_step(executable@).1);
    CheckStep { name: text::owned("run independent red-team runner"), args }
}

/// A message to the user, whatever comes of it.
pub open spec fn told(message: Seq<char>, log: Seq<Answer>, at: int) -> Course<()> {
    match flow::done(Query::Tell("cargo-cage local-check: "@ + message), log, at) {
        Err(pause) => Err(pause),
        Ok((_, at)) => Ok(((), at)),
    }
}

fn tell(message: &str, log: &Vec<Answer>, at: usize) -> (done: Flow<()>)
    ensures
        flow::course(done) == told(message@, log@, at as int),
{
    let (_, at) = flow::ask_done(
        Question::Tell(text::owned("cargo-cage local-check: ").with(message)),
        log,
        at,
    )?;
    Ok(((), at))
}

/// An exit code for a message.
pub open spec fn exit_text(code: Option<i32>) -> Seq<char> {
    match code {
        Some(code) => text::signed_decimal(code as int),
        None => "a signal"@,
    }
}

fn show_exit(code: Option<i32>) -> (text: String)
    ensures
        text@ == exit_text(code),
{
    match code {
        Some(code) => text::signed_text(code),
        None => text::owned("a signal"),
    }
}

/// The search path with a toolchain in front, where there is one.
pub open spec fn toolchain_path(
    name: Seq<char>,
    directory: Option<Seq<u8>>,
    log: Seq<Answer>,
    at: int,
) -> Course<Result<Option<Seq<u8>>, Seq<char>>> {
    match directory {
        None => Ok((Ok(None), at)),
        Some(directory) => match flow::value(Query::Variable(os::lit("PATH")), log, at) {
            Err(pause) => Err(pause),
            Ok((existing, at)) => {
                let all = seq![directory] + toolchain::pieces(
                    match existing {
                        Some(existing) => existing,
                        None => Seq::empty(),
                    },
                );
                if toolchain::joinable(all) {
                    Ok((Ok(Some(toolchain::joined(all, all.len() as int))), at))
                } else {
                    Ok(
                        (
                            Err(
                                name
                                    + ": could not prepare the Rust toolchain PATH: path segment contains separator `:`"@,
                            ),
                            at,
                        ),
                    )
                }
            },
        },
    }
}

/// A search path, or why there is none.
pub struct SearchPath {
    pub path: Result<Option<OsText>, String>,
}

impl Model for SearchPath {
    type M = Result<Option<Seq<u8>>, Seq<char>>;

    open spec fn model(&self) -> Result<Option<Seq<u8>>, Seq<char>> {
        match self.path {
            Ok(path) => Ok(path.model()),
            Err(message) => Err(message@),
        }
    }
}

fn find_toolchain_path(
    name: &str,
    directory: &Option<PathText>,
    log: &Vec<Answer>,
    at: usize,
) -> (path: Flow<SearchPath>)
    ensures
        flow::course(path) == toolchain_path(name@, directory.model(), log@, at as int),
{
    let first = match directory {
        Some(first) => first,
        None => return Ok((SearchPath { path: Ok(None) }, at)),
    };
    let (existing, at) = flow::ask_value(Question::Variable(OsText::new("PATH")), log, at)?;
    let existing = match existing {
        Some(existing) => existing,
        None => {
            let none = OsText { bytes: Vec::new() };
            assert(none@ =~= Seq::empty());
            none
        },
    };
    let mut all: Vec<PathText> = Vec::new();
    os::push_text(&mut all, first);
    os::push_texts(&mut all, &toolchain::split_paths(&existing));
    assert(os::texts(all@) =~= seq![first@] + toolchain::pieces(existing@));
    match toolchain::join_paths(&all) {
        Some(joined) => Ok((SearchPath { path: Ok(Some(joined)) }, at)),
        None => Ok(
            (
                SearchPath {
                    path: Err(
                        text::owned(name).with(
                            ": could not prepare the Rust toolchain PATH: path segment contains separator `:`",
                        ),
                    ),
                },
                at,
            ),
        ),
    }
}

/// One step: announced, run and judged by its exit code.
#[verifier::opaque]
pub open spec fn stepped(
    root: Seq<u8>,
    program: Seq<u8>,
    directory: Option<Seq<u8>>,
    step: (Seq<char>, Seq<Seq<u8>>),
    log: Seq<Answer>,
    at: int,
) -> Course<Result<(), Seq<char>>> {
    match told(step.0 + " ..."@, log, at) {
        Err(pause) => Err(pause),
        Ok((_, at)) => match toolchain_path(step.0, directory, log, at) {
            Err(pause) => Err(pause),
            Ok((Err(message), at)) => Ok((Err(message), at)),
            Ok((Ok(search_path), at)) => match flow::exited(
                Query::RunStep(
                    Step { program, args: step.1, current_dir: root, search_path },
                ),
                log,
                at,
            ) {
                Err(pause) => Err(pause),
                Ok((Err(failure), at)) => Ok(
                    (
                        Err(
                            step.0 + ": could not start "@ + os::lossy_text(program) + ": "@
                                + failure.message,
                        ),
                        at,
                    ),
                ),
                Ok((Ok(exit), at)) => if exit.code != Some(0i32) {
                    Ok(
                        (
                            Err(
                                step.0 + ": "@ + os::lossy_text(program) + " exited with "@
                                    + exit_text(exit.code),
                            ),
                            at,
                        ),
                    )
                } else {
                    match told(step.0 + ": ok"@, log, at) {
                        Err(pause) => Err(pause),
                        Ok((_, at)) => Ok((Ok(()), at)),
                    }
                },
            },
        },
    }
}

/// Runs one step, with a toolchain in front of the search path where there is
/// one.
pub fn step_with_rust_toolchain(
    root: &PathText,
    program: &PathText,
    directory: &Option<PathText>,
    step: &CheckStep,
    log: &Vec<Answer>,
    at: usize,
) -> (done: Flow<Result<(), String>>)
    ensures
        flow::course(done) == stepped(
            root@,
            program@,
            directory.model(),
            (step.name@, os::texts(step.args@)),
            log@,
            at as int,
        ),
{
    proof {
        reveal(stepped);
    }
    let (_, at) = tell(text::owned(step.name.as_str()).with(" ...").as_str(), log, at)?;
    let (path, at) = find_toolchain_path(step.name.as_str(), directory, log, at)?;
    let search_path = match path.path {
        Ok(search_path) => search_path,
        Err(message) => return Ok((Err(message), at)),
    };
    let command = StepCommand {
        program: program.clone(),
        args: os::copy_texts(&step.args),
        current_dir: root.clone(),
        search_path,
    };
    let (reply, at) = flow::ask_exit(Question::RunStep(command), log, at)?;
    let exit = match reply {
        Ok(exit) => exit,
        Err(failure) => {
            return Ok(
                (
                    Err(
                        text::owned(step.name.as_str()).with(": could not start ").with(
                            program.display().as_str(),
                        ).with(": ").with(failure.message.as_str()),
                    ),
                    at,
                ),
            );
        },
    };
    let succeeded = match exit.code {
        Some(code) => code == 0,
        None => false,
    };
    if !succeeded {
        return Ok(
            (
                Err(
                    text::owned(step.name.as_str()).with(": ").with(
                        program.display().as_str(),
                    ).with(" exited with ").with(show_exit(exit.code).as_str()),
                ),
                at,
            ),
        );
    }
    let (_, at) = tell(text::owned(step.name.as_str()).with(": ok").as_str(), log, at)?;
    Ok((Ok(()), at))
}

/// Runs one step of Cargo.
pub fn step(root: &PathText, what: &CheckStep, log: &Vec<Answer>, at: usize) -> (done: Flow<
    Result<(), String>,
>)
    ensures
        flow::course(done) == stepped(
            root@,
            os::lit("cargo"),
            None,
            (what.name@, os::texts(what.args@)),
            log@,
            at as int,
        ),
{
    step_with_rust_toolchain(root, &OsText::new("cargo"), &None, what, log, at)
}

/// Steps from `index` on, up to the first that fails.
pub open spec fn all_stepped(
    root: Seq<u8>,
    program: Seq<u8>,
    directory: Option<Seq<u8>>,
    steps: Seq<(Seq<char>, Seq<Seq<u8>>)>,
    index: int,
    log: Seq<Answer>,
    at: int,
) -> Course<Result<(), Seq<char>>>
    decreases steps.len() - index,
{
    if index < 0 || index >= steps.len() {
        Ok((Ok(()), at))
    } else {
        match stepped(root, program, directory, steps[index], log, at) {
            Err(pause) => Err(pause),
            Ok((Err(message), at)) => Ok((Err(message), at)),
            Ok((Ok(_), at)) => all_stepped(root, program, directory, steps, index + 1, log, at),
        }
    }
}

fn run_steps(
    root: &PathText,
    program: &PathText,
    directory: &Option<PathText>,
    steps: &Vec<CheckStep>,
    log: &Vec<Answer>,
    at: usize,
) -> (done: Flow<Result<(), String>>)
    ensures
        flow::course(done) == all_stepped(
            root@,
            program@,
            directory.model(),
            step_list(steps@),
            0,
            log@,
            at as int,
        ),
{
    let ghost all = step_list(steps@);
    let ghost start = at as int;
    let mut used: usize = at;
    let mut index: usize = 0;
    while index < steps.len()
        invariant
            index <= steps.len(),
            all == step_list(steps@),
            start == at,
            all_stepped(root@, program@, directory.model(), all, 0, log@, start) == all_stepped(
                root@,
                program@,
                directory.model(),
                all,
                index as int,
                log@,
                used as int,
            ),
        decreases steps.len() - index,
    {
        assert(all[index as int] == (
            steps[index as int].name@,
            os::texts(steps[index as int].args@),
        ));
        let (reply, next) = step_with_rust_toolchain(
            root,
            program,
            directory,
            &steps[index],
            log,
            used,
        )?;
        used = next;
        if reply.is_err() {
            return Ok((reply, used));
        }
        index = index + 1;
    }
    Ok((Ok(()), used))
}

// ---------------------------------------------------------------------------
// The whole check
// ---------------------------------------------------------------------------

/// The release workflow of a repository, checked.
#[verifier::opaque]
pub open spec fn workflow_checked(root: Seq<u8>, log: Seq<Answer>, at: int) -> Course<
    Result<(), Seq<char>>,
> {
    let file = path::join(root, os::lit(".github/workflows/release.yml"));
    match flow::content(Query::ReadText(file), log, at) {
        Err(pause) => Err(pause),
        Ok((Err(failure), at)) => Ok(
            (Err("could not read "@ + os::lossy_text(file) + ": "@ + failure.message), at),
        ),
        Ok((Ok(workflow), at)) => match workflow_fault(workflow) {
            Some(message) => Ok((Err(message), at)),
            None => match told("release workflow policy: ok"@, log, at) {
                Err(pause) => Err(pause),
                Ok((_, at)) => Ok((Ok(()), at)),
            },
        },
    }
}

/// Checks the release workflow of a repository.
pub fn validate_release_workflow(root: &PathText, log: &Vec<Answer>, at: usize) -> (checked: Flow<
    Result<(), String>,
>)
    ensures
        flow::course(checked) == workflow_checked(root@, log@, at as int),
{
    proof {
        reveal(workflow_checked);
    }
    let file = root.join_text(".github/workflows/release.yml");
    let (reply, at) = flow::ask_content(Question::ReadText(file.clone()), log, at)?;
    let workflow = match reply {
        Ok(workflow) => workflow,
        Err(failure) => {
            return Ok(
                (
                    Err(
                        text::owned("could not read ").with(file.display().as_str()).with(
                            ": ",
                        ).with(failure.message.as_str()),
                    ),
                    at,
                ),
            );
        },
    };
    if let Err(message) = check_workflow(workflow.as_str()) {
        return Ok((Err(message), at));
    }
    let (_, at) = tell("release workflow policy: ok", log, at)?;
    Ok((Ok(()), at))
}

/// A host program that is asked something.
pub open spec fn plain_tool(program: Seq<u8>, args: Seq<Seq<u8>>) -> Tool {
    Tool { program, args, inherit: true, environment: Seq::empty(), current_dir: None }
}

fn make_tool(program: &PathText, args: Vec<OsText>) -> (command: ToolCommand)
    ensures
        command@ == plain_tool(program@, os::texts(args@)),
{
    let environment: Vec<(OsText, OsText)> = Vec::new();
    assert(os::pairs(environment@) =~= Seq::empty());
    ToolCommand { program: program.clone(), args, inherit: true, environment, current_dir: None }
}

/// What a host program printed, if it ran and succeeded.
pub open spec fn printed(tool: Tool, log: Seq<Answer>, at: int) -> Course<Option<Seq<u8>>> {
    match flow::output(Query::RunTool(tool), log, at) {
        Err(pause) => Err(pause),
        Ok((Err(_), at)) => Ok((None, at)),
        Ok((Ok(said), at)) => if said.status.code == Some(0i32) {
            Ok((Some(encode_utf8(scan::trimmed(os::lossy_text(said.stdout)))), at))
        } else {
            Ok((None, at))
        },
    }
}

fn ask_tool(command: ToolCommand, log: &Vec<Answer>, at: usize) -> (output: Flow<Option<OsText>>)
    ensures
        flow::course(output) == printed(command@, log@, at as int),
{
    let (reply, at) = flow::ask_output(Question::RunTool(command), log, at)?;
    match reply {
        Err(_) => Ok((None, at)),
        Ok(output) => if output.status.successfully_exited() {
            let inner = scan::trim(os::lossy(output.stdout.as_slice()).as_str());
            Ok((Some(OsText::new(inner.as_str())), at))
        } else {
            Ok((None, at))
        },
    }
}

/// A printed path, if it leads to something of a kind.
pub open spec fn printed_path(tool: Tool, kind: FileKind, log: Seq<Answer>, at: int) -> Course<
    Option<Seq<u8>>,
> {
    match printed(tool, log, at) {
        Err(pause) => Err(pause),
        Ok((None, at)) => Ok((None, at)),
        Ok((Some(file), at)) => match flow::entry(Query::Follow(file), log, at) {
            Err(pause) => Err(pause),
            Ok((reply, at)) => if reply is Ok && reply->Ok_0.kind == kind {
                Ok((Some(file), at))
            } else {
                Ok((None, at))
            },
        },
    }
}

fn ask_tool_path(command: ToolCommand, kind: FileKind, log: &Vec<Answer>, at: usize) -> (file: Flow<
    Option<OsText>,
>)
    ensures
        flow::course(file) == printed_path(command@, kind, log@, at as int),
{
    let (output, at) = ask_tool(command, log, at)?;
    let file = match output {
        Some(file) => file,
        None => return Ok((None, at)),
    };
    let (reply, at) = flow::ask_entry(Question::Follow(file.clone()), log, at)?;
    match reply {
        Ok(stat) => if stat.kind == kind {
            Ok((Some(file), at))
        } else {
            Ok((None, at))
        },
        Err(_) => Ok((None, at)),
    }
}

/// Where rustup has a tool.
pub open spec fn rustup_path(tool: &str, log: Seq<Answer>, at: int) -> Course<Option<Seq<u8>>> {
    printed_path(
        plain_tool(os::lit("rustup"), seq![os::lit("which"), os::lit(tool)]),
        FileKind::File,
        log,
        at,
    )
}

pub fn rustup_tool(tool: &str, log: &Vec<Answer>, at: usize) -> (file: Flow<Option<OsText>>)
    ensures
        flow::course(file) == rustup_path(tool, log@, at as int),
{
    let mut args: Vec<OsText> = Vec::new();
    os::push_lit(&mut args, "which");
    os::push_lit(&mut args, tool);
    assert(os::texts(args@) =~= seq![os::lit("which"), os::lit(tool)]);
    ask_tool_path(make_tool(&OsText::new("rustup"), args), FileKind::File, log, at)
}

/// The tool that rustup has, or whatever the search path leads to.
pub open spec fn tool_or(found: Option<Seq<u8>>, name: &str) -> Seq<u8> {
    match found {
        Some(file) => file,
        None => os::lit(name),
    }
}

fn choose_tool(found: Option<OsText>, name: &str) -> (file: PathText)
    ensures
        file@ == tool_or(found.model(), name),
{
    match found {
        Some(file) => file,
        None => OsText::new(name),
    }
}

/// The question where the libraries for Linux are.
pub open spec fn library_tool(rustc: Seq<u8>) -> Tool {
    plain_tool(
        rustc,
        seq![
            os::lit("--print"),
            os::lit("target-libdir"),
            os::lit("--target"),
            os::lit("x86_64-unknown-linux-gnu"),
        ],
    )
}

fn make_library_tool(rustc: &PathText) -> (command: ToolCommand)
    ensures
        command@ == library_tool(rustc@),
{
    let mut args: Vec<OsText> = Vec::new();
    os::push_lit(&mut args, "--print");
    os::push_lit(&mut args, "target-libdir");
    os::push_lit(&mut args, "--target");
    os::push_lit(&mut args, "x86_64-unknown-linux-gnu");
    assert(os::texts(args@) =~= library_tool(rustc@).args);
    make_tool(rustc, args)
}

/// The steps that compile for Linux elsewhere, where the target is installed.
#[verifier::opaque]
pub open spec fn linux_compiled(root: Seq<u8>, log: Seq<Answer>, at: int) -> Course<
    Result<(), Seq<char>>,
> {
    match rustup_path("cargo", log, at) {
        Err(pause) => Err(pause),
        Ok((cargo, at)) => match rustup_path("rustc", log, at) {
            Err(pause) => Err(pause),
            Ok((rustc, at)) => match printed_path(
                library_tool(tool_or(rustc, "rustc")),
                FileKind::Directory,
                log,
                at,
            ) {
                Err(pause) => Err(pause),
                Ok((None, at)) => match told(
                    "SKIP Linux compile checks (install with `rustup target add x86_64-unknown-linux-gnu`)"@,
                    log,
                    at,
                ) {
                    Err(pause) => Err(pause),
                    Ok((_, at)) => Ok((Ok(()), at)),
                },
                Ok((Some(_), at)) => all_stepped(
                    root,
                    tool_or(cargo, "cargo"),
                    path::parent(tool_or(cargo, "cargo")),
                    linux_compile_steps(),
                    0,
                    log,
                    at,
                ),
            },
        },
    }
}

pub fn run_linux_compile_checks(root: &PathText, log: &Vec<Answer>, at: usize) -> (done: Flow<
    Result<(), String>,
>)
    ensures
        flow::course(done) == linux_compiled(root@, log@, at as int),
{
    proof {
        reveal(linux_compiled);
    }
    let (cargo, at) = rustup_tool("cargo", log, at)?;
    let cargo = choose_tool(cargo, "cargo");
    let (rustc, at) = rustup_tool("rustc", log, at)?;
    let rustc = choose_tool(rustc, "rustc");
    let (library, at) = ask_tool_path(make_library_tool(&rustc), FileKind::Directory, log, at)?;
    if library.is_none() {
        let (_, at) = tell(
            "SKIP Linux compile checks (install with `rustup target add x86_64-unknown-linux-gnu`)",
            log,
            at,
        )?;
        return Ok((Ok(()), at));
    }
    run_steps(root, &cargo, &cargo.parent(), &list_linux_compile_steps(), log, at)
}

/// The independent runner, built and run against this build.
#[verifier::opaque]
pub open spec fn runner_run(root: Seq<u8>, log: Seq<Answer>, at: int) -> Course<
    Result<(), Seq<char>>,
> {
    let cargo = os::lit("cargo");
    match all_stepped(root, cargo, None, runner_steps(), 0, log, at) {
        Err(pause) => Err(pause),
        Ok((Err(message), at)) => Ok((Err(message), at)),
        Ok((Ok(_), at)) => match all_stepped(root, cargo, None, build_steps(), 0, log, at) {
            Err(pause) => Err(pause),
            Ok((Err(message), at)) => Ok((Err(message), at)),
            Ok((Ok(_), at)) => {
                let executable = path::join(root, os::lit("target/debug/cargo-cage"));
                if valid_utf8(executable) {
                    stepped(root, cargo, None, runner_step(decode_utf8(executable)), log, at)
                } else {
                    Ok(
                        (
                            Err(
                                "cargo-cage executable path is not valid UTF-8; use a normal repository path"@,
                            ),
                            at,
                        ),
                    )
                }
            },
        },
    }
}

pub fn run_redteam(root: &PathText, log: &Vec<Answer>, at: usize) -> (done: Flow<
    Result<(), String>,
>)
    ensures
        flow::course(done) == runner_run(root@, log@, at as int),
{
    proof {
        reveal(runner_run);
    }
    let cargo = OsText::new("cargo");
    let (reply, at) = run_steps(root, &cargo, &None, &list_runner_steps(), log, at)?;
    if reply.is_err() {
        return Ok((reply, at));
    }
    let (reply, at) = run_steps(root, &cargo, &None, &list_build_steps(), log, at)?;
    if reply.is_err() {
        return Ok((reply, at));
    }
    match root.join_text("target/debug/cargo-cage").as_text() {
        Some(executable) => step(root, &make_runner_step(executable.as_str()), log, at),
        None => Ok(
            (
                Err(
                    text::owned(
                        "cargo-cage executable path is not valid UTF-8; use a normal repository path",
                    ),
                ),
                at,
            ),
        ),
    }
}

/// What only a Linux host can check.
#[verifier::opaque]
pub open spec fn checked_on_linux(root: Seq<u8>, log: Seq<Answer>, at: int) -> Course<
    Result<(), Seq<char>>,
> {
    match all_stepped(root, os::lit("cargo"), None, doctor_steps(), 0, log, at) {
        Err(pause) => Err(pause),
        Ok((Err(message), at)) => Ok((Err(message), at)),
        Ok((Ok(_), at)) => runner_run(root, log, at),
    }
}

/// What another host can check in its place.
#[verifier::opaque]
pub open spec fn checked_elsewhere(
    root: Seq<u8>,
    require_linux: bool,
    log: Seq<Answer>,
    at: int,
) -> Course<Result<(), Seq<char>>> {
    match linux_compiled(root, log, at) {
        Err(pause) => Err(pause),
        Ok((Err(message), at)) => Ok((Err(message), at)),
        Ok((Ok(_), at)) => match all_stepped(
            root,
            os::lit("cargo"),
            None,
            runner_steps(),
            0,
            log,
            at,
        ) {
            Err(pause) => Err(pause),
            Ok((Err(message), at)) => Ok((Err(message), at)),
            Ok((Ok(_), at)) => if require_linux {
                Ok(
                    (
                        Err(
                            "Linux runtime checks were required, but this host is not Linux; use an Ubuntu VM or runner"@,
                        ),
                        at,
                    ),
                )
            } else {
                match told(
                    "SKIP Linux runtime checks (use --require-linux on Ubuntu)"@,
                    log,
                    at,
                ) {
                    Err(pause) => Err(pause),
                    Ok((_, at)) => Ok((Ok(()), at)),
                }
            },
        },
    }
}

/// The whole local check of a repository.
#[verifier::opaque]
pub open spec fn checked(
    manifest_dir: Seq<u8>,
    linux: bool,
    require_linux: bool,
    log: Seq<Answer>,
    at: int,
) -> Course<Result<(), Seq<char>>> {
    match flow::place(Query::Resolve(path::join(manifest_dir, os::lit("../.."))), log, at) {
        Err(pause) => Err(pause),
        Ok((Err(failure), at)) => Ok(
            (Err("cannot resolve repository root: "@ + failure.message), at),
        ),
        Ok((Ok(root), at)) => match workflow_checked(root, log, at) {
            Err(pause) => Err(pause),
            Ok((Err(message), at)) => Ok((Err(message), at)),
            Ok((Ok(_), at)) => match all_stepped(
                root,
                os::lit("cargo"),
                None,
                workspace_steps(),
                0,
                log,
                at,
            ) {
                Err(pause) => Err(pause),
                Ok((Err(message), at)) => Ok((Err(message), at)),
                Ok((Ok(_), at)) => match (if linux {
                    checked_on_linux(root, log, at)
                } else {
                    checked_elsewhere(root, require_linux, log, at)
                }) {
                    Err(pause) => Err(pause),
                    Ok((Err(message), at)) => Ok((Err(message), at)),
                    Ok((Ok(_), at)) => match told("all applicable checks passed"@, log, at) {
                        Err(pause) => Err(pause),
                        Ok((_, at)) => Ok((Ok(()), at)),
                    },
                },
            },
        },
    }
}

fn run_on_linux(root: &PathText, log: &Vec<Answer>, at: usize) -> (done: Flow<Result<(), String>>)
    ensures
        flow::course(done) == checked_on_linux(root@, log@, at as int),
{
    proof {
        reveal(checked_on_linux);
    }
    let cargo = OsText::new("cargo");
    let (reply, at) = run_steps(root, &cargo, &None, &list_doctor_steps(), log, at)?;
    if reply.is_err() {
        return Ok((reply, at));
    }
    run_redteam(root, log, at)
}

fn run_elsewhere(root: &PathText, require_linux: bool, log: &Vec<Answer>, at: usize) -> (done: Flow<
    Result<(), String>,
>)
    ensures
        flow::course(done) == checked_elsewhere(root@, require_linux, log@, at as int),
{
    proof {
        reveal(checked_elsewhere);
    }
    let (reply, at) = run_linux_compile_checks(root, log, at)?;
    if reply.is_err() {
        return Ok((reply, at));
    }
    let cargo = OsText::new("cargo");
    let (reply, at) = run_steps(root, &cargo, &None, &list_runner_steps(), log, at)?;
    if reply.is_err() {
        return Ok((reply, at));
    }
    if require_linux {
        return Ok(
            (
                Err(
                    text::owned(
                        "Linux runtime checks were required, but this host is not Linux; use an Ubuntu VM or runner",
                    ),
                ),
                at,
            ),
        );
    }
    let (_, at) = tell("SKIP Linux runtime checks (use --require-linux on Ubuntu)", log, at)?;
    Ok((Ok(()), at))
}

/// Runs the whole local check of the repository that `manifest_dir` is two
/// levels below.
pub fn run_checks(
    manifest_dir: &PathText,
    linux: bool,
    require_linux: bool,
    log: &Vec<Answer>,
    at: usize,
) -> (done: Flow<Result<(), String>>)
    ensures
        flow::course(done) == checked(manifest_dir@, linux, require_linux, log@, at as int),
{
    proof {
        reveal(checked);
    }
    let (reply, at) = flow::ask_place(Question::Resolve(manifest_dir.join_text("../..")), log, at)?;
    let root = match reply {
        Ok(root) => root,
        Err(failure) => {
            return Ok(
                (
                    Err(
                        text::owned("cannot resolve repository root: ").with(
                            failure.message.as_str(),
                        ),
                    ),
                    at,
                ),
            );
        },
    };
    let (reply, at) = validate_release_workflow(&root, log, at)?;
    if reply.is_err() {
        return Ok((reply, at));
    }
    let cargo = OsText::new("cargo");
    let (reply, at) = run_steps(&root, &cargo, &None, &list_workspace_steps(), log, at)?;
    if reply.is_err() {
        return Ok((reply, at));
    }
    let (reply, at) = if linux {
        run_on_linux(&root, log, at)?
    } else {
        run_elsewhere(&root, require_linux, log, at)?
    };
    if reply.is_err() {
        return Ok((reply, at));
    }
    let (_, at) = tell("all applicable checks passed", log, at)?;
    Ok((Ok(()), at))
}

/// An accepted workflow never uses the long-lived registry token, asks for
/// exactly one identity token, and publishes after the dry run and the exchange
/// of the token.
pub proof fn accepted_workflows_use_short_lived_tokens(workflow: Seq<char>)
    requires
        workflow_fault(workflow) is None,
    ensures
        !scan::occurs(workflow, "secrets.CARGO_REGISTRY_TOKEN"@),
        occurrences_from(workflow, "id-token: write"@, 0) == 1,
        scan::occurs(workflow, AUTH_ACTION@),
        scan::found_from(workflow, "name: Authenticate with crates.io"@, 0) is Some,
        scan::found_from(workflow, "name: Publish packages in dependency order"@, 0) is Some,
        scan::found_from(workflow, "name: Authenticate with crates.io"@, 0)->0 < scan::found_from(
            workflow,
            "name: Publish packages in dependency order"@,
            0,
        )->0,
{
}

} // verus!
