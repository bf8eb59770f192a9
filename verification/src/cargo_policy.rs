//! The policy under which Cargo runs.

use crate::error::{CageError, Fault};
use crate::flow;
use crate::flow::{Answer, Course, Flow, Halt, Model, Pause, Query, Question};
use crate::os;
use crate::os::{OsText, PathText};
use crate::path;
use crate::policy;
use crate::policy::{NetworkAccess, PolicyRules, ResourceLimits, SandboxPolicy};
use vstd::prelude::*;

verus! {

impl Model for SandboxPolicy {
    type M = PolicyRules;

    open spec fn model(&self) -> PolicyRules {
        self@
    }
}

/// The variables that are always removed.
pub open spec fn known_secret_names() -> Seq<Seq<u8>> {
    seq![
        os::lit("AWS_ACCESS_KEY_ID"),
        os::lit("AWS_SECRET_ACCESS_KEY"),
        os::lit("AWS_SESSION_TOKEN"),
        os::lit("AWS_SECURITY_TOKEN"),
        os::lit("GITHUB_TOKEN"),
        os::lit("GH_TOKEN"),
        os::lit("GITLAB_TOKEN"),
        os::lit("CARGO_REGISTRY_TOKEN"),
        os::lit("RUSTUP_TOKEN"),
        os::lit("SSH_AUTH_SOCK"),
        os::lit("GPG_AGENT_INFO"),
        os::lit("DBUS_SESSION_BUS_ADDRESS"),
        os::lit("DOCKER_HOST"),
        os::lit("KUBECONFIG"),
        os::lit("NPM_TOKEN"),
        os::lit("PYPI_TOKEN"),
    ]
}

/// `names` followed by the sensitive names of the first `count` variables, each
/// of them once.
pub open spec fn with_sensitive(
    names: Seq<Seq<u8>>,
    variables: Seq<(Seq<u8>, Seq<u8>)>,
    count: int,
) -> Seq<Seq<u8>>
    decreases count,
{
    if count <= 0 {
        names
    } else {
        let before = with_sensitive(names, variables, count - 1);
        let name = variables[count - 1].0;
        if policy::sensitive_name(name) && !before.contains(name) {
            before.push(name)
        } else {
            before
        }
    }
}

/// The variables to remove: the known secrets and whatever looks like one.
pub open spec fn removed_names(variables: Seq<(Seq<u8>, Seq<u8>)>) -> Seq<Seq<u8>> {
    with_sensitive(known_secret_names(), variables, variables.len() as int)
}

/// The names of the variables to remove before a process starts.
pub fn sensitive_environment_names(variables: &Vec<(OsText, OsText)>) -> (names: Vec<OsText>)
    ensures
        os::texts(names@) == removed_names(os::pairs(variables@)),
{
    let mut names: Vec<OsText> = Vec::new();
    os::push_lit(&mut names, "AWS_ACCESS_KEY_ID");
    os::push_lit(&mut names, "AWS_SECRET_ACCESS_KEY");
    os::push_lit(&mut names, "AWS_SESSION_TOKEN");
    os::push_lit(&mut names, "AWS_SECURITY_TOKEN");
    os::push_lit(&mut names, "GITHUB_TOKEN");
    os::push_lit(&mut names, "GH_TOKEN");
    os::push_lit(&mut names, "GITLAB_TOKEN");
    os::push_lit(&mut names, "CARGO_REGISTRY_TOKEN");
    os::push_lit(&mut names, "RUSTUP_TOKEN");
    os::push_lit(&mut names, "SSH_AUTH_SOCK");
    os::push_lit(&mut names, "GPG_AGENT_INFO");
    os::push_lit(&mut names, "DBUS_SESSION_BUS_ADDRESS");
    os::push_lit(&mut names, "DOCKER_HOST");
    os::push_lit(&mut names, "KUBECONFIG");
    os::push_lit(&mut names, "NPM_TOKEN");
    os::push_lit(&mut names, "PYPI_TOKEN");
    assert(os::texts(names@) =~= known_secret_names());
    let mut index: usize = 0;
    let ghost all = os::pairs(variables@);
    while index < variables.len()
        invariant
            index <= variables.len(),
            all == os::pairs(variables@),
            os::texts(names@) == with_sensitive(known_secret_names(), all, index as int),
        decreases variables.len() - index,
    {
        assert(all[index as int].0 == variables[index as int].0@);
        let name = &variables[index].0;
        if policy::is_sensitive_environment_name(name) && !os::contains_text(&names, name) {
            os::push_text(&mut names, name);
        }
        index = index + 1;
    }
    names
}

/// No variable with a sensitive name escapes removal, and the known secrets
/// come first.
pub proof fn sensitive_variables_are_removed(variables: Seq<(Seq<u8>, Seq<u8>)>)
    ensures
        forall|i: int|
            0 <= i < variables.len() && policy::sensitive_name((#[trigger] variables[i]).0)
                ==> removed_names(variables).contains(variables[i].0),
        known_secret_names().is_prefix_of(removed_names(variables)),
{
    lemma_with_sensitive(known_secret_names(), variables, variables.len() as int);
}

proof fn lemma_with_sensitive(
    names: Seq<Seq<u8>>,
    variables: Seq<(Seq<u8>, Seq<u8>)>,
    count: int,
)
    requires
        0 <= count <= variables.len(),
    ensures
        forall|i: int|
            0 <= i < count && policy::sensitive_name((#[trigger] variables[i]).0)
                ==> with_sensitive(names, variables, count).contains(variables[i].0),
        names.is_prefix_of(with_sensitive(names, variables, count)),
    decreases count,
{
    if count > 0 {
        lemma_with_sensitive(names, variables, count - 1);
        let before = with_sensitive(names, variables, count - 1);
        let after = with_sensitive(names, variables, count);
        let name = variables[count - 1].0;
        assert forall|text: Seq<u8>| before.contains(text) implies after.contains(text) by {
            let i = choose|i: int| 0 <= i < before.len() && before[i] == text;
            assert(after[i] == text);
        }
        if policy::sensitive_name(name) && !before.contains(name) {
            assert(after.last() == name);
        }
    }
}

/// The home directory that a policy is built on.
pub open spec fn policy_home(log: Seq<Answer>, at: int) -> Course<Seq<u8>> {
    match flow::value(Query::Variable(os::lit("HOME")), log, at) {
        Err(pause) => Err(pause),
        Ok((None, at)) => Err(
            Pause::Fail(
                Fault::Policy {
                    subject: "HOME"@,
                    rule: "HOME must be set to construct the sandbox policy"@,
                    remedy: "set HOME to an absolute home directory before running cargo-cage"@,
                },
                at,
            ),
        ),
        Ok((Some(home), at)) => if !path::absolute(home) {
            Err(
                flow::refusal(
                    home,
                    "HOME must be an absolute path"@,
                    "set HOME to the absolute path of the user home directory"@,
                    at,
                ),
            )
        } else if path::same_path(home, os::lit("/")) {
            Err(
                flow::refusal(
                    home,
                    "HOME must not be the filesystem root"@,
                    "set HOME to a real user home directory"@,
                    at,
                ),
            )
        } else {
            Ok((home, at))
        },
    }
}

fn ask_policy_home(log: &Vec<Answer>, at: usize) -> (home: Flow<PathText>)
    ensures
        flow::course(home) == policy_home(log@, at as int),
{
    let (home, at) = flow::ask_value(Question::Variable(OsText::new("HOME")), log, at)?;
    let home = match home {
        Some(home) => home,
        None => {
            return Err(
                Halt::Fail(
                    CageError::policy(
                        "HOME",
                        "HOME must be set to construct the sandbox policy",
                        "set HOME to an absolute home directory before running cargo-cage",
                    ),
                    at,
                ),
            );
        },
    };
    if !home.is_absolute() {
        return Err(
            flow::refuse(
                &home,
                "HOME must be an absolute path",
                "set HOME to the absolute path of the user home directory",
                at,
            ),
        );
    }
    if home.same_path(&OsText::new("/")) {
        return Err(
            flow::refuse(
                &home,
                "HOME must not be the filesystem root",
                "set HOME to a real user home directory",
                at,
            ),
        );
    }
    Ok((home, at))
}

/// The credentials and the configuration of one Cargo home.
pub open spec fn cargo_secrets(cargo_home: Seq<u8>) -> Seq<Seq<u8>> {
    seq![
        path::join(cargo_home, os::lit("credentials")),
        path::join(cargo_home, os::lit("credentials.toml")),
        path::join(cargo_home, os::lit("config")),
        path::join(cargo_home, os::lit("config.toml")),
    ]
}

/// The places of a home directory that hold secrets.
pub open spec fn home_secrets(home: Seq<u8>) -> Seq<Seq<u8>> {
    seq![
        os::lit("/etc/cargo"),
        path::join(home, os::lit(".ssh")),
        path::join(home, os::lit(".aws")),
        path::join(home, os::lit(".config")),
        path::join(home, os::lit(".gnupg")),
        path::join(home, os::lit(".kube")),
        path::join(home, os::lit(".docker")),
        path::join(home, os::lit(".password-store")),
        path::join(home, os::lit(".netrc")),
    ]
}

/// The host paths that no Cargo process may see.
pub open spec fn hidden_places(home: Seq<u8>, cargo_home: Option<Seq<u8>>) -> Seq<Seq<u8>> {
    let standard = path::join(home, os::lit(".cargo"));
    match cargo_home {
        Some(chosen) => if path::same_path(chosen, standard) {
            home_secrets(home) + cargo_secrets(chosen)
        } else {
            home_secrets(home) + cargo_secrets(chosen) + cargo_secrets(standard)
        },
        None => home_secrets(home) + cargo_secrets(standard),
    }
}

/// The paths that are replaced by private filesystems.
pub open spec fn private_places(home: Seq<u8>, main_build: bool) -> Seq<Seq<u8>> {
    if main_build {
        seq![home, os::lit("/tmp"), os::lit("/var/tmp"), os::lit("/run")]
    } else {
        seq![home]
    }
}

/// The policy that the host's variables lead to.
#[verifier::opaque]
pub open spec fn built_policy(main_build: bool, log: Seq<Answer>, at: int) -> Course<PolicyRules> {
    match policy_home(log, at) {
        Err(pause) => Err(pause),
        Ok((home, at)) => match flow::value(Query::Variable(os::lit("CARGO_HOME")), log, at) {
            Err(pause) => Err(pause),
            Ok((cargo_home, at)) => match flow::listing(Query::Variables, log, at) {
                Err(pause) => Err(pause),
                Ok((variables, at)) => Ok(
                    (
                        PolicyRules {
                            network: NetworkAccess::Deny,
                            writable_paths: Seq::empty(),
                            hidden_paths: hidden_places(home, cargo_home),
                            private_paths: private_places(home, main_build),
                            read_only_paths: Seq::empty(),
                            remove_environment: removed_names(variables),
                            resources: ResourceLimits::standard(),
                        },
                        at,
                    ),
                ),
            },
        },
    }
}

fn push_joined(list: &mut Vec<PathText>, base: &PathText, name: &str)
    ensures
        os::texts(final(list)@) == os::texts(old(list)@).push(path::join(base@, os::lit(name))),
{
    os::push_text(list, &base.join_text(name));
}

fn push_cargo_secrets(list: &mut Vec<PathText>, cargo_home: &PathText)
    ensures
        os::texts(final(list)@) == os::texts(old(list)@) + cargo_secrets(cargo_home@),
{
    push_joined(list, cargo_home, "credentials");
    push_joined(list, cargo_home, "credentials.toml");
    push_joined(list, cargo_home, "config");
    push_joined(list, cargo_home, "config.toml");
    assert(os::texts(list@) =~= os::texts(old(list)@) + cargo_secrets(cargo_home@));
}

fn list_hidden_places(home: &PathText, cargo_home: &Option<PathText>) -> (list: Vec<PathText>)
    ensures
        os::texts(list@) == hidden_places(home@, cargo_home.model()),
{
    let mut list: Vec<PathText> = Vec::new();
    os::push_lit(&mut list, "/etc/cargo");
    push_joined(&mut list, home, ".ssh");
    push_joined(&mut list, home, ".aws");
    push_joined(&mut list, home, ".config");
    push_joined(&mut list, home, ".gnupg");
    push_joined(&mut list, home, ".kube");
    push_joined(&mut list, home, ".docker");
    push_joined(&mut list, home, ".password-store");
    push_joined(&mut list, home, ".netrc");
    assert(os::texts(list@) =~= home_secrets(home@));
    let standard = home.join_text(".cargo");
    match cargo_home {
        Some(chosen) => {
            push_cargo_secrets(&mut list, chosen);
            if !chosen.same_path(&standard) {
                push_cargo_secrets(&mut list, &standard);
            }
        },
        None => {
            push_cargo_secrets(&mut list, &standard);
        },
    }
    list
}

fn list_private_places(home: &PathText, main_build: bool) -> (list: Vec<PathText>)
    ensures
        os::texts(list@) == private_places(home@, main_build),
{
    let mut list: Vec<PathText> = Vec::new();
    os::push_text(&mut list, home);
    if main_build {
        os::push_lit(&mut list, "/tmp");
        os::push_lit(&mut list, "/var/tmp");
        os::push_lit(&mut list, "/run");
    }
    assert(os::texts(list@) =~= private_places(home@, main_build));
    list
}

/// The policy for running Cargo: no network, secrets hidden, the home directory
/// private, and for the main build also the places for temporary files.
pub fn cargo_policy(main_build: bool, log: &Vec<Answer>, at: usize) -> (built: Flow<SandboxPolicy>)
    ensures
        flow::course(built) == built_policy(main_build, log@, at as int),
{
    proof {
        reveal(built_policy);
    }
    let (home, at) = ask_policy_home(log, at)?;
    let (cargo_home, at) = flow::ask_value(
        Question::Variable(OsText::new("CARGO_HOME")),
        log,
        at,
    )?;
    let (variables, at) = flow::ask_listing(Question::Variables, log, at)?;
    let hidden_paths = list_hidden_places(&home, &cargo_home);
    let private_paths = list_private_places(&home, main_build);
    let built = SandboxPolicy {
        network: NetworkAccess::Deny,
        writable_paths: Vec::new(),
        hidden_paths,
        private_paths,
        read_only_paths: Vec::new(),
        remove_environment: sensitive_environment_names(&variables),
        resources: ResourceLimits::default(),
    };
    assert(os::texts(Seq::<OsText>::empty()) =~= Seq::empty());
    Ok((built, at))
}

/// Whatever the host says, Cargo's policy denies the network and starts without
/// any writable path.
pub proof fn cargo_policy_denies_network(main_build: bool, log: Seq<Answer>, at: int)
    requires
        built_policy(main_build, log, at) is Ok,
    ensures
        built_policy(main_build, log, at)->Ok_0.0.network == NetworkAccess::Deny,
        built_policy(main_build, log, at)->Ok_0.0.writable_paths.len() == 0,
{
    reveal(built_policy);
}

} // verus!
