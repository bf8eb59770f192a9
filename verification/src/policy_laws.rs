//! What a policy lets a Cargo process have, and what it keeps from it.

use crate::cargo_policy;
use crate::flow;
use crate::flow::{Answer, Model};
use crate::os;
use crate::path;
use crate::policy;
use crate::policy::ResourceLimits;
use crate::toolchain::Kit;
use crate::workspace;
use vstd::prelude::*;
use vstd::string::*;
use vstd::utf8::*;

verus! {

/// The variables of the user and of the locale.
pub open spec fn user_or_locale(name: Seq<u8>) -> bool {
    ||| name == os::lit("USER")
    ||| name == os::lit("LOGNAME")
    ||| name == os::lit("LANG")
    ||| name == os::lit("LANGUAGE")
    ||| name == os::lit("LC_ALL")
    ||| name == os::lit("LC_ADDRESS")
    ||| name == os::lit("LC_COLLATE")
    ||| name == os::lit("LC_CTYPE")
    ||| name == os::lit("LC_IDENTIFICATION")
    ||| name == os::lit("LC_MEASUREMENT")
    ||| name == os::lit("LC_MESSAGES")
    ||| name == os::lit("LC_MONETARY")
    ||| name == os::lit("LC_NAME")
    ||| name == os::lit("LC_NUMERIC")
    ||| name == os::lit("LC_PAPER")
    ||| name == os::lit("LC_TELEPHONE")
    ||| name == os::lit("LC_TIME")
}

/// The variables of the terminal.
pub open spec fn of_the_terminal(name: Seq<u8>) -> bool {
    ||| name == os::lit("TERM")
    ||| name == os::lit("COLORTERM")
    ||| name == os::lit("COLUMNS")
    ||| name == os::lit("LINES")
}

/// The variables with which a build is configured.
pub open spec fn of_the_build(name: Seq<u8>) -> bool {
    ||| name == os::lit("CARGO_TERM_COLOR")
    ||| name == os::lit("CARGO_TERM_VERBOSE")
    ||| name == os::lit("CARGO_TERM_PROGRESS_WHEN")
    ||| name == os::lit("CARGO_INCREMENTAL")
    ||| name == os::lit("CARGO_BUILD_JOBS")
    ||| name == os::lit("CARGO_BUILD_TARGET")
    ||| name == os::lit("CARGO_ENCODED_RUSTFLAGS")
    ||| name == os::lit("CARGO_ENCODED_RUSTDOCFLAGS")
    ||| name == os::lit("RUSTFLAGS")
    ||| name == os::lit("RUSTDOCFLAGS")
}

/// The variables of the C toolchain.
pub open spec fn of_the_c_toolchain(name: Seq<u8>) -> bool {
    ||| name == os::lit("CC")
    ||| name == os::lit("CXX")
    ||| name == os::lit("AR")
    ||| name == os::lit("RANLIB")
    ||| name == os::lit("CFLAGS")
    ||| name == os::lit("CXXFLAGS")
    ||| name == os::lit("CPPFLAGS")
    ||| name == os::lit("PKG_CONFIG")
    ||| name == os::lit("PKG_CONFIG_PATH")
    ||| name == os::lit("PKG_CONFIG_LIBDIR")
    ||| name == os::lit("PKG_CONFIG_SYSROOT_DIR")
}

/// The host variables that reach Cargo are those of the user and the locale, of
/// the terminal, of the build and of the C toolchain: all of them, and no other.
pub proof fn forwarded_names_are_the_listed_ones(name: Seq<u8>)
    ensures
        policy::forwarded_name(name) <==> user_or_locale(name) || of_the_terminal(name)
            || of_the_build(name) || of_the_c_toolchain(name),
{
    reveal(policy::forwarded_name);
}

/// The variables that the sandbox sets itself: where things are, and that Cargo
/// stays offline.
pub proof fn owned_names_are_the_places_of_the_sandbox(name: Seq<u8>)
    ensures
        policy::sandbox_owned_name(name) <==> {
            ||| name == os::lit("HOME")
            ||| name == os::lit("PATH")
            ||| name == os::lit("PWD")
            ||| name == os::lit("RUSTC")
            ||| name == os::lit("RUSTDOC")
            ||| name == os::lit("CARGO_HOME")
            ||| name == os::lit("CARGO_TARGET_DIR")
            ||| name == os::lit("CARGO_BUILD_BUILD_DIR")
            ||| name == os::lit("CARGO_NET_OFFLINE")
            ||| name == os::lit("TMPDIR")
        },
{
    reveal(policy::sandbox_owned_name);
}

/// A name in any case that ends like a secret, begins like the name of an agent
/// or a cloud, or is the plain word for a secret counts as sensitive, and no
/// other name does.
pub proof fn secrets_are_known_by_their_names(name: Seq<u8>)
    requires
        valid_utf8(name),
    ensures
        policy::sensitive_name(name) <==> {
            let raised = policy::upper(name);
            ||| os::lit("AWS_").is_prefix_of(raised)
            ||| os::lit("SSH_").is_prefix_of(raised)
            ||| os::lit("GPG_").is_prefix_of(raised)
            ||| os::lit("_TOKEN").is_suffix_of(raised)
            ||| os::lit("_TOKENS").is_suffix_of(raised)
            ||| os::lit("_PASSWORD").is_suffix_of(raised)
            ||| os::lit("_PASS").is_suffix_of(raised)
            ||| os::lit("_SECRET").is_suffix_of(raised)
            ||| os::lit("_SECRET_KEY").is_suffix_of(raised)
            ||| os::lit("_CREDENTIAL").is_suffix_of(raised)
            ||| os::lit("_PRIVATE_KEY").is_suffix_of(raised)
            ||| os::lit("_API_KEY").is_suffix_of(raised)
            ||| os::lit("_ACCESS_KEY").is_suffix_of(raised)
            ||| os::lit("_AGENT").is_suffix_of(raised)
            ||| os::lit("_AGENT_INFO").is_suffix_of(raised)
            ||| os::lit("_AGENT_PID").is_suffix_of(raised)
            ||| os::lit("_AUTH_SOCK").is_suffix_of(raised)
            ||| raised == os::lit("TOKEN")
            ||| raised == os::lit("PASSWORD")
            ||| raised == os::lit("PASS")
            ||| raised == os::lit("SECRET")
            ||| raised == os::lit("CREDENTIAL")
            ||| raised == os::lit("PRIVATE_KEY")
            ||| raised == os::lit("API_KEY")
            ||| raised == os::lit("ACCESS_KEY")
        },
        policy::upper(name).len() == name.len(),
        forall|i: int|
            0 <= i < name.len() ==> #[trigger] policy::upper(name)[i] == if 'a' as u8 <= name[i]
                <= 'z' as u8 {
                (name[i] - 32) as u8
            } else {
                name[i]
            },
{
    reveal(policy::sensitive_upper);
}

/// The fixed profile, and that a request may only lower it: every limit is
/// positive and no larger.
pub proof fn requests_may_only_lower_the_limits(limits: ResourceLimits)
    ensures
        limits.valid() <==> {
            &&& 0 < limits.max_processes <= 512
            &&& 0 < limits.max_memory_bytes <= 8 * 1024 * 1024 * 1024
            &&& 0 < limits.max_cpu_cores <= 4
            &&& 0 < limits.max_wall_time.nanoseconds <= 30 * 60 * 1000000000
            &&& 0 < limits.max_file_size_bytes <= 4 * 1024 * 1024 * 1024
            &&& 0 < limits.max_open_files <= 4096
        },
        ({
            let standard = ResourceLimits::standard();
            &&& standard.max_processes == 512
            &&& standard.max_memory_bytes == 8 * 1024 * 1024 * 1024
            &&& standard.max_cpu_cores == 4
            &&& standard.max_wall_time.seconds() == 30 * 60
            &&& standard.max_file_size_bytes == 4 * 1024 * 1024 * 1024
            &&& standard.max_open_files == 4096
        }),
{
}

// ---------------------------------------------------------------------------
// The environment
// ---------------------------------------------------------------------------

proof fn lemma_forwarded(variables: Seq<(Seq<u8>, Seq<u8>)>, count: int)
    requires
        0 <= count <= variables.len(),
    ensures
        forall|i: int|
            0 <= i < count && policy::forwarded_name((#[trigger] variables[i]).0)
                ==> workspace::forwarded(variables, count).contains(variables[i]),
        forall|j: int|
            0 <= j < workspace::forwarded(variables, count).len() ==> variables.contains(
                #[trigger] workspace::forwarded(variables, count)[j],
            ),
    decreases count,
{
    if count > 0 {
        lemma_forwarded(variables, count - 1);
        let before = workspace::forwarded(variables, count - 1);
        let after = workspace::forwarded(variables, count);
        assert forall|i: int|
            0 <= i < count && policy::forwarded_name((#[trigger] variables[i]).0) implies {
            after.contains(variables[i])
        } by {
            if i == count - 1 {
                assert(after[before.len() as int] == variables[i]);
            } else {
                let k = choose|k: int| 0 <= k < before.len() && before[k] == variables[i];
                assert(after[k] == variables[i]);
            }
        }
        assert forall|j: int| 0 <= j < after.len() implies variables.contains(
            #[trigger] after[j],
        ) by {
            if j < before.len() {
                assert(after[j] == before[j]);
            } else {
                assert(after[j] == variables[count - 1]);
            }
        }
    }
}

/// A Cargo process receives every variable of the host that may reach it with
/// its value, then where the toolchain and its directory are, and then the
/// overrides, which therefore count; nothing else, nothing inherited, nothing
/// taken away.
pub proof fn cargo_receives_what_it_may(
    kit: Kit,
    current_dir: Seq<u8>,
    overrides: Seq<(Seq<u8>, Seq<u8>)>,
    log: Seq<Answer>,
    at: int,
)
    requires
        workspace::environment_for(kit, current_dir, overrides, log, at) is Ok,
    ensures
        ({
            let environment = workspace::environment_for(
                kit,
                current_dir,
                overrides,
                log,
                at,
            )->Ok_0.0;
            let variables = log[at]->Listing_0.model();
            let set = environment.set;
            let own = set.len() - overrides.len() - if kit.rustdoc is Some {
                5int
            } else {
                4int
            };
            &&& flow::given(log, at) is Some && log[at] is Listing
            &&& !environment.inherit
            &&& environment.remove.len() == 0
            &&& forall|i: int|
                0 <= i < variables.len() && policy::forwarded_name((#[trigger] variables[i]).0)
                    ==> set.contains(variables[i])
            &&& own >= 0
            &&& forall|j: int|
                0 <= j < own ==> variables.contains(#[trigger] set[j]) && policy::forwarded_name(
                    set[j].0,
                )
            &&& set[own] == (os::lit("HOME"), kit.home)
            &&& set[own + 1] == (os::lit("PATH"), kit.path)
            &&& set[own + 2] == (os::lit("PWD"), current_dir)
            &&& set[own + 3] == (os::lit("RUSTC"), kit.rustc)
            &&& kit.rustdoc matches Some(rustdoc) ==> set[own + 4] == (
                os::lit("RUSTDOC"),
                rustdoc,
            )
            &&& overrides == set.skip(set.len() - overrides.len())
        }),
{
    reveal(workspace::environment_for);
    let variables = log[at]->Listing_0.model();
    let host = workspace::forwarded(variables, variables.len() as int);
    let set = workspace::environment_for(kit, current_dir, overrides, log, at)->Ok_0.0.set;
    lemma_forwarded(variables, variables.len() as int);
    workspace::lemma_forwarded_names(variables, variables.len() as int);
    assert forall|i: int|
        0 <= i < variables.len() && policy::forwarded_name(
            (#[trigger] variables[i]).0,
        ) implies set.contains(variables[i]) by {
        let k = choose|k: int| 0 <= k < host.len() && host[k] == variables[i];
        assert(set[k] == variables[i]);
    }
    assert(forall|j: int| 0 <= j < host.len() ==> #[trigger] set[j] == host[j]);
    assert(overrides =~= set.skip(set.len() - overrides.len()));
}

// ---------------------------------------------------------------------------
// The policy of a Cargo process
// ---------------------------------------------------------------------------

/// Whether paths hold the credentials and the configuration of a Cargo home.
pub open spec fn holds_cargo_secrets(paths: Seq<Seq<u8>>, cargo_home: Seq<u8>) -> bool {
    &&& paths.contains(path::join(cargo_home, os::lit("credentials")))
    &&& paths.contains(path::join(cargo_home, os::lit("credentials.toml")))
    &&& paths.contains(path::join(cargo_home, os::lit("config")))
    &&& paths.contains(path::join(cargo_home, os::lit("config.toml")))
}

/// Whether paths hold the places of a home where secrets are kept.
pub open spec fn holds_home_secrets(paths: Seq<Seq<u8>>, home: Seq<u8>) -> bool {
    &&& paths.contains(os::lit("/etc/cargo"))
    &&& paths.contains(path::join(home, os::lit(".ssh")))
    &&& paths.contains(path::join(home, os::lit(".aws")))
    &&& paths.contains(path::join(home, os::lit(".config")))
    &&& paths.contains(path::join(home, os::lit(".gnupg")))
    &&& paths.contains(path::join(home, os::lit(".kube")))
    &&& paths.contains(path::join(home, os::lit(".docker")))
    &&& paths.contains(path::join(home, os::lit(".password-store")))
    &&& paths.contains(path::join(home, os::lit(".netrc")))
}

proof fn lemma_cargo_secrets(
    front: Seq<Seq<u8>>,
    cargo_home: Seq<u8>,
    back: Seq<Seq<u8>>,
    paths: Seq<Seq<u8>>,
)
    requires
        paths == front + cargo_policy::cargo_secrets(cargo_home) + back,
    ensures
        holds_cargo_secrets(paths, cargo_home),
{
    let n = front.len() as int;
    assert(paths[n] == path::join(cargo_home, os::lit("credentials")));
    assert(paths[n + 1] == path::join(cargo_home, os::lit("credentials.toml")));
    assert(paths[n + 2] == path::join(cargo_home, os::lit("config")));
    assert(paths[n + 3] == path::join(cargo_home, os::lit("config.toml")));
}

proof fn lemma_home_secrets(home: Seq<u8>, back: Seq<Seq<u8>>, paths: Seq<Seq<u8>>)
    requires
        paths == cargo_policy::home_secrets(home) + back,
    ensures
        holds_home_secrets(paths, home),
{
    assert(paths[0] == os::lit("/etc/cargo"));
    assert(paths[1] == path::join(home, os::lit(".ssh")));
    assert(paths[2] == path::join(home, os::lit(".aws")));
    assert(paths[3] == path::join(home, os::lit(".config")));
    assert(paths[4] == path::join(home, os::lit(".gnupg")));
    assert(paths[5] == path::join(home, os::lit(".kube")));
    assert(paths[6] == path::join(home, os::lit(".docker")));
    assert(paths[7] == path::join(home, os::lit(".password-store")));
    assert(paths[8] == path::join(home, os::lit(".netrc")));
}

/// Cargo's policy hides the secrets of the home and of Cargo, in the standard
/// place and where `CARGO_HOME` says.
pub proof fn cargo_policy_hides_secrets(home: Seq<u8>, cargo_home: Option<Seq<u8>>)
    ensures
        ({
            let hidden = cargo_policy::hidden_places(home, cargo_home);
            let standard = path::join(home, os::lit(".cargo"));
            &&& holds_home_secrets(hidden, home)
            &&& cargo_home matches Some(chosen) ==> holds_cargo_secrets(hidden, chosen) && (
            !path::same_path(chosen, standard) ==> holds_cargo_secrets(hidden, standard))
            &&& cargo_home is None ==> holds_cargo_secrets(hidden, standard)
        }),
{
    let hidden = cargo_policy::hidden_places(home, cargo_home);
    let front = cargo_policy::home_secrets(home);
    let standard = path::join(home, os::lit(".cargo"));
    let second = cargo_policy::cargo_secrets(standard);
    let none = Seq::<Seq<u8>>::empty();
    match cargo_home {
        Some(chosen) => {
            let first = cargo_policy::cargo_secrets(chosen);
            if path::same_path(chosen, standard) {
                assert(hidden =~= front + first + none);
                lemma_cargo_secrets(front, chosen, none, hidden);
                lemma_home_secrets(home, first, hidden);
            } else {
                lemma_cargo_secrets(front, chosen, second, hidden);
                assert(hidden =~= front + first + second + none);
                lemma_cargo_secrets(front + first, standard, none, hidden);
                assert(hidden =~= front + (first + second));
                lemma_home_secrets(home, first + second, hidden);
            }
        },
        None => {
            assert(hidden =~= front + second + none);
            lemma_cargo_secrets(front, standard, none, hidden);
            lemma_home_secrets(home, second, hidden);
        },
    }
}

/// Cargo's policy is made from the home, Cargo's home and the variables of the
/// host: it makes the home private, for the main build also the places for
/// temporary files, and takes the fixed limits. Without an absolute home other
/// than the root there is none.
pub proof fn cargo_policy_keeps_the_home_private(main_build: bool, log: Seq<Answer>, at: int)
    ensures
        flow::given(log, at) matches Some(Answer::Value(None)) ==> (cargo_policy::built_policy(
            main_build,
            log,
            at,
        ) matches Err(flow::Pause::Fail(fault, _)) && fault is Policy),
        flow::given(log, at) matches Some(Answer::Value(Some(home))) && (!path::absolute(home@)
            || path::same_path(home@, os::lit("/"))) ==> (cargo_policy::built_policy(
            main_build,
            log,
            at,
        ) matches Err(flow::Pause::Fail(fault, _)) && fault is Policy),
        cargo_policy::built_policy(main_build, log, at) matches Ok((rules, next)) ==> {
            let home = log[at]->Value_0->0@;
            let cargo_home = log[at + 1]->Value_0.model();
            let variables = log[at + 2]->Listing_0.model();
            &&& next == at + 3 <= log.len()
            &&& log[at] is Value && log[at]->Value_0 is Some
            &&& log[at + 1] is Value
            &&& log[at + 2] is Listing
            &&& rules.hidden_paths == cargo_policy::hidden_places(home, cargo_home)
            &&& rules.private_paths.contains(home)
            &&& main_build ==> rules.private_paths.contains(os::lit("/tmp"))
                && rules.private_paths.contains(os::lit("/var/tmp"))
                && rules.private_paths.contains(os::lit("/run"))
            &&& forall|i: int|
                0 <= i < variables.len() && policy::sensitive_name((#[trigger] variables[i]).0)
                    ==> rules.remove_environment.contains(variables[i].0)
            &&& rules.read_only_paths.len() == 0
            &&& rules.resources == ResourceLimits::standard()
        },
{
    reveal(cargo_policy::built_policy);
    if let Ok((rules, next)) = cargo_policy::built_policy(main_build, log, at) {
        let home = log[at]->Value_0->0@;
        let variables = log[at + 2]->Listing_0.model();
        cargo_policy::sensitive_variables_are_removed(variables);
        assert(rules.private_paths[0] == home);
        if main_build {
            assert(rules.private_paths[1] == os::lit("/tmp"));
            assert(rules.private_paths[2] == os::lit("/var/tmp"));
            assert(rules.private_paths[3] == os::lit("/run"));
        }
    }
}

/// The well-known secrets are removed whatever the host has set.
pub proof fn known_secrets_are_always_removed(variables: Seq<(Seq<u8>, Seq<u8>)>)
    ensures
        ({
            let removed = cargo_policy::removed_names(variables);
            &&& removed.contains(os::lit("AWS_ACCESS_KEY_ID"))
            &&& removed.contains(os::lit("AWS_SECRET_ACCESS_KEY"))
            &&& removed.contains(os::lit("AWS_SESSION_TOKEN"))
            &&& removed.contains(os::lit("AWS_SECURITY_TOKEN"))
            &&& removed.contains(os::lit("GITHUB_TOKEN"))
            &&& removed.contains(os::lit("GH_TOKEN"))
            &&& removed.contains(os::lit("GITLAB_TOKEN"))
            &&& removed.contains(os::lit("CARGO_REGISTRY_TOKEN"))
            &&& removed.contains(os::lit("RUSTUP_TOKEN"))
            &&& removed.contains(os::lit("SSH_AUTH_SOCK"))
            &&& removed.contains(os::lit("GPG_AGENT_INFO"))
            &&& removed.contains(os::lit("DBUS_SESSION_BUS_ADDRESS"))
            &&& removed.contains(os::lit("DOCKER_HOST"))
            &&& removed.contains(os::lit("KUBECONFIG"))
            &&& removed.contains(os::lit("NPM_TOKEN"))
            &&& removed.contains(os::lit("PYPI_TOKEN"))
        }),
{
    let removed = cargo_policy::removed_names(variables);
    let known = cargo_policy::known_secret_names();
    cargo_policy::sensitive_variables_are_removed(variables);
    assert(known.len() == 16);
    assert(forall|i: int| 0 <= i < known.len() ==> #[trigger] removed[i] == known[i]) by {
        assert(removed.subrange(0, known.len() as int) =~= known);
        assert forall|i: int| 0 <= i < known.len() implies #[trigger] removed[i] == known[i] by {
            assert(removed.subrange(0, known.len() as int)[i] == known[i]);
        }
    }
    assert(removed[0] == os::lit("AWS_ACCESS_KEY_ID"));
    assert(removed[1] == os::lit("AWS_SECRET_ACCESS_KEY"));
    assert(removed[2] == os::lit("AWS_SESSION_TOKEN"));
    assert(removed[3] == os::lit("AWS_SECURITY_TOKEN"));
    assert(removed[4] == os::lit("GITHUB_TOKEN"));
    assert(removed[5] == os::lit("GH_TOKEN"));
    assert(removed[6] == os::lit("GITLAB_TOKEN"));
    assert(removed[7] == os::lit("CARGO_REGISTRY_TOKEN"));
    assert(removed[8] == os::lit("RUSTUP_TOKEN"));
    assert(removed[9] == os::lit("SSH_AUTH_SOCK"));
    assert(removed[10] == os::lit("GPG_AGENT_INFO"));
    assert(removed[11] == os::lit("DBUS_SESSION_BUS_ADDRESS"));
    assert(removed[12] == os::lit("DOCKER_HOST"));
    assert(removed[13] == os::lit("KUBECONFIG"));
    assert(removed[14] == os::lit("NPM_TOKEN"));
    assert(removed[15] == os::lit("PYPI_TOKEN"));
}

/// Cargo's home on the host is what `CARGO_HOME` says, else `.cargo` in the
/// home; a cache is present where its registry or its Git directory is a real
/// directory.
pub proof fn caches_lie_in_the_cargo_home(log: Seq<Answer>, at: int)
    ensures
        flow::given(log, at) matches Some(Answer::Value(Some(chosen)))
            ==> workspace::host_cargo_home(log, at) == Ok::<(Option<Seq<u8>>, int), flow::Pause>(
            (Some(chosen@), at + 1),
        ),
        flow::given(log, at) matches Some(Answer::Value(None)) ==> (flow::given(
            log,
            at + 1,
        ) matches Some(Answer::Value(Some(home))) ==> workspace::host_cargo_home(log, at) == Ok::<
            (Option<Seq<u8>>, int),
            flow::Pause,
        >((Some(path::join(home@, os::lit(".cargo"))), at + 2))),
        workspace::host_cargo_home(log, at) matches Ok((Some(home), next)) ==> {
            let registry = workspace::is_directory(
                path::join(home, os::lit("registry")),
                log,
                next,
            );
            &&& registry matches Ok((true, after)) ==> workspace::cache_present(log, at) == Ok::<
                (bool, int),
                flow::Pause,
            >((true, after))
            &&& registry matches Ok((false, after)) ==> workspace::cache_present(log, at)
                == workspace::is_directory(path::join(home, os::lit("git")), log, after)
        },
        workspace::host_cargo_home(log, at) matches Ok((None, next)) ==> workspace::cache_present(
            log,
            at,
        ) == Ok::<(bool, int), flow::Pause>((false, next)),
{
    reveal(workspace::cache_present);
}

} // verus!
