//! What a sandboxed process may reach: network, paths, variables, resources.

use crate::os;
use crate::os::{OsText, PathText};
use crate::text;
use vstd::prelude::*;
use vstd::slice::*;
use vstd::string::*;
use vstd::utf8::*;

verus! {

/// Which variables a process receives.
#[derive(Debug)]
pub struct Environment {
    /// Whether the backend should inherit the caller's environment first.
    ///
    /// This is `false` by default. Sandboxed Cargo requests should add only
    /// the variables they explicitly need. Setting it to `true` is an
    /// explicit opt-in to host-environment inheritance.
    pub inherit: bool,
    pub set: Vec<(OsText, OsText)>,
    pub remove: Vec<OsText>,
}

/// What an `Environment` holds.
pub struct EnvironmentRules {
    pub inherit: bool,
    pub set: Seq<(Seq<u8>, Seq<u8>)>,
    pub remove: Seq<Seq<u8>>,
}

impl EnvironmentRules {
    pub open spec fn clean() -> EnvironmentRules {
        EnvironmentRules { inherit: false, set: Seq::empty(), remove: Seq::empty() }
    }
}

impl View for Environment {
    type V = EnvironmentRules;

    open spec fn view(&self) -> EnvironmentRules {
        EnvironmentRules {
            inherit: self.inherit,
            set: os::pairs(self.set@),
            remove: os::texts(self.remove@),
        }
    }
}

impl Clone for Environment {
    fn clone(&self) -> (copy: Self)
        ensures
            copy@ == self@,
    {
        Environment {
            inherit: self.inherit,
            set: os::copy_pairs(&self.set),
            remove: os::copy_texts(&self.remove),
        }
    }
}

impl Default for Environment {
    fn default() -> (environment: Self)
        ensures
            environment@ == EnvironmentRules::clean(),
    {
        let environment = Environment { inherit: false, set: Vec::new(), remove: Vec::new() };
        assert(os::pairs(environment.set@) =~= Seq::empty());
        assert(os::texts(environment.remove@) =~= Seq::empty());
        environment
    }
}

impl Environment {
    /// Start with an empty environment instead of inheriting host variables.
    pub fn clean() -> (environment: Self)
        ensures
            environment@ == EnvironmentRules::clean(),
    {
        Environment::default()
    }

    /// The environment with one more variable set.
    pub fn set(self, key: &OsText, value: &OsText) -> (environment: Self)
        ensures
            environment@ == (EnvironmentRules {
                set: self@.set.push((key@, value@)),
                ..self@
            }),
    {
        let mut environment = self;
        os::push_pair(&mut environment.set, key.clone(), value.clone());
        environment
    }

    /// The environment with one more variable removed.
    pub fn remove(self, key: &OsText) -> (environment: Self)
        ensures
            environment@ == (EnvironmentRules { remove: self@.remove.push(key@), ..self@ }),
    {
        let mut environment = self;
        os::push_text(&mut environment.remove, key);
        environment
    }
}

#[derive(Clone, Copy, Debug, PartialEq, Eq, Structural)]
pub enum NetworkAccess {
    Deny,
    Allow,
}

impl Default for NetworkAccess {
    fn default() -> (access: Self)
        ensures
            access == NetworkAccess::Deny,
    {
        NetworkAccess::Deny
    }
}

/// The resources that a sandbox can run out of.
#[derive(Clone, Copy, Debug, PartialEq, Eq, Structural)]
pub enum ResourceLimitKind {
    Processes,
    Memory,
    WallTime,
    FileSize,
}

impl ResourceLimitKind {
    pub open spec fn label(self) -> Seq<char> {
        match self {
            ResourceLimitKind::Processes => "process count"@,
            ResourceLimitKind::Memory => "memory"@,
            ResourceLimitKind::WallTime => "wall-clock time"@,
            ResourceLimitKind::FileSize => "file size"@,
        }
    }

    pub fn as_str(self) -> (label: &'static str)
        ensures
            label@ == self.label(),
    {
        match self {
            ResourceLimitKind::Processes => "process count",
            ResourceLimitKind::Memory => "memory",
            ResourceLimitKind::WallTime => "wall-clock time",
            ResourceLimitKind::FileSize => "file size",
        }
    }
}

pub const DEFAULT_MAX_PROCESSES: u64 = 512;

pub const DEFAULT_MAX_MEMORY_BYTES: u64 = 8589934592;

pub const DEFAULT_MAX_CPU_CORES: u32 = 4;

pub const DEFAULT_MAX_WALL_NANOSECONDS: u128 = 1800000000000;

pub const DEFAULT_MAX_FILE_SIZE_BYTES: u64 = 4294967296;

pub const DEFAULT_MAX_OPEN_FILES: u64 = 4096;

/// A length of time, to the nanosecond.
#[derive(Clone, Copy, Debug, PartialEq, Eq, Structural)]
pub struct TimeSpan {
    pub nanoseconds: u128,
}

impl TimeSpan {
    pub fn from_secs(seconds: u64) -> (span: Self)
        ensures
            span.nanoseconds == seconds * 1000000000,
    {
        TimeSpan { nanoseconds: seconds as u128 * 1000000000 }
    }

    pub fn from_millis(milliseconds: u64) -> (span: Self)
        ensures
            span.nanoseconds == milliseconds * 1000000,
    {
        TimeSpan { nanoseconds: milliseconds as u128 * 1000000 }
    }

    /// The whole seconds.
    pub open spec fn seconds(self) -> nat {
        self.nanoseconds as nat / 1000000000
    }

    /// The whole milliseconds.
    pub open spec fn milliseconds(self) -> nat {
        self.nanoseconds as nat / 1000000
    }

    pub fn as_secs(&self) -> (seconds: u128)
        ensures
            seconds == self.seconds(),
    {
        self.nanoseconds / 1000000000
    }

    pub fn as_millis(&self) -> (milliseconds: u128)
        ensures
            milliseconds == self.milliseconds(),
    {
        self.nanoseconds / 1000000
    }
}

/// The resource budget of one sandboxed process tree.
#[derive(Clone, Copy, Debug, PartialEq, Eq, Structural)]
pub struct ResourceLimits {
    pub max_processes: u64,
    pub max_memory_bytes: u64,
    pub max_cpu_cores: u32,
    pub max_wall_time: TimeSpan,
    pub max_file_size_bytes: u64,
    pub max_open_files: u64,
}

impl ResourceLimits {
    /// The fixed profile.
    pub open spec fn standard() -> ResourceLimits {
        ResourceLimits {
            max_processes: DEFAULT_MAX_PROCESSES,
            max_memory_bytes: DEFAULT_MAX_MEMORY_BYTES,
            max_cpu_cores: DEFAULT_MAX_CPU_CORES,
            max_wall_time: TimeSpan { nanoseconds: DEFAULT_MAX_WALL_NANOSECONDS },
            max_file_size_bytes: DEFAULT_MAX_FILE_SIZE_BYTES,
            max_open_files: DEFAULT_MAX_OPEN_FILES,
        }
    }

    /// Every limit is positive and no larger than in the fixed profile.
    pub open spec fn valid(self) -> bool {
        &&& 0 < self.max_processes <= DEFAULT_MAX_PROCESSES
        &&& 0 < self.max_memory_bytes <= DEFAULT_MAX_MEMORY_BYTES
        &&& 0 < self.max_cpu_cores <= DEFAULT_MAX_CPU_CORES
        &&& 0 < self.max_wall_time.nanoseconds <= DEFAULT_MAX_WALL_NANOSECONDS
        &&& 0 < self.max_file_size_bytes <= DEFAULT_MAX_FILE_SIZE_BYTES
        &&& 0 < self.max_open_files <= DEFAULT_MAX_OPEN_FILES
    }

    /// Whether every limit is positive and no larger than in the fixed profile.
    pub fn validate(&self) -> (valid: bool)
        ensures
            valid == self.valid(),
    {
        0 < self.max_processes && self.max_processes <= DEFAULT_MAX_PROCESSES && 0
            < self.max_memory_bytes && self.max_memory_bytes <= DEFAULT_MAX_MEMORY_BYTES && 0
            < self.max_cpu_cores && self.max_cpu_cores <= DEFAULT_MAX_CPU_CORES && 0
            < self.max_wall_time.nanoseconds && self.max_wall_time.nanoseconds
            <= DEFAULT_MAX_WALL_NANOSECONDS && 0 < self.max_file_size_bytes
            && self.max_file_size_bytes <= DEFAULT_MAX_FILE_SIZE_BYTES && 0 < self.max_open_files
            && self.max_open_files <= DEFAULT_MAX_OPEN_FILES
    }
}

impl Default for ResourceLimits {
    fn default() -> (limits: Self)
        ensures
            limits == ResourceLimits::standard(),
            limits.valid(),
    {
        ResourceLimits {
            max_processes: DEFAULT_MAX_PROCESSES,
            max_memory_bytes: DEFAULT_MAX_MEMORY_BYTES,
            max_cpu_cores: DEFAULT_MAX_CPU_CORES,
            max_wall_time: TimeSpan { nanoseconds: DEFAULT_MAX_WALL_NANOSECONDS },
            max_file_size_bytes: DEFAULT_MAX_FILE_SIZE_BYTES,
            max_open_files: DEFAULT_MAX_OPEN_FILES,
        }
    }
}

/// Platform-neutral description of the capabilities a child process receives.
#[derive(Debug)]
pub struct SandboxPolicy {
    pub network: NetworkAccess,
    /// Host paths that may be modified persistently.
    pub writable_paths: Vec<PathText>,
    /// Host paths that must not be visible to the child.
    pub hidden_paths: Vec<PathText>,
    /// Paths replaced by private, non-persistent filesystems.
    pub private_paths: Vec<PathText>,
    /// Source roots that must remain readable when a private path masks them.
    pub read_only_paths: Vec<PathText>,
    /// Environment variables removed before the child is started.
    pub remove_environment: Vec<OsText>,
    /// The resource budget of the child and its descendants.
    pub resources: ResourceLimits,
}

/// What a `SandboxPolicy` grants and denies.
pub struct PolicyRules {
    pub network: NetworkAccess,
    pub writable_paths: Seq<Seq<u8>>,
    pub hidden_paths: Seq<Seq<u8>>,
    pub private_paths: Seq<Seq<u8>>,
    pub read_only_paths: Seq<Seq<u8>>,
    pub remove_environment: Seq<Seq<u8>>,
    pub resources: ResourceLimits,
}

impl PolicyRules {
    /// No network, no paths, the fixed resource profile.
    pub open spec fn standard() -> PolicyRules {
        PolicyRules {
            network: NetworkAccess::Deny,
            writable_paths: Seq::empty(),
            hidden_paths: Seq::empty(),
            private_paths: Seq::empty(),
            read_only_paths: Seq::empty(),
            remove_environment: Seq::empty(),
            resources: ResourceLimits::standard(),
        }
    }
}

impl View for SandboxPolicy {
    type V = PolicyRules;

    open spec fn view(&self) -> PolicyRules {
        PolicyRules {
            network: self.network,
            writable_paths: os::texts(self.writable_paths@),
            hidden_paths: os::texts(self.hidden_paths@),
            private_paths: os::texts(self.private_paths@),
            read_only_paths: os::texts(self.read_only_paths@),
            remove_environment: os::texts(self.remove_environment@),
            resources: self.resources,
        }
    }
}

impl Clone for SandboxPolicy {
    fn clone(&self) -> (copy: Self)
        ensures
            copy@ == self@,
    {
        SandboxPolicy {
            network: self.network,
            writable_paths: os::copy_texts(&self.writable_paths),
            hidden_paths: os::copy_texts(&self.hidden_paths),
            private_paths: os::copy_texts(&self.private_paths),
            read_only_paths: os::copy_texts(&self.read_only_paths),
            remove_environment: os::copy_texts(&self.remove_environment),
            resources: self.resources,
        }
    }
}

impl Default for SandboxPolicy {
    fn default() -> (policy: Self)
        ensures
            policy@ == PolicyRules::standard(),
    {
        let policy = SandboxPolicy {
            network: NetworkAccess::Deny,
            writable_paths: Vec::new(),
            hidden_paths: Vec::new(),
            private_paths: Vec::new(),
            read_only_paths: Vec::new(),
            remove_environment: Vec::new(),
            resources: ResourceLimits::default(),
        };
        assert(os::texts(Seq::<OsText>::empty()) =~= Seq::empty());
        policy
    }
}

/// The host variables that a Cargo process may receive.
#[verifier::opaque]
pub open spec fn forwarded_name(name: Seq<u8>) -> bool {
    ||| name == os::lit("USER")
    ||| name == os::lit("LOGNAME")
    ||| name == os::lit("LANG")
    ||| name == os::lit("LANGUAGE")
    ||| name == os::lit("LC_ALL")
    ||| name == os::lit("LC_ADDRESS")
    ||| name == os::lit("LC_COLLATE")
    ||| name == os::lit("LC_CTYPE")
    ||| name == os::lit("LC_IDENTIFICATION")
    ||| name == os::lit("LC_MEASUREMENT")
    ||| name == os::lit("LC_MESSAGES")
    ||| name == os::lit("LC_MONETARY")
    ||| name == os::lit("LC_NAME")
    ||| name == os::lit("LC_NUMERIC")
    ||| name == os::lit("LC_PAPER")
    ||| name == os::lit("LC_TELEPHONE")
    ||| name == os::lit("LC_TIME")
    ||| name == os::lit("TERM")
    ||| name == os::lit("COLORTERM")
    ||| name == os::lit("COLUMNS")
    ||| name == os::lit("LINES")
    ||| name == os::lit("CARGO_TERM_COLOR")
    ||| name == os::lit("CARGO_TERM_VERBOSE")
    ||| name == os::lit("CARGO_TERM_PROGRESS_WHEN")
    ||| name == os::lit("CARGO_INCREMENTAL")
    ||| name == os::lit("CARGO_BUILD_JOBS")
    ||| name == os::lit("CARGO_BUILD_TARGET")
    ||| name == os::lit("CARGO_ENCODED_RUSTFLAGS")
    ||| name == os::lit("CARGO_ENCODED_RUSTDOCFLAGS")
    ||| name == os::lit("RUSTFLAGS")
    ||| name == os::lit("RUSTDOCFLAGS")
    ||| name == os::lit("CC")
    ||| name == os::lit("CXX")
    ||| name == os::lit("AR")
    ||| name == os::lit("RANLIB")
    ||| name == os::lit("CFLAGS")
    ||| name == os::lit("CXXFLAGS")
    ||| name == os::lit("CPPFLAGS")
    ||| name == os::lit("PKG_CONFIG")
    ||| name == os::lit("PKG_CONFIG_PATH")
    ||| name == os::lit("PKG_CONFIG_LIBDIR")
    ||| name == os::lit("PKG_CONFIG_SYSROOT_DIR")
}

/// The variables that only the sandbox itself sets.
#[verifier::opaque]
pub open spec fn sandbox_owned_name(name: Seq<u8>) -> bool {
    ||| name == os::lit("HOME")
    ||| name == os::lit("PATH")
    ||| name == os::lit("PWD")
    ||| name == os::lit("RUSTC")
    ||| name == os::lit("RUSTDOC")
    ||| name == os::lit("CARGO_HOME")
    ||| name == os::lit("CARGO_TARGET_DIR")
    ||| name == os::lit("CARGO_BUILD_BUILD_DIR")
    ||| name == os::lit("CARGO_NET_OFFLINE")
    ||| name == os::lit("TMPDIR")
}

/// A byte with ASCII letters in upper case.
pub open spec fn upper_byte(byte: u8) -> u8 {
    if 97 <= byte <= 122 {
        (byte - 32) as u8
    } else {
        byte
    }
}

pub open spec fn upper(name: Seq<u8>) -> Seq<u8> {
    name.map_values(|byte: u8| upper_byte(byte))
}

/// The upper-case names that carry secrets, credentials or agent endpoints.
#[verifier::opaque]
pub open spec fn sensitive_upper(name: Seq<u8>) -> bool {
    ||| os::lit("AWS_").is_prefix_of(name)
    ||| name == os::lit("TOKEN")
    ||| os::lit("_TOKEN").is_suffix_of(name)
    ||| os::lit("_TOKENS").is_suffix_of(name)
    ||| name == os::lit("PASSWORD")
    ||| os::lit("_PASSWORD").is_suffix_of(name)
    ||| name == os::lit("PASS")
    ||| os::lit("_PASS").is_suffix_of(name)
    ||| name == os::lit("SECRET")
    ||| os::lit("_SECRET").is_suffix_of(name)
    ||| os::lit("_SECRET_KEY").is_suffix_of(name)
    ||| name == os::lit("CREDENTIAL")
    ||| os::lit("_CREDENTIAL").is_suffix_of(name)
    ||| name == os::lit("PRIVATE_KEY")
    ||| os::lit("_PRIVATE_KEY").is_suffix_of(name)
    ||| name == os::lit("API_KEY")
    ||| os::lit("_API_KEY").is_suffix_of(name)
    ||| name == os::lit("ACCESS_KEY")
    ||| os::lit("_ACCESS_KEY").is_suffix_of(name)
    ||| os::lit("SSH_").is_prefix_of(name)
    ||| os::lit("GPG_").is_prefix_of(name)
    ||| os::lit("_AGENT").is_suffix_of(name)
    ||| os::lit("_AGENT_INFO").is_suffix_of(name)
    ||| os::lit("_AGENT_PID").is_suffix_of(name)
    ||| os::lit("_AUTH_SOCK").is_suffix_of(name)
}

/// Text, read without regard to case, that names a secret.
pub open spec fn sensitive_name(name: Seq<u8>) -> bool {
    valid_utf8(name) && sensitive_upper(upper(name))
}

fn upper_case(name: &Vec<u8>) -> (raised: Vec<u8>)
    ensures
        raised@ == upper(name@),
{
    let mut raised: Vec<u8> = Vec::new();
    let mut index: usize = 0;
    while index < name.len()
        invariant
            index <= name.len(),
            raised@ == upper(name@).take(index as int),
        decreases name.len() - index,
    {
        let byte = name[index];
        raised.push(if 97 <= byte && byte <= 122 { byte - 32 } else { byte });
        index = index + 1;
        assert(raised@ =~= upper(name@).take(index as int));
    }
    assert(upper(name@).take(index as int) =~= upper(name@));
    raised
}

/// Returns whether an environment variable name commonly carries a secret,
/// credential, or host-agent endpoint.
///
/// This deliberately errs on the side of removing a variable. It is shared by
/// the platform-neutral policy layer and every backend so a later backend does
/// not accidentally grow a weaker secret filter.
pub fn is_sensitive_environment_name(name: &OsText) -> (sensitive: bool)
    ensures
        sensitive == sensitive_name(name@),
{
    proof {
        reveal(sensitive_upper);
    }
    if name.as_text().is_none() {
        return false;
    }
    let raised = upper_case(&name.bytes);
    let bytes = raised.as_slice();
    os::starts_with_bytes(bytes, "AWS_".as_bytes())
        || text::same_bytes(bytes, "TOKEN".as_bytes())
        || os::ends_with_bytes(bytes, "_TOKEN".as_bytes())
        || os::ends_with_bytes(bytes, "_TOKENS".as_bytes())
        || text::same_bytes(bytes, "PASSWORD".as_bytes())
        || os::ends_with_bytes(bytes, "_PASSWORD".as_bytes())
        || text::same_bytes(bytes, "PASS".as_bytes())
        || os::ends_with_bytes(bytes, "_PASS".as_bytes())
        || text::same_bytes(bytes, "SECRET".as_bytes())
        || os::ends_with_bytes(bytes, "_SECRET".as_bytes())
        || os::ends_with_bytes(bytes, "_SECRET_KEY".as_bytes())
        || text::same_bytes(bytes, "CREDENTIAL".as_bytes())
        || os::ends_with_bytes(bytes, "_CREDENTIAL".as_bytes())
        || text::same_bytes(bytes, "PRIVATE_KEY".as_bytes())
        || os::ends_with_bytes(bytes, "_PRIVATE_KEY".as_bytes())
        || text::same_bytes(bytes, "API_KEY".as_bytes())
        || os::ends_with_bytes(bytes, "_API_KEY".as_bytes())
        || text::same_bytes(bytes, "ACCESS_KEY".as_bytes())
        || os::ends_with_bytes(bytes, "_ACCESS_KEY".as_bytes())
        || os::starts_with_bytes(bytes, "SSH_".as_bytes())
        || os::starts_with_bytes(bytes, "GPG_".as_bytes())
        || os::ends_with_bytes(bytes, "_AGENT".as_bytes())
        || os::ends_with_bytes(bytes, "_AGENT_INFO".as_bytes())
        || os::ends_with_bytes(bytes, "_AGENT_PID".as_bytes())
        || os::ends_with_bytes(bytes, "_AUTH_SOCK".as_bytes())
}

/// Returns whether a variable may be copied from the caller into a Cargo
/// request. Sandbox-internal values such as `HOME` and `CARGO_TARGET_DIR` are
/// intentionally excluded; the caller constructs those values itself.
pub fn is_allowed_host_environment_name(name: &OsText) -> (allowed: bool)
    ensures
        allowed == forwarded_name(name@),
{
    proof {
        reveal(forwarded_name);
    }
    name.is_text("USER")
        || name.is_text("LOGNAME")
        || name.is_text("LANG")
        || name.is_text("LANGUAGE")
        || name.is_text("LC_ALL")
        || name.is_text("LC_ADDRESS")
        || name.is_text("LC_COLLATE")
        || name.is_text("LC_CTYPE")
        || name.is_text("LC_IDENTIFICATION")
        || name.is_text("LC_MEASUREMENT")
        || name.is_text("LC_MESSAGES")
        || name.is_text("LC_MONETARY")
        || name.is_text("LC_NAME")
        || name.is_text("LC_NUMERIC")
        || name.is_text("LC_PAPER")
        || name.is_text("LC_TELEPHONE")
        || name.is_text("LC_TIME")
        || name.is_text("TERM")
        || name.is_text("COLORTERM")
        || name.is_text("COLUMNS")
        || name.is_text("LINES")
        || name.is_text("CARGO_TERM_COLOR")
        || name.is_text("CARGO_TERM_VERBOSE")
        || name.is_text("CARGO_TERM_PROGRESS_WHEN")
        || name.is_text("CARGO_INCREMENTAL")
        || name.is_text("CARGO_BUILD_JOBS")
        || name.is_text("CARGO_BUILD_TARGET")
        || name.is_text("CARGO_ENCODED_RUSTFLAGS")
        || name.is_text("CARGO_ENCODED_RUSTDOCFLAGS")
        || name.is_text("RUSTFLAGS")
        || name.is_text("RUSTDOCFLAGS")
        || name.is_text("CC")
        || name.is_text("CXX")
        || name.is_text("AR")
        || name.is_text("RANLIB")
        || name.is_text("CFLAGS")
        || name.is_text("CXXFLAGS")
        || name.is_text("CPPFLAGS")
        || name.is_text("PKG_CONFIG")
        || name.is_text("PKG_CONFIG_PATH")
        || name.is_text("PKG_CONFIG_LIBDIR")
        || name.is_text("PKG_CONFIG_SYSROOT_DIR")
}

/// Returns whether a variable is part of the deliberately small environment
/// that a sandboxed Cargo process may receive.
pub fn is_allowed_sandbox_environment_name(name: &OsText) -> (allowed: bool)
    ensures
        allowed == (forwarded_name(name@) || sandbox_owned_name(name@)),
{
    proof {
        reveal(sandbox_owned_name);
    }
    is_allowed_host_environment_name(name) || name.is_text("HOME")
        || name.is_text("PATH")
        || name.is_text("PWD")
        || name.is_text("RUSTC")
        || name.is_text("RUSTDOC")
        || name.is_text("CARGO_HOME")
        || name.is_text("CARGO_TARGET_DIR")
        || name.is_text("CARGO_BUILD_BUILD_DIR")
        || name.is_text("CARGO_NET_OFFLINE")
        || name.is_text("TMPDIR")
}

/// The last four bytes of a name.
spec fn ends(name: Seq<u8>, a: u8, b: u8, c: u8, d: u8) -> bool {
    let n = name.len();
    n >= 4 && name[n - 4] == a && name[n - 3] == b && name[n - 2] == c && name[n - 1] == d
}

/// The first three bytes of a name.
spec fn begins(name: Seq<u8>, a: u8, b: u8, c: u8) -> bool {
    name.len() >= 3 && name[0] == a && name[1] == b && name[2] == c
}

/// How every sensitive name begins or ends.
spec fn sensitive_shape(name: Seq<u8>) -> bool {
    ||| begins(name, 65, 87, 83)
    ||| begins(name, 83, 83, 72)
    ||| begins(name, 71, 80, 71)
    ||| ends(name, 67, 82, 69, 84)
    ||| ends(name, 71, 69, 78, 84)
    ||| ends(name, 73, 78, 70, 79)
    ||| ends(name, 75, 69, 78, 83)
    ||| ends(name, 79, 75, 69, 78)
    ||| ends(name, 80, 65, 83, 83)
    ||| ends(name, 83, 79, 67, 75)
    ||| ends(name, 84, 73, 65, 76)
    ||| ends(name, 87, 79, 82, 68)
    ||| ends(name, 95, 75, 69, 89)
    ||| ends(name, 95, 80, 73, 68)
}

proof fn lemma_prefix(text: &str, name: Seq<u8>)
    requires
        is_ascii_chars(text@),
        text@.len() >= 3,
        os::lit(text).is_prefix_of(name),
    ensures
        begins(name, text@[0] as u8, text@[1] as u8, text@[2] as u8),
{
    os::lemma_lit(text);
    assert(os::lit(text) == name.subrange(0, os::lit(text).len() as int));
    assert(name[0] == os::lit(text)[0] && name[1] == os::lit(text)[1] && name[2] == os::lit(text)[2]);
}

proof fn lemma_suffix(text: &str, name: Seq<u8>)
    requires
        is_ascii_chars(text@),
        text@.len() >= 4,
        os::lit(text).is_suffix_of(name) || name == os::lit(text),
    ensures
        ends(
            name,
            text@[text@.len() - 4] as u8,
            text@[text@.len() - 3] as u8,
            text@[text@.len() - 2] as u8,
            text@[text@.len() - 1] as u8,
        ),
{
    os::lemma_lit(text);
    let tail = os::lit(text);
    let n = name.len();
    assert(tail == name.subrange(n - tail.len(), n as int));
    assert(name[n - 4] == tail[tail.len() - 4]);
    assert(name[n - 3] == tail[tail.len() - 3]);
    assert(name[n - 2] == tail[tail.len() - 2]);
    assert(name[n - 1] == tail[tail.len() - 1]);
}

proof fn lemma_sensitive_shape(name: Seq<u8>)
    requires
        sensitive_upper(name),
    ensures
        sensitive_shape(name),
{
    reveal(sensitive_upper);
    reveal_strlit("AWS_");
    if os::lit("AWS_").is_prefix_of(name) {
        lemma_prefix("AWS_", name);
    }
    reveal_strlit("TOKEN");
    if name == os::lit("TOKEN") {
        lemma_suffix("TOKEN", name);
    }
    reveal_strlit("_TOKEN");
    if os::lit("_TOKEN").is_suffix_of(name) {
        lemma_suffix("_TOKEN", name);
    }
    reveal_strlit("_TOKENS");
    if os::lit("_TOKENS").is_suffix_of(name) {
        lemma_suffix("_TOKENS", name);
    }
    reveal_strlit("PASSWORD");
    if name == os::lit("PASSWORD") {
        lemma_suffix("PASSWORD", name);
    }
    reveal_strlit("_PASSWORD");
    if os::lit("_PASSWORD").is_suffix_of(name) {
        lemma_suffix("_PASSWORD", name);
    }
    reveal_strlit("PASS");
    if name == os::lit("PASS") {
        lemma_suffix("PASS", name);
    }
    reveal_strlit("_PASS");
    if os::lit("_PASS").is_suffix_of(name) {
        lemma_suffix("_PASS", name);
    }
    reveal_strlit("SECRET");
    if name == os::lit("SECRET") {
        lemma_suffix("SECRET", name);
    }
    reveal_strlit("_SECRET");
    if os::lit("_SECRET").is_suffix_of(name) {
        lemma_suffix("_SECRET", name);
    }
    reveal_strlit("_SECRET_KEY");
    if os::lit("_SECRET_KEY").is_suffix_of(name) {
        lemma_suffix("_SECRET_KEY", name);
    }
    reveal_strlit("CREDENTIAL");
    if name == os::lit("CREDENTIAL") {
        lemma_suffix("CREDENTIAL", name);
    }
    reveal_strlit("_CREDENTIAL");
    if os::lit("_CREDENTIAL").is_suffix_of(name) {
        lemma_suffix("_CREDENTIAL", name);
    }
    reveal_strlit("PRIVATE_KEY");
    if name == os::lit("PRIVATE_KEY") {
        lemma_suffix("PRIVATE_KEY", name);
    }
    reveal_strlit("_PRIVATE_KEY");
    if os::lit("_PRIVATE_KEY").is_suffix_of(name) {
        lemma_suffix("_PRIVATE_KEY", name);
    }
    reveal_strlit("API_KEY");
    if name == os::lit("API_KEY") {
        lemma_suffix("API_KEY", name);
    }
    reveal_strlit("_API_KEY");
    if os::lit("_API_KEY").is_suffix_of(name) {
        lemma_suffix("_API_KEY", name);
    }
    reveal_strlit("ACCESS_KEY");
    if name == os::lit("ACCESS_KEY") {
        lemma_suffix("ACCESS_KEY", name);
    }
    reveal_strlit("_ACCESS_KEY");
    if os::lit("_ACCESS_KEY").is_suffix_of(name) {
        lemma_suffix("_ACCESS_KEY", name);
    }
    reveal_strlit("SSH_");
    if os::lit("SSH_").is_prefix_of(name) {
        lemma_prefix("SSH_", name);
    }
    reveal_strlit("GPG_");
    if os::lit("GPG_").is_prefix_of(name) {
        lemma_prefix("GPG_", name);
    }
    reveal_strlit("_AGENT");
    if os::lit("_AGENT").is_suffix_of(name) {
        lemma_suffix("_AGENT", name);
    }
    reveal_strlit("_AGENT_INFO");
    if os::lit("_AGENT_INFO").is_suffix_of(name) {
        lemma_suffix("_AGENT_INFO", name);
    }
    reveal_strlit("_AGENT_PID");
    if os::lit("_AGENT_PID").is_suffix_of(name) {
        lemma_suffix("_AGENT_PID", name);
    }
    reveal_strlit("_AUTH_SOCK");
    if os::lit("_AUTH_SOCK").is_suffix_of(name) {
        lemma_suffix("_AUTH_SOCK", name);
    }
}

#[verifier::opaque]
spec fn harmless(name: Seq<u8>) -> bool {
    !sensitive_name(name)
}

proof fn lemma_not_sensitive(text: &str)
    requires
        is_ascii_chars(text@),
        forall|i: int| 0 <= i < text@.len() ==> text@[i] < 'a',
        !sensitive_shape(Seq::new(text@.len(), |i: int| text@[i] as u8)),
    ensures
        harmless(os::lit(text)),
{
    reveal(harmless);
    os::lemma_lit(text);
    let name = os::lit(text);
    assert(name =~= Seq::new(text@.len(), |i: int| text@[i] as u8));
    assert(upper(name) =~= name);
    if sensitive_upper(name) {
        lemma_sensitive_shape(name);
    }
}

#[verifier::rlimit(30)]
proof fn lemma_harmless_a()
    ensures
        harmless(os::lit("USER")),
        harmless(os::lit("LOGNAME")),
        harmless(os::lit("LANG")),
        harmless(os::lit("LANGUAGE")),
        harmless(os::lit("LC_ALL")),
        harmless(os::lit("LC_ADDRESS")),
{
    assert(harmless(os::lit("USER"))) by {
        reveal_strlit("USER");
        lemma_not_sensitive("USER");
    }
    assert(harmless(os::lit("LOGNAME"))) by {
        reveal_strlit("LOGNAME");
        lemma_not_sensitive("LOGNAME");
    }
    assert(harmless(os::lit("LANG"))) by {
        reveal_strlit("LANG");
        lemma_not_sensitive("LANG");
    }
    assert(harmless(os::lit("LANGUAGE"))) by {
        reveal_strlit("LANGUAGE");
        lemma_not_sensitive("LANGUAGE");
    }
    assert(harmless(os::lit("LC_ALL"))) by {
        reveal_strlit("LC_ALL");
        lemma_not_sensitive("LC_ALL");
    }
    assert(harmless(os::lit("LC_ADDRESS"))) by {
        reveal_strlit("LC_ADDRESS");
        lemma_not_sensitive("LC_ADDRESS");
    }
}

#[verifier::rlimit(30)]
proof fn lemma_harmless_b()
    ensures
        harmless(os::lit("LC_COLLATE")),
        harmless(os::lit("LC_CTYPE")),
        harmless(os::lit("LC_IDENTIFICATION")),
        harmless(os::lit("LC_MEASUREMENT")),
        harmless(os::lit("LC_MESSAGES")),
        harmless(os::lit("LC_MONETARY")),
{
    assert(harmless(os::lit("LC_COLLATE"))) by {
        reveal_strlit("LC_COLLATE");
        lemma_not_sensitive("LC_COLLATE");
    }
    assert(harmless(os::lit("LC_CTYPE"))) by {
        reveal_strlit("LC_CTYPE");
        lemma_not_sensitive("LC_CTYPE");
    }
    assert(harmless(os::lit("LC_IDENTIFICATION"))) by {
        reveal_strlit("LC_IDENTIFICATION");
        lemma_not_sensitive("LC_IDENTIFICATION");
    }
    assert(harmless(os::lit("LC_MEASUREMENT"))) by {
        reveal_strlit("LC_MEASUREMENT");
        lemma_not_sensitive("LC_MEASUREMENT");
    }
    assert(harmless(os::lit("LC_MESSAGES"))) by {
        reveal_strlit("LC_MESSAGES");
        lemma_not_sensitive("LC_MESSAGES");
    }
    assert(harmless(os::lit("LC_MONETARY"))) by {
        reveal_strlit("LC_MONETARY");
        lemma_not_sensitive("LC_MONETARY");
    }
}

#[verifier::rlimit(30)]
proof fn lemma_harmless_c()
    ensures
        harmless(os::lit("LC_NAME")),
        harmless(os::lit("LC_NUMERIC")),
        harmless(os::lit("LC_PAPER")),
        harmless(os::lit("LC_TELEPHONE")),
        harmless(os::lit("LC_TIME")),
        harmless(os::lit("TERM")),
{
    assert(harmless(os::lit("LC_NAME"))) by {
        reveal_strlit("LC_NAME");
        lemma_not_sensitive("LC_NAME");
    }
    assert(harmless(os::lit("LC_NUMERIC"))) by {
        reveal_strlit("LC_NUMERIC");
        lemma_not_sensitive("LC_NUMERIC");
    }
    assert(harmless(os::lit("LC_PAPER"))) by {
        reveal_strlit("LC_PAPER");
        lemma_not_sensitive("LC_PAPER");
    }
    assert(harmless(os::lit("LC_TELEPHONE"))) by {
        reveal_strlit("LC_TELEPHONE");
        lemma_not_sensitive("LC_TELEPHONE");
    }
    assert(harmless(os::lit("LC_TIME"))) by {
        reveal_strlit("LC_TIME");
        lemma_not_sensitive("LC_TIME");
    }
    assert(harmless(os::lit("TERM"))) by {
        reveal_strlit("TERM");
        lemma_not_sensitive("TERM");
    }
}

#[verifier::rlimit(30)]
proof fn lemma_harmless_d()
    ensures
        harmless(os::lit("COLORTERM")),
        harmless(os::lit("COLUMNS")),
        harmless(os::lit("LINES")),
        harmless(os::lit("CARGO_TERM_COLOR")),
        harmless(os::lit("CARGO_TERM_VERBOSE")),
        harmless(os::lit("CARGO_TERM_PROGRESS_WHEN")),
{
    assert(harmless(os::lit("COLORTERM"))) by {
        reveal_strlit("COLORTERM");
        lemma_not_sensitive("COLORTERM");
    }
    assert(harmless(os::lit("COLUMNS"))) by {
        reveal_strlit("COLUMNS");
        lemma_not_sensitive("COLUMNS");
    }
    assert(harmless(os::lit("LINES"))) by {
        reveal_strlit("LINES");
        lemma_not_sensitive("LINES");
    }
    assert(harmless(os::lit("CARGO_TERM_COLOR"))) by {
        reveal_strlit("CARGO_TERM_COLOR");
        lemma_not_sensitive("CARGO_TERM_COLOR");
    }
    assert(harmless(os::lit("CARGO_TERM_VERBOSE"))) by {
        reveal_strlit("CARGO_TERM_VERBOSE");
        lemma_not_sensitive("CARGO_TERM_VERBOSE");
    }
    assert(harmless(os::lit("CARGO_TERM_PROGRESS_WHEN"))) by {
        reveal_strlit("CARGO_TERM_PROGRESS_WHEN");
        lemma_not_sensitive("CARGO_TERM_PROGRESS_WHEN");
    }
}

#[verifier::rlimit(30)]
proof fn lemma_harmless_e()
    ensures
        harmless(os::lit("CARGO_INCREMENTAL")),
        harmless(os::lit("CARGO_BUILD_JOBS")),
        harmless(os::lit("CARGO_BUILD_TARGET")),
        harmless(os::lit("CARGO_ENCODED_RUSTFLAGS")),
        harmless(os::lit("CARGO_ENCODED_RUSTDOCFLAGS")),
        harmless(os::lit("RUSTFLAGS")),
{
    assert(harmless(os::lit("CARGO_INCREMENTAL"))) by {
        reveal_strlit("CARGO_INCREMENTAL");
        lemma_not_sensitive("CARGO_INCREMENTAL");
    }
    assert(harmless(os::lit("CARGO_BUILD_JOBS"))) by {
        reveal_strlit("CARGO_BUILD_JOBS");
        lemma_not_sensitive("CARGO_BUILD_JOBS");
    }
    assert(harmless(os::lit("CARGO_BUILD_TARGET"))) by {
        reveal_strlit("CARGO_BUILD_TARGET");
        lemma_not_sensitive("CARGO_BUILD_TARGET");
    }
    assert(harmless(os::lit("CARGO_ENCODED_RUSTFLAGS"))) by {
        reveal_strlit("CARGO_ENCODED_RUSTFLAGS");
        lemma_not_sensitive("CARGO_ENCODED_RUSTFLAGS");
    }
    assert(harmless(os::lit("CARGO_ENCODED_RUSTDOCFLAGS"))) by {
        reveal_strlit("CARGO_ENCODED_RUSTDOCFLAGS");
        lemma_not_sensitive("CARGO_ENCODED_RUSTDOCFLAGS");
    }
    assert(harmless(os::lit("RUSTFLAGS"))) by {
        reveal_strlit("RUSTFLAGS");
        lemma_not_sensitive("RUSTFLAGS");
    }
}

#[verifier::rlimit(30)]
proof fn lemma_harmless_f()
    ensures
        harmless(os::lit("RUSTDOCFLAGS")),
        harmless(os::lit("CC")),
        harmless(os::lit("CXX")),
        harmless(os::lit("AR")),
        harmless(os::lit("RANLIB")),
        harmless(os::lit("CFLAGS")),
{
    assert(harmless(os::lit("RUSTDOCFLAGS"))) by {
        reveal_strlit("RUSTDOCFLAGS");
        lemma_not_sensitive("RUSTDOCFLAGS");
    }
    assert(harmless(os::lit("CC"))) by {
        reveal_strlit("CC");
        lemma_not_sensitive("CC");
    }
    assert(harmless(os::lit("CXX"))) by {
        reveal_strlit("CXX");
        lemma_not_sensitive("CXX");
    }
    assert(harmless(os::lit("AR"))) by {
        reveal_strlit("AR");
        lemma_not_sensitive("AR");
    }
    assert(harmless(os::lit("RANLIB"))) by {
        reveal_strlit("RANLIB");
        lemma_not_sensitive("RANLIB");
    }
    assert(harmless(os::lit("CFLAGS"))) by {
        reveal_strlit("CFLAGS");
        lemma_not_sensitive("CFLAGS");
    }
}

#[verifier::rlimit(30)]
proof fn lemma_harmless_g()
    ensures
        harmless(os::lit("CXXFLAGS")),
        harmless(os::lit("CPPFLAGS")),
        harmless(os::lit("PKG_CONFIG")),
        harmless(os::lit("PKG_CONFIG_PATH")),
        harmless(os::lit("PKG_CONFIG_LIBDIR")),
        harmless(os::lit("PKG_CONFIG_SYSROOT_DIR")),
{
    assert(harmless(os::lit("CXXFLAGS"))) by {
        reveal_strlit("CXXFLAGS");
        lemma_not_sensitive("CXXFLAGS");
    }
    assert(harmless(os::lit("CPPFLAGS"))) by {
        reveal_strlit("CPPFLAGS");
        lemma_not_sensitive("CPPFLAGS");
    }
    assert(harmless(os::lit("PKG_CONFIG"))) by {
        reveal_strlit("PKG_CONFIG");
        lemma_not_sensitive("PKG_CONFIG");
    }
    assert(harmless(os::lit("PKG_CONFIG_PATH"))) by {
        reveal_strlit("PKG_CONFIG_PATH");
        lemma_not_sensitive("PKG_CONFIG_PATH");
    }
    assert(harmless(os::lit("PKG_CONFIG_LIBDIR"))) by {
        reveal_strlit("PKG_CONFIG_LIBDIR");
        lemma_not_sensitive("PKG_CONFIG_LIBDIR");
    }
    assert(harmless(os::lit("PKG_CONFIG_SYSROOT_DIR"))) by {
        reveal_strlit("PKG_CONFIG_SYSROOT_DIR");
        lemma_not_sensitive("PKG_CONFIG_SYSROOT_DIR");
    }
}

#[verifier::rlimit(30)]
proof fn lemma_harmless_h()
    ensures
        harmless(os::lit("HOME")),
        harmless(os::lit("PATH")),
        harmless(os::lit("PWD")),
        harmless(os::lit("RUSTC")),
        harmless(os::lit("RUSTDOC")),
        harmless(os::lit("CARGO_HOME")),
{
    assert(harmless(os::lit("HOME"))) by {
        reveal_strlit("HOME");
        lemma_not_sensitive("HOME");
    }
    assert(harmless(os::lit("PATH"))) by {
        reveal_strlit("PATH");
        lemma_not_sensitive("PATH");
    }
    assert(harmless(os::lit("PWD"))) by {
        reveal_strlit("PWD");
        lemma_not_sensitive("PWD");
    }
    assert(harmless(os::lit("RUSTC"))) by {
        reveal_strlit("RUSTC");
        lemma_not_sensitive("RUSTC");
    }
    assert(harmless(os::lit("RUSTDOC"))) by {
        reveal_strlit("RUSTDOC");
        lemma_not_sensitive("RUSTDOC");
    }
    assert(harmless(os::lit("CARGO_HOME"))) by {
        reveal_strlit("CARGO_HOME");
        lemma_not_sensitive("CARGO_HOME");
    }
}

#[verifier::rlimit(30)]
proof fn lemma_harmless_i()
    ensures
        harmless(os::lit("CARGO_TARGET_DIR")),
        harmless(os::lit("CARGO_BUILD_BUILD_DIR")),
        harmless(os::lit("CARGO_NET_OFFLINE")),
        harmless(os::lit("TMPDIR")),
{
    assert(harmless(os::lit("CARGO_TARGET_DIR"))) by {
        reveal_strlit("CARGO_TARGET_DIR");
        lemma_not_sensitive("CARGO_TARGET_DIR");
    }
    assert(harmless(os::lit("CARGO_BUILD_BUILD_DIR"))) by {
        reveal_strlit("CARGO_BUILD_BUILD_DIR");
        lemma_not_sensitive("CARGO_BUILD_BUILD_DIR");
    }
    assert(harmless(os::lit("CARGO_NET_OFFLINE"))) by {
        reveal_strlit("CARGO_NET_OFFLINE");
        lemma_not_sensitive("CARGO_NET_OFFLINE");
    }
    assert(harmless(os::lit("TMPDIR"))) by {
        reveal_strlit("TMPDIR");
        lemma_not_sensitive("TMPDIR");
    }
}

/// A variable that a sandboxed Cargo process may receive never has a name that
/// counts as sensitive.
pub proof fn allowed_names_are_not_sensitive(name: Seq<u8>)
    requires
        forwarded_name(name) || sandbox_owned_name(name),
    ensures
        !sensitive_name(name),
{
    reveal(sandbox_owned_name);
    reveal(forwarded_name);
    lemma_harmless_a();
    lemma_harmless_b();
    lemma_harmless_c();
    lemma_harmless_d();
    lemma_harmless_e();
    lemma_harmless_f();
    lemma_harmless_g();
    lemma_harmless_h();
    lemma_harmless_i();
    assert(harmless(name));
    reveal(harmless);
}

} // verus!
