//! What the command lines of Bubblewrap and of the launcher say.

use crate::bwrap;
use crate::bwrap::{Mount, Mounts, Source};
use crate::order;
use crate::os;
use crate::path;
use crate::plan::{Layout, Mask};
use crate::policy::{EnvironmentRules, NetworkAccess};
use crate::runs;
use crate::text;
use vstd::prelude::*;
use vstd::string::*;
use vstd::utf8::*;

verus! {

// ---------------------------------------------------------------------------
// Lists of options
// ---------------------------------------------------------------------------

proof fn lemma_pushed(front: Seq<Seq<u8>>, run: Seq<Seq<u8>>, whole: Seq<Seq<u8>>)
    requires
        whole == front + run,
    ensures
        runs::holds_run(whole, run),
        forall|other: Seq<Seq<u8>>|
            runs::holds_run(front, other) ==> #[trigger] runs::holds_run(whole, other),
{
    runs::lemma_whole(run);
    runs::lemma_parts_hold(front, run);
}

proof fn lemma_option_each(option: Seq<u8>, values: Seq<Seq<u8>>, count: int)
    requires
        0 <= count <= values.len(),
    ensures
        forall|i: int|
            0 <= i < count ==> runs::holds_run(
                bwrap::option_each(option, values, count),
                seq![option, #[trigger] values[i]],
            ),
    decreases count,
{
    if count > 0 {
        lemma_option_each(option, values, count - 1);
        let front = bwrap::option_each(option, values, count - 1);
        let run = seq![option, values[count - 1]];
        let whole = bwrap::option_each(option, values, count);
        assert(whole =~= front + run);
        lemma_pushed(front, run, whole);
    }
}

proof fn lemma_bind_each(option: Seq<u8>, paths: Seq<Seq<u8>>, count: int)
    requires
        0 <= count <= paths.len(),
    ensures
        forall|i: int|
            0 <= i < count ==> runs::holds_run(
                bwrap::bind_each(option, paths, count),
                seq![option, #[trigger] paths[i], paths[i]],
            ),
    decreases count,
{
    if count > 0 {
        lemma_bind_each(option, paths, count - 1);
        let front = bwrap::bind_each(option, paths, count - 1);
        let run = seq![option, paths[count - 1], paths[count - 1]];
        let whole = bwrap::bind_each(option, paths, count);
        assert(whole =~= front + run);
        lemma_pushed(front, run, whole);
    }
}

proof fn lemma_set_each(pairs: Seq<(Seq<u8>, Seq<u8>)>, count: int)
    requires
        0 <= count <= pairs.len(),
    ensures
        forall|i: int|
            0 <= i < count ==> runs::holds_run(
                bwrap::set_each(pairs, count),
                seq![os::lit("--setenv"), (#[trigger] pairs[i]).0, pairs[i].1],
            ),
        forall|i: int, j: int|
            0 <= i < j < count ==> runs::holds_in_order(
                bwrap::set_each(pairs, count),
                seq![os::lit("--setenv"), (#[trigger] pairs[i]).0, pairs[i].1],
                seq![os::lit("--setenv"), (#[trigger] pairs[j]).0, pairs[j].1],
            ),
    decreases count,
{
    if count > 0 {
        lemma_set_each(pairs, count - 1);
        let front = bwrap::set_each(pairs, count - 1);
        let run = seq![os::lit("--setenv"), pairs[count - 1].0, pairs[count - 1].1];
        let whole = bwrap::set_each(pairs, count);
        assert(whole =~= front + run);
        runs::lemma_whole(run);
        runs::lemma_parts_hold(front, run);
    }
}

/// How a hidden path is covered.
pub open spec fn cover(mask: Mask) -> Seq<Seq<u8>> {
    match mask {
        Mask::Directory(path) => seq![os::lit("--tmpfs"), path],
        Mask::File(path) => seq![os::lit("--ro-bind"), os::lit("/dev/null"), path],
    }
}

proof fn lemma_mask_each(hidden: Seq<Mask>, count: int)
    requires
        0 <= count <= hidden.len(),
    ensures
        forall|i: int|
            0 <= i < count ==> runs::holds_run(
                bwrap::mask_each(hidden, count),
                cover(#[trigger] hidden[i]),
            ),
    decreases count,
{
    if count > 0 {
        lemma_mask_each(hidden, count - 1);
        let front = bwrap::mask_each(hidden, count - 1);
        let whole = bwrap::mask_each(hidden, count);
        assert(whole =~= front + cover(hidden[count - 1]));
        lemma_pushed(front, cover(hidden[count - 1]), whole);
    }
}

proof fn lemma_hidden_directories(hidden: Seq<Mask>, count: int)
    requires
        0 <= count <= hidden.len(),
    ensures
        forall|i: int|
            0 <= i < count && (#[trigger] hidden[i]) is Directory ==> bwrap::hidden_directories(
                hidden,
                count,
            ).contains(hidden[i]->Directory_0),
    decreases count,
{
    if count > 0 {
        lemma_hidden_directories(hidden, count - 1);
        let before = bwrap::hidden_directories(hidden, count - 1);
        let after = bwrap::hidden_directories(hidden, count);
        assert forall|i: int|
            0 <= i < count && (#[trigger] hidden[i]) is Directory implies after.contains(
            hidden[i]->Directory_0,
        ) by {
            let path = hidden[i]->Directory_0;
            if i == count - 1 {
                assert(after[before.len() as int] == path);
            } else {
                let k = choose|k: int| 0 <= k < before.len() && before[k] == path;
                assert(after[k] == path);
            }
        }
    }
}

/// How a mount is spelled: its option, where it comes from and where it is
/// shown.
pub open spec fn spelled_mount(read_only: bool, mount: Mount) -> Seq<Seq<u8>> {
    match mount.source {
        Source::Path(path) => if read_only {
            seq![os::lit("--ro-bind"), path, mount.destination]
        } else {
            seq![os::lit("--bind"), path, mount.destination]
        },
        Source::Fd(fd) => if read_only {
            seq![
                os::lit("--ro-bind-fd"),
                encode_utf8(text::signed_decimal(fd as int)),
                mount.destination,
            ]
        } else {
            seq![
                os::lit("--bind-fd"),
                encode_utf8(text::signed_decimal(fd as int)),
                mount.destination,
            ]
        },
    }
}

proof fn lemma_mount_each(read_only: bool, list: Seq<Mount>, count: int)
    requires
        0 <= count <= list.len(),
    ensures
        forall|i: int|
            0 <= i < count ==> runs::holds_run(
                bwrap::mount_each(read_only, list, count),
                spelled_mount(read_only, #[trigger] list[i]),
            ),
    decreases count,
{
    if count > 0 {
        lemma_mount_each(read_only, list, count - 1);
        let front = bwrap::mount_each(read_only, list, count - 1);
        let run = spelled_mount(read_only, list[count - 1]);
        let whole = bwrap::mount_each(read_only, list, count);
        assert(whole =~= front + run);
        lemma_pushed(front, run, whole);
    }
}

// ---------------------------------------------------------------------------
// Isolation and environment
// ---------------------------------------------------------------------------

/// The options that every sandbox is started with.
#[verifier::opaque]
pub open spec fn isolates(words: Seq<Seq<u8>>) -> bool {
    &&& runs::holds_run(words, seq![os::lit("--unshare-user")])
    &&& runs::holds_run(words, seq![os::lit("--unshare-ipc")])
    &&& runs::holds_run(words, seq![os::lit("--unshare-pid")])
    &&& runs::holds_run(words, seq![os::lit("--unshare-uts")])
    &&& runs::holds_run(words, seq![os::lit("--disable-userns")])
    &&& runs::holds_run(words, seq![os::lit("--assert-userns-disabled")])
    &&& runs::holds_run(words, seq![os::lit("--cap-drop"), os::lit("ALL")])
    &&& runs::holds_run(words, seq![os::lit("--new-session")])
    &&& runs::holds_run(words, seq![os::lit("--die-with-parent")])
    &&& runs::holds_run(words, seq![os::lit("--hostname"), os::lit("cargo-cage")])
}

proof fn lemma_isolation(network: NetworkAccess, directory: Seq<u8>)
    ensures
        isolates(bwrap::isolation_args(network) + seq![directory]),
        runs::holds_run(
            bwrap::isolation_args(network) + seq![directory],
            seq![os::lit("--chdir"), directory],
        ),
        network == NetworkAccess::Deny ==> runs::holds_run(
            bwrap::isolation_args(network) + seq![directory],
            seq![os::lit("--unshare-net")],
        ),
{
    reveal(isolates);
    let words = bwrap::isolation_args(network) + seq![directory];
    let shift: int = if network == NetworkAccess::Deny {
        1
    } else {
        0
    };
    assert(words.len() == 14 + shift);
    runs::lemma_words(words);
    if network == NetworkAccess::Deny {
        assert(words[0] == os::lit("--unshare-net"));
    }
    assert(words[shift] == os::lit("--unshare-user"));
    assert(words[shift + 1] == os::lit("--unshare-ipc"));
    assert(words[shift + 2] == os::lit("--unshare-pid"));
    assert(words[shift + 3] == os::lit("--unshare-uts"));
    assert(words[shift + 4] == os::lit("--disable-userns"));
    assert(words[shift + 5] == os::lit("--assert-userns-disabled"));
    assert(words[shift + 6] == os::lit("--cap-drop"));
    assert(words[shift + 7] == os::lit("ALL"));
    assert(words[shift + 8] == os::lit("--new-session"));
    assert(words[shift + 9] == os::lit("--die-with-parent"));
    assert(words[shift + 10] == os::lit("--hostname"));
    assert(words[shift + 11] == os::lit("cargo-cage"));
    assert(words[shift + 12] == os::lit("--chdir"));
    assert(words[shift + 13] == directory);
}

/// The variables that the program finds: those to remove are removed, then
/// each one to set is set, in the given order.
#[verifier::opaque]
pub open spec fn sets_up(words: Seq<Seq<u8>>, environment: EnvironmentRules) -> bool {
    &&& forall|i: int|
        0 <= i < environment.remove.len() ==> runs::holds_run(
            words,
            seq![os::lit("--unsetenv"), #[trigger] environment.remove[i]],
        )
    &&& forall|i: int|
        0 <= i < environment.set.len() ==> runs::holds_run(
            words,
            seq![os::lit("--setenv"), (#[trigger] environment.set[i]).0, environment.set[i].1],
        )
    &&& forall|i: int, j: int|
        0 <= i < environment.remove.len() && 0 <= j < environment.set.len()
            ==> runs::holds_in_order(
            words,
            seq![os::lit("--unsetenv"), #[trigger] environment.remove[i]],
            seq![os::lit("--setenv"), (#[trigger] environment.set[j]).0, environment.set[j].1],
        )
    &&& forall|i: int, j: int|
        0 <= i < j < environment.set.len() ==> runs::holds_in_order(
            words,
            seq![os::lit("--setenv"), (#[trigger] environment.set[i]).0, environment.set[i].1],
            seq![os::lit("--setenv"), (#[trigger] environment.set[j]).0, environment.set[j].1],
        )
    &&& !environment.inherit ==> runs::holds_run(words, seq![os::lit("--clearenv")])
    &&& !environment.inherit ==> forall|i: int|
        0 <= i < environment.set.len() ==> runs::holds_in_order(
            words,
            seq![os::lit("--clearenv")],
            seq![os::lit("--setenv"), (#[trigger] environment.set[i]).0, environment.set[i].1],
        )
}

proof fn lemma_environment(environment: EnvironmentRules)
    ensures
        sets_up(bwrap::environment_args(environment), environment),
{
    reveal(sets_up);
    let start: Seq<Seq<u8>> = if environment.inherit {
        Seq::empty()
    } else {
        seq![os::lit("--clearenv")]
    };
    let removed = bwrap::option_all("--unsetenv", environment.remove);
    let set = bwrap::set_each(environment.set, environment.set.len() as int);
    lemma_option_each(
        os::lit("--unsetenv"),
        environment.remove,
        environment.remove.len() as int,
    );
    lemma_set_each(environment.set, environment.set.len() as int);
    runs::lemma_whole(start);
    runs::lemma_parts_hold(start, removed);
    runs::lemma_parts_hold(start + removed, set);
}

/// What a list that holds another holds of a sandbox's setup.
proof fn lemma_kept(part: Seq<Seq<u8>>, front: Seq<Seq<u8>>, back: Seq<Seq<u8>>)
    ensures
        isolates(part) ==> isolates(front + part + back),
        forall|environment: EnvironmentRules| #[trigger]
            sets_up(part, environment) ==> sets_up(front + part + back, environment),
{
    reveal(isolates);
    reveal(sets_up);
    runs::lemma_parts_hold(front, part);
    runs::lemma_parts_hold(front + part, back);
}

/// Whether a command line consists of options and of what stands behind them,
/// from the separator on.
#[verifier::opaque]
pub open spec fn parted(
    command: Seq<Seq<u8>>,
    options: Seq<Seq<u8>>,
    rest: Seq<Seq<u8>>,
) -> bool {
    &&& command == options + rest
    &&& rest.len() > 0
    &&& rest[0] == os::lit("--")
}

/// Whether options make a sandbox as a layout asks for it: new namespaces
/// without capabilities that die with their parent, the requested directory and
/// variables, and no network where it is denied.
#[verifier::opaque]
pub open spec fn starts_as_requested(options: Seq<Seq<u8>>, layout: Layout) -> bool {
    &&& isolates(options)
    &&& runs::holds_run(options, seq![os::lit("--chdir"), layout.current_dir])
    &&& layout.network == NetworkAccess::Deny ==> runs::holds_run(
        options,
        seq![os::lit("--unshare-net")],
    )
    &&& sets_up(options, layout.environment)
}

/// The isolation, the directory and the environment make a sandbox as it is
/// asked for, whatever stands around them.
proof fn lemma_setting(
    front: Seq<Seq<u8>>,
    isolation: Seq<Seq<u8>>,
    directory: Seq<Seq<u8>>,
    environment: Seq<Seq<u8>>,
    home: Seq<Seq<u8>>,
    layout: Layout,
)
    requires
        isolation == bwrap::isolation_args(layout.network),
        directory == seq![layout.current_dir],
        environment == bwrap::environment_args(layout.environment),
    ensures
        starts_as_requested(front + isolation + directory + environment + home, layout),
        runs::holds_run(front + isolation + directory + environment + home, home),
        forall|run: Seq<Seq<u8>>|
            runs::holds_run(front, run) ==> #[trigger] runs::holds_run(
                front + isolation + directory + environment + home,
                run,
            ),
{
    let inner = isolation + directory;
    assert(isolates(inner) && runs::holds_run(inner, seq![os::lit("--chdir"), layout.current_dir])
        && (layout.network == NetworkAccess::Deny ==> runs::holds_run(
        inner,
        seq![os::lit("--unshare-net")],
    ))) by {
        lemma_isolation(layout.network, layout.current_dir);
    }
    assert(sets_up(environment, layout.environment)) by {
        lemma_environment(layout.environment);
    }
    lemma_setting_around(front, inner, environment, home, layout);
    lemma_joined(front, isolation, directory);
}

proof fn lemma_setting_around(
    front: Seq<Seq<u8>>,
    inner: Seq<Seq<u8>>,
    environment: Seq<Seq<u8>>,
    home: Seq<Seq<u8>>,
    layout: Layout,
)
    requires
        isolates(inner),
        runs::holds_run(inner, seq![os::lit("--chdir"), layout.current_dir]),
        layout.network == NetworkAccess::Deny ==> runs::holds_run(
            inner,
            seq![os::lit("--unshare-net")],
        ),
        sets_up(environment, layout.environment),
    ensures
        starts_as_requested(front + inner + environment + home, layout),
        runs::holds_run(front + inner + environment + home, home),
        forall|run: Seq<Seq<u8>>|
            runs::holds_run(front, run) ==> #[trigger] runs::holds_run(
                front + inner + environment + home,
                run,
            ),
{
    reveal(starts_as_requested);
    runs::lemma_whole(home);
    runs::lemma_parts_hold(front, inner);
    runs::lemma_parts_hold(front + inner, environment);
    runs::lemma_parts_hold(front + inner + environment, home);
    lemma_kept(inner, front, environment + home);
    lemma_joined(front + inner, environment, home);
    lemma_kept(environment, front + inner, home);
}

/// Options that make a sandbox, one more mount, and what is started.
proof fn lemma_parting(
    setup: Seq<Seq<u8>>,
    mount: Seq<Seq<u8>>,
    scrubber: Seq<Seq<u8>>,
    inner: Seq<Seq<u8>>,
    home: Seq<Seq<u8>>,
    layout: Layout,
)
    requires
        starts_as_requested(setup, layout),
        runs::holds_run(setup, home),
        scrubber.len() > 0,
        scrubber[0] == os::lit("--"),
    ensures
        parted(setup + mount + scrubber + inner, setup + mount, scrubber + inner),
        starts_as_requested(setup + mount, layout),
        runs::holds_run(setup + mount, home),
{
    reveal(parted);
    lemma_joined(setup + mount, scrubber, inner);
    runs::lemma_parts_hold(setup, mount);
    let none = Seq::<Seq<u8>>::empty();
    assert(none + setup + mount =~= setup + mount);
    reveal(starts_as_requested);
    lemma_kept(setup, none, mount);
}

/// Whether options give Cargo its private home, unless the variable that names
/// it is to be removed.
#[verifier::opaque]
pub open spec fn homes_cargo(options: Seq<Seq<u8>>, layout: Layout) -> bool {
    layout.environment.remove.contains(os::lit("CARGO_HOME")) || runs::holds_run(
        options,
        seq![os::lit("--setenv"), os::lit("CARGO_HOME"), os::lit("/run/cargo-cage-home")],
    )
}

proof fn lemma_homes_cargo(options: Seq<Seq<u8>>, layout: Layout)
    requires
        runs::holds_run(options, bwrap::cargo_home_unless_removed(layout.environment)),
    ensures
        homes_cargo(options, layout),
{
    reveal(homes_cargo);
}

/// A sandbox made of chosen mounts starts in the requested directory, isolated,
/// with the requested variables and with Cargo's private home: all of it stands
/// before the separator of the program.
pub proof fn mounted_sandboxes_start_as_requested(
    layout: Layout,
    mounts: Mounts,
    program: Seq<u8>,
    args: Seq<Seq<u8>>,
    descriptor: Option<i32>,
)
    ensures
        bwrap::mounted_args(layout, mounts, program, args, descriptor) matches Ok(command)
            ==> exists|options: Seq<Seq<u8>>, rest: Seq<Seq<u8>>| #[trigger]
            parted(command, options, rest) && starts_as_requested(options, layout) && homes_cargo(
                options,
                layout,
            ),
{
    if let Some(launcher) = mounts.launcher {
        let home = bwrap::cargo_home_unless_removed(layout.environment);
        lemma_setting(
            bwrap::filesystem_args(layout, mounts) + bwrap::context_args(descriptor),
            bwrap::isolation_args(layout.network),
            seq![layout.current_dir],
            bwrap::environment_args(layout.environment),
            home,
            layout,
        );
        lemma_parting(
            bwrap::setup_args(layout, mounts, descriptor),
            bwrap::mount_all(true, seq![launcher]),
            bwrap::scrubber_args(),
            bwrap::launcher_args(layout, mounts, program, args),
            home,
            layout,
        );
        let options = bwrap::setup_args(layout, mounts, descriptor) + bwrap::mount_all(
            true,
            seq![launcher],
        );
        lemma_homes_cargo(options, layout);
        let command = bwrap::mounted_args(layout, mounts, program, args, descriptor)->Ok_0;
        let rest = bwrap::scrubber_args() + bwrap::launcher_args(layout, mounts, program, args);
        assert(parted(command, options, rest) && starts_as_requested(options, layout)
            && homes_cargo(options, layout));
    }
}

proof fn lemma_joined(first: Seq<Seq<u8>>, second: Seq<Seq<u8>>, third: Seq<Seq<u8>>)
    ensures
        first + second + third == first + (second + third),
{
    assert(first + second + third =~= first + (second + third));
}

/// A sandbox over the whole host starts in the requested directory, isolated,
/// with the requested variables and with Cargo's private home; the program and
/// its arguments stand behind the options.
pub proof fn host_sandboxes_start_as_requested(
    layout: Layout,
    program: Seq<u8>,
    args: Seq<Seq<u8>>,
)
    ensures
        exists|options: Seq<Seq<u8>>, rest: Seq<Seq<u8>>| #[trigger]
            parted(bwrap::bwrap_args(layout, program, args), options, rest) && rest == seq![
                os::lit("--"),
                program,
            ] + args && starts_as_requested(options, layout) && runs::holds_run(
                options,
                seq![os::lit("--setenv"), os::lit("CARGO_HOME"), os::lit("/run/cargo-cage-home")],
            ),
{
    let before = bwrap::host_args() + bwrap::option_all("--tmpfs", layout.private_paths)
        + bwrap::try_cache_args(layout.cargo_home) + bwrap::bind_all(
        "--ro-bind",
        layout.read_only_paths,
    ) + bwrap::mask_each(layout.hidden_paths, layout.hidden_paths.len() as int)
        + bwrap::bind_all("--bind", layout.writable_paths);
    let home = bwrap::cargo_home_args();
    let options = before + bwrap::isolation_args(layout.network) + seq![layout.current_dir]
        + bwrap::environment_args(layout.environment) + home;
    lemma_setting(
        before,
        bwrap::isolation_args(layout.network),
        seq![layout.current_dir],
        bwrap::environment_args(layout.environment),
        home,
        layout,
    );
    let rest = seq![os::lit("--"), program] + args;
    reveal(parted);
    assert(parted(bwrap::bwrap_args(layout, program, args), options, rest));
}

// ---------------------------------------------------------------------------
// Mounts
// ---------------------------------------------------------------------------

proof fn lemma_mount_all(read_only: bool, list: Seq<Mount>)
    ensures
        forall|i: int|
            0 <= i < list.len() ==> runs::holds_run(
                bwrap::mount_all(read_only, list),
                spelled_mount(read_only, #[trigger] list[i]),
            ),
{
    lemma_mount_each(read_only, list, list.len() as int);
}

/// The filesystems of a sandbox made of chosen mounts: the runtime read-only,
/// new kernel filesystems, private filesystems over it, then what is readable,
/// the caches, the covers of what is hidden, and last what is writable.
pub proof fn mounts_follow_each_other(layout: Layout, mounts: Mounts)
    ensures
        ({
            let words = bwrap::filesystem_args(layout, mounts);
            let hidden = layout.hidden_paths;
            &&& runs::holds_run(words, seq![os::lit("--proc"), os::lit("/proc")])
            &&& runs::holds_run(words, seq![os::lit("--dev"), os::lit("/dev")])
            &&& runs::holds_run(words, seq![os::lit("--dir"), os::lit("/run/cargo-cage-home")])
            &&& forall|i: int|
                0 <= i < mounts.runtime.len() ==> runs::holds_in_order(
                    words,
                    spelled_mount(true, #[trigger] mounts.runtime[i]),
                    seq![os::lit("--proc"), os::lit("/proc")],
                )
            &&& forall|path: Seq<u8>|
                #[trigger] order::private_order(layout.private_paths).contains(path) ==> runs::holds_in_order(
                    words,
                    seq![os::lit("--proc"), os::lit("/proc")],
                    seq![os::lit("--tmpfs"), path],
                )
            &&& forall|path: Seq<u8>, i: int|
                #[trigger] order::private_order(layout.private_paths).contains(path) && 0 <= i
                    < mounts.read_only.len() ==> runs::holds_in_order(
                    words,
                    seq![os::lit("--tmpfs"), path],
                    spelled_mount(true, #[trigger] mounts.read_only[i]),
                )
            &&& forall|i: int, j: int|
                0 <= i < mounts.read_only.len() && 0 <= j < mounts.caches.len()
                    ==> runs::holds_in_order(
                    words,
                    spelled_mount(true, #[trigger] mounts.read_only[i]),
                    spelled_mount(true, #[trigger] mounts.caches[j]),
                )
            &&& forall|i: int, j: int|
                0 <= i < mounts.read_only.len() && 0 <= j < hidden.len() && hidden[j] is Directory
                    ==> runs::holds_in_order(
                    words,
                    spelled_mount(true, #[trigger] mounts.read_only[i]),
                    cover(#[trigger] hidden[j]),
                )
            &&& forall|i: int, j: int|
                0 <= i < mounts.caches.len() && 0 <= j < mounts.hidden_files.len()
                    ==> runs::holds_in_order(
                    words,
                    spelled_mount(true, #[trigger] mounts.caches[i]),
                    spelled_mount(true, #[trigger] mounts.hidden_files[j]),
                )
            &&& forall|i: int, j: int|
                0 <= i < mounts.read_only.len() && 0 <= j < mounts.writable.len()
                    ==> runs::holds_in_order(
                    words,
                    spelled_mount(true, #[trigger] mounts.read_only[i]),
                    spelled_mount(false, #[trigger] mounts.writable[j]),
                )
            &&& forall|i: int, j: int|
                0 <= i < hidden.len() && hidden[i] is Directory && 0 <= j < mounts.writable.len()
                    ==> runs::holds_in_order(
                    words,
                    cover(#[trigger] hidden[i]),
                    spelled_mount(false, #[trigger] mounts.writable[j]),
                )
            &&& forall|i: int, j: int|
                0 <= i < mounts.hidden_files.len() && 0 <= j < mounts.writable.len()
                    ==> runs::holds_in_order(
                    words,
                    spelled_mount(true, #[trigger] mounts.hidden_files[i]),
                    spelled_mount(false, #[trigger] mounts.writable[j]),
                )
        }),
{
    let hidden = layout.hidden_paths;
    let kernel = seq![os::lit("--proc"), os::lit("/proc"), os::lit("--dev"), os::lit("/dev")];
    let home = seq![os::lit("--dir"), os::lit("/run/cargo-cage-home")];
    let ordered = order::private_order(layout.private_paths);
    let directories = bwrap::hidden_directories(hidden, hidden.len() as int);
    let b0 = bwrap::mount_all(true, mounts.runtime);
    let b2 = bwrap::directory_args(layout.private_paths, Seq::empty(), layout.runtime_mounts);
    let b3 = bwrap::option_all("--tmpfs", ordered);
    let b5 = bwrap::directory_args(
        layout.read_only_paths,
        layout.private_paths,
        layout.runtime_mounts,
    );
    let b6 = bwrap::mount_all(true, mounts.read_only);
    let b7 = bwrap::mount_all(true, mounts.caches);
    let b8 = bwrap::option_all("--tmpfs", directories);
    let b9 = bwrap::mount_all(true, mounts.hidden_files);
    let b10 = bwrap::mount_all(false, mounts.writable);
    let p1 = b0 + kernel;
    let p3 = p1 + b2 + b3;
    let p4 = p3 + home;
    let p6 = p4 + b5 + b6;
    let p8 = p6 + b7 + b8;
    lemma_mount_all(true, mounts.runtime);
    lemma_mount_all(true, mounts.read_only);
    lemma_mount_all(true, mounts.caches);
    lemma_mount_all(true, mounts.hidden_files);
    lemma_mount_all(false, mounts.writable);
    lemma_option_each(os::lit("--tmpfs"), ordered, ordered.len() as int);
    lemma_option_each(os::lit("--tmpfs"), directories, directories.len() as int);
    lemma_hidden_directories(hidden, hidden.len() as int);
    runs::lemma_words(kernel);
    assert(kernel[0] == os::lit("--proc") && kernel[1] == os::lit("/proc"));
    assert(kernel[2] == os::lit("--dev") && kernel[3] == os::lit("/dev"));
    runs::lemma_whole(home);
    assert forall|path: Seq<u8>| #[trigger] ordered.contains(path) implies runs::holds_run(
        b3,
        seq![os::lit("--tmpfs"), path],
    ) by {
        let i = choose|i: int| 0 <= i < ordered.len() && ordered[i] == path;
        assert(runs::holds_run(b3, seq![os::lit("--tmpfs"), ordered[i]]));
    }
    assert forall|j: int| 0 <= j < hidden.len() && hidden[j] is Directory implies runs::holds_run(
        b8,
        cover(#[trigger] hidden[j]),
    ) by {
        let path = hidden[j]->Directory_0;
        let i = choose|i: int| 0 <= i < directories.len() && directories[i] == path;
        assert(runs::holds_run(b8, seq![os::lit("--tmpfs"), directories[i]]));
    }
    runs::lemma_parts_hold(b0, kernel);
    runs::lemma_parts_hold(p1, b2);
    runs::lemma_parts_hold(p1 + b2, b3);
    runs::lemma_parts_hold(p3, home);
    runs::lemma_parts_hold(p4, b5);
    runs::lemma_parts_hold(p4 + b5, b6);
    runs::lemma_parts_hold(p6, b7);
    runs::lemma_parts_hold(p6 + b7, b8);
    runs::lemma_parts_hold(p8, b9);
    runs::lemma_parts_hold(p8 + b9, b10);
}

/// Whether a command line puts the layers over a host in their order: private
/// filesystems, what is readable, the covers of what is hidden, and last what
/// is writable.
#[verifier::opaque]
pub open spec fn layered(words: Seq<Seq<u8>>, layout: Layout) -> bool {
    &&& forall|i: int, j: int|
        0 <= i < layout.private_paths.len() && 0 <= j < layout.read_only_paths.len()
            ==> runs::holds_in_order(
            words,
            seq![os::lit("--tmpfs"), #[trigger] layout.private_paths[i]],
            seq![
                os::lit("--ro-bind"),
                #[trigger] layout.read_only_paths[j],
                layout.read_only_paths[j],
            ],
        )
    &&& forall|i: int, j: int|
        0 <= i < layout.read_only_paths.len() && 0 <= j < layout.hidden_paths.len()
            ==> runs::holds_in_order(
            words,
            seq![
                os::lit("--ro-bind"),
                #[trigger] layout.read_only_paths[i],
                layout.read_only_paths[i],
            ],
            cover(#[trigger] layout.hidden_paths[j]),
        )
    &&& forall|i: int, j: int|
        0 <= i < layout.hidden_paths.len() && 0 <= j < layout.writable_paths.len()
            ==> runs::holds_in_order(
            words,
            cover(#[trigger] layout.hidden_paths[i]),
            seq![
                os::lit("--bind"),
                #[trigger] layout.writable_paths[j],
                layout.writable_paths[j],
            ],
        )
    &&& forall|i: int, j: int|
        0 <= i < layout.private_paths.len() && 0 <= j < layout.writable_paths.len()
            ==> runs::holds_in_order(
            words,
            seq![os::lit("--tmpfs"), #[trigger] layout.private_paths[i]],
            seq![
                os::lit("--bind"),
                #[trigger] layout.writable_paths[j],
                layout.writable_paths[j],
            ],
        )
}

/// Layers over a host, and what stands behind them.
proof fn lemma_layers(
    host: Seq<Seq<u8>>,
    private: Seq<Seq<u8>>,
    caches: Seq<Seq<u8>>,
    readable: Seq<Seq<u8>>,
    masks: Seq<Seq<u8>>,
    writable: Seq<Seq<u8>>,
    isolation: Seq<Seq<u8>>,
    directory: Seq<Seq<u8>>,
    environment: Seq<Seq<u8>>,
    home: Seq<Seq<u8>>,
    program: Seq<Seq<u8>>,
    layout: Layout,
)
    requires
        forall|i: int|
            0 <= i < layout.private_paths.len() ==> runs::holds_run(
                private,
                seq![os::lit("--tmpfs"), #[trigger] layout.private_paths[i]],
            ),
        forall|i: int|
            0 <= i < layout.read_only_paths.len() ==> runs::holds_run(
                readable,
                seq![
                    os::lit("--ro-bind"),
                    #[trigger] layout.read_only_paths[i],
                    layout.read_only_paths[i],
                ],
            ),
        forall|i: int|
            0 <= i < layout.hidden_paths.len() ==> runs::holds_run(
                masks,
                cover(#[trigger] layout.hidden_paths[i]),
            ),
        forall|i: int|
            0 <= i < layout.writable_paths.len() ==> runs::holds_run(
                writable,
                seq![
                    os::lit("--bind"),
                    #[trigger] layout.writable_paths[i],
                    layout.writable_paths[i],
                ],
            ),
    ensures
        ({
            let words = host + private + caches + readable + masks + writable + isolation
                + directory + environment + home + program;
            &&& forall|run: Seq<Seq<u8>>|
                runs::holds_run(host, run) || runs::holds_run(caches, run)
                    ==> #[trigger] runs::holds_run(words, run)
            &&& layered(words, layout)
        }),
{
    reveal(layered);
    let p1 = host + private;
    let p2 = p1 + caches;
    let p3 = p2 + readable;
    let p4 = p3 + masks;
    let p5 = p4 + writable;
    let p6 = p5 + isolation;
    let p7 = p6 + directory;
    let p8 = p7 + environment;
    let p9 = p8 + home;
    runs::lemma_parts_hold(host, private);
    runs::lemma_parts_hold(p1, caches);
    runs::lemma_parts_hold(p2, readable);
    runs::lemma_parts_hold(p3, masks);
    runs::lemma_parts_hold(p4, writable);
    runs::lemma_parts_hold(p5, isolation);
    runs::lemma_parts_hold(p6, directory);
    runs::lemma_parts_hold(p7, environment);
    runs::lemma_parts_hold(p8, home);
    runs::lemma_parts_hold(p9, program);
}

/// The filesystems of a sandbox over the whole host: the host read-only with
/// new kernel filesystems, private filesystems over it, the caches, what is
/// readable, the covers of what is hidden, and last what is writable.
pub proof fn host_mounts_follow_each_other(layout: Layout, program: Seq<u8>, args: Seq<Seq<u8>>)
    ensures
        ({
            let words = bwrap::bwrap_args(layout, program, args);
            &&& runs::holds_run(words, seq![os::lit("--ro-bind"), os::lit("/"), os::lit("/")])
            &&& runs::holds_run(words, seq![os::lit("--proc"), os::lit("/proc")])
            &&& runs::holds_run(words, seq![os::lit("--dev"), os::lit("/dev")])
            &&& runs::holds_run(words, seq![os::lit("--dir"), os::lit("/run/cargo-cage-home")])
            &&& layout.cargo_home matches Some(source) ==> runs::holds_run(words, cached(source))
            &&& layered(words, layout)
        }),
{
    lemma_host_args();
    lemma_caches(layout.cargo_home);
    lemma_option_each(
        os::lit("--tmpfs"),
        layout.private_paths,
        layout.private_paths.len() as int,
    );
    lemma_bind_each(
        os::lit("--ro-bind"),
        layout.read_only_paths,
        layout.read_only_paths.len() as int,
    );
    lemma_mask_each(layout.hidden_paths, layout.hidden_paths.len() as int);
    lemma_bind_each(
        os::lit("--bind"),
        layout.writable_paths,
        layout.writable_paths.len() as int,
    );
    lemma_layers(
        bwrap::host_args(),
        bwrap::option_all("--tmpfs", layout.private_paths),
        bwrap::try_cache_args(layout.cargo_home),
        bwrap::bind_all("--ro-bind", layout.read_only_paths),
        bwrap::mask_each(layout.hidden_paths, layout.hidden_paths.len() as int),
        bwrap::bind_all("--bind", layout.writable_paths),
        bwrap::isolation_args(layout.network),
        seq![layout.current_dir],
        bwrap::environment_args(layout.environment),
        bwrap::cargo_home_args(),
        bwrap::program_args(program, args),
        layout,
    );
    let words = bwrap::bwrap_args(layout, program, args);
    assert(layered(words, layout));
    assert(runs::holds_run(words, seq![os::lit("--ro-bind"), os::lit("/"), os::lit("/")]));
    assert(runs::holds_run(words, seq![os::lit("--proc"), os::lit("/proc")]));
    assert(runs::holds_run(words, seq![os::lit("--dev"), os::lit("/dev")]));
    assert(runs::holds_run(words, seq![os::lit("--dir"), os::lit("/run/cargo-cage-home")]));
    assert(layout.cargo_home matches Some(source) ==> runs::holds_run(words, cached(source)));
}

proof fn lemma_host_args()
    ensures
        runs::holds_run(
            bwrap::host_args(),
            seq![os::lit("--ro-bind"), os::lit("/"), os::lit("/")],
        ),
        runs::holds_run(bwrap::host_args(), seq![os::lit("--proc"), os::lit("/proc")]),
        runs::holds_run(bwrap::host_args(), seq![os::lit("--dev"), os::lit("/dev")]),
{
    let host = bwrap::host_args();
    runs::lemma_words(host);
    assert(host[3] == os::lit("--proc") && host[4] == os::lit("/proc"));
    assert(host[5] == os::lit("--dev") && host[6] == os::lit("/dev"));
    let root = seq![os::lit("--ro-bind"), os::lit("/"), os::lit("/")];
    assert(runs::holds_run(host, root)) by {
        reveal(runs::holds_run);
        assert(host.subrange(0, 3) =~= root);
        assert(runs::run_at(host, 0, root));
    }
}

/// How the registry and the Git cache of a Cargo home are shown.
pub open spec fn cached(source: Seq<u8>) -> Seq<Seq<u8>> {
    seq![
        os::lit("--ro-bind-try"),
        path::join(source, os::lit("registry")),
        path::join(os::lit("/run/cargo-cage-home"), os::lit("registry")),
        os::lit("--ro-bind-try"),
        path::join(source, os::lit("git")),
        path::join(os::lit("/run/cargo-cage-home"), os::lit("git")),
    ]
}

proof fn lemma_caches(cargo_home: Option<Seq<u8>>)
    ensures
        runs::holds_run(
            bwrap::try_cache_args(cargo_home),
            seq![os::lit("--dir"), os::lit("/run/cargo-cage-home")],
        ),
        cargo_home matches Some(source) ==> runs::holds_run(
            bwrap::try_cache_args(cargo_home),
            cached(source),
        ),
{
    let first = seq![os::lit("--dir"), os::lit("/run/cargo-cage-home")];
    runs::lemma_whole(first);
    if let Some(source) = cargo_home {
        runs::lemma_whole(cached(source));
        runs::lemma_parts_hold(first, cached(source));
        assert(bwrap::try_cache_args(cargo_home) =~= first + cached(source));
    }
}

/// Whether a list ends with some words.
#[verifier::opaque]
pub open spec fn ends_with(words: Seq<Seq<u8>>, tail: Seq<Seq<u8>>) -> bool {
    exists|front: Seq<Seq<u8>>| words == front + tail
}

/// Once it is set up, a sandbox made of chosen mounts holds the launcher
/// read-only, closes every descriptor but the standard ones and starts the
/// launcher.
pub proof fn the_launcher_starts_behind_the_scrubber(
    layout: Layout,
    mounts: Mounts,
    program: Seq<u8>,
    args: Seq<Seq<u8>>,
    descriptor: Option<i32>,
)
    ensures
        bwrap::mounted_args(layout, mounts, program, args, descriptor) is Ok <==> mounts.launcher
            is Some,
        bwrap::mounted_args(layout, mounts, program, args, descriptor) matches Ok(command)
            ==> ends_with(command, spelled_mount(true, mounts.launcher->0) + seq![
            os::lit("--"),
            os::lit("/bin/bash"),
            os::lit("-c"),
            os::lit(
                "set -eu\nfor descriptor in /proc/self/fd/*; do\n  number=${descriptor##*/}\n  if [ \"$number\" -gt 2 ]; then\n    eval \"exec $number>&-\"\n  fi\ndone\nexec \"$@\"\n",
            ),
            os::lit("cargo-cage-fd-scrubber"),
            os::lit("/run/cargo-cage-landlock-launcher"),
            os::lit("__cargo_cage_landlock_exec"),
        ] + bwrap::launcher_args(layout, mounts, program, args)),
{
    if let Some(launcher) = mounts.launcher {
        let single = seq![launcher];
        let mount = bwrap::mount_all(true, single);
        assert(bwrap::mount_each(true, single, 0) =~= Seq::empty());
        assert(mount =~= spelled_mount(true, launcher));
        lemma_suffix_of_four(
            bwrap::setup_args(layout, mounts, descriptor),
            mount,
            bwrap::scrubber_args(),
            bwrap::launcher_args(layout, mounts, program, args),
        );
        let command = bwrap::mounted_args(layout, mounts, program, args, descriptor)->Ok_0;
        assert(ends_with(
            command,
            mount + bwrap::scrubber_args() + bwrap::launcher_args(layout, mounts, program, args),
        ));
    }
}

/// The marker that the launcher looks for is put where it looks for it.
pub proof fn the_marker_is_shown(layout: Layout, mounts: Mounts, fd: i32)
    ensures
        runs::holds_run(
            bwrap::setup_args(layout, mounts, Some(fd)),
            seq![
                os::lit("--file"),
                encode_utf8(text::signed_decimal(fd as int)),
                os::lit("/run/cargo-cage-launcher-context"),
            ],
        ),
{
    let context = bwrap::context_args(Some(fd));
    let front = bwrap::filesystem_args(layout, mounts);
    assert(runs::holds_run(front + context, context)) by {
        runs::lemma_whole(context);
        runs::lemma_parts_hold(front, context);
    }
    lemma_setting(
        front + context,
        bwrap::isolation_args(layout.network),
        seq![layout.current_dir],
        bwrap::environment_args(layout.environment),
        bwrap::cargo_home_unless_removed(layout.environment),
        layout,
    );
    assert(runs::holds_run(bwrap::setup_args(layout, mounts, Some(fd)), context));
}

proof fn lemma_suffix_of_four(
    first: Seq<Seq<u8>>,
    second: Seq<Seq<u8>>,
    third: Seq<Seq<u8>>,
    fourth: Seq<Seq<u8>>,
)
    ensures
        ends_with(first + second + third + fourth, second + third + fourth),
{
    reveal(ends_with);
    assert(first + second + third + fourth =~= first + (second + third + fourth));
}

} // verus!
