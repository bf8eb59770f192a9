//! How text is taken apart, and how failures are put into words.

use crate::error;
use crate::error::Fault;
use crate::os;
use crate::policy::ResourceLimitKind;
use crate::scan;
use crate::text;
use vstd::prelude::*;
use vstd::string::*;

verus! {

// ---------------------------------------------------------------------------
// Words
// ---------------------------------------------------------------------------

/// Whether a text holds no white space.
pub open spec fn solid(s: Seq<char>) -> bool {
    forall|i: int| 0 <= i < s.len() ==> !scan::is_space(#[trigger] s[i])
}

/// Blanks, tabs and line ends are white space, and no visible ASCII character
/// is.
pub proof fn blanks_are_white_space(c: char)
    ensures
        scan::is_space(' '),
        scan::is_space('\t'),
        scan::is_space('\n'),
        scan::is_space('\r'),
        '!' <= c <= '~' ==> !scan::is_space(c),
{
}

proof fn lemma_word_end_of_solid(s: Seq<char>, index: int)
    requires
        solid(s),
        0 <= index <= s.len(),
    ensures
        scan::word_end(s, index) == s.len(),
    decreases s.len() - index,
{
    if index < s.len() {
        lemma_word_end_of_solid(s, index + 1);
    }
}

proof fn lemma_word_start_in(front: Seq<char>, back: Seq<char>, index: int)
    requires
        0 <= index <= front.len(),
    ensures
        scan::word_start(front, index) < front.len() ==> scan::word_start(front + back, index)
            == scan::word_start(front, index),
        scan::word_start(front, index) >= front.len() ==> scan::word_start(front + back, index)
            == scan::word_start(front + back, front.len() as int),
    decreases front.len() - index,
{
    if index < front.len() {
        assert((front + back)[index] == front[index]);
        if scan::is_space(front[index]) {
            lemma_word_start_in(front, back, index + 1);
        }
    }
}

proof fn lemma_word_end_in(front: Seq<char>, back: Seq<char>, index: int)
    requires
        0 <= index <= front.len(),
        back.len() > 0,
        scan::is_space(back[0]),
    ensures
        scan::word_end(front + back, index) == scan::word_end(front, index),
        index <= scan::word_end(front, index) <= front.len(),
    decreases front.len() - index,
{
    if index < front.len() {
        assert((front + back)[index] == front[index]);
        if !scan::is_space(front[index]) {
            lemma_word_end_in(front, back, index + 1);
        }
    } else {
        assert((front + back)[index] == back[0]);
    }
}

proof fn lemma_word_start_behind(front: Seq<char>, back: Seq<char>, index: int)
    requires
        0 <= index <= back.len(),
    ensures
        scan::word_start(front + back, front.len() + index) == front.len() + scan::word_start(
            back,
            index,
        ),
    decreases back.len() - index,
{
    if index < back.len() {
        assert((front + back)[front.len() + index] == back[index]);
        if scan::is_space(back[index]) {
            lemma_word_start_behind(front, back, index + 1);
        }
    }
}

proof fn lemma_word_end_behind(front: Seq<char>, back: Seq<char>, index: int)
    requires
        0 <= index <= back.len(),
    ensures
        scan::word_end(front + back, front.len() + index) == front.len() + scan::word_end(
            back,
            index,
        ),
    decreases back.len() - index,
{
    if index < back.len() {
        assert((front + back)[front.len() + index] == back[index]);
        if !scan::is_space(back[index]) {
            lemma_word_end_behind(front, back, index + 1);
        }
    }
}

proof fn lemma_words_behind(front: Seq<char>, back: Seq<char>, index: int)
    requires
        0 <= index <= back.len(),
    ensures
        scan::words_from(front + back, front.len() + index) == scan::words_from(back, index),
    decreases back.len() - index,
{
    let whole = front + back;
    lemma_word_start_behind(front, back, index);
    scan::lemma_word_bounds(back, index);
    let start = scan::word_start(back, index);
    if start < back.len() {
        scan::lemma_word_bounds(back, start);
        lemma_word_end_behind(front, back, start);
        let end = scan::word_end(back, start);
        assert(whole.subrange(front.len() + start, front.len() + end) =~= back.subrange(
            start,
            end,
        ));
        lemma_words_behind(front, back, end);
    }
}

proof fn lemma_words_parted(front: Seq<char>, back: Seq<char>, index: int)
    requires
        0 <= index <= front.len(),
        back.len() > 0,
        scan::is_space(back[0]),
    ensures
        scan::words_from(front + back, index) == scan::words_from(front, index) + scan::words(
            back.skip(1),
        ),
    decreases front.len() - index,
{
    let whole = front + back;
    lemma_word_start_in(front, back, index);
    scan::lemma_word_bounds(front, index);
    let start = scan::word_start(front, index);
    if start < front.len() {
        scan::lemma_word_bounds(front, start);
        lemma_word_end_in(front, back, start);
        let end = scan::word_end(front, start);
        assert(whole.subrange(start, end) =~= front.subrange(start, end));
        lemma_words_parted(front, back, end);
        let first = seq![front.subrange(start, end)];
        assert(first + (scan::words_from(front, end) + scan::words(back.skip(1))) =~= (first
            + scan::words_from(front, end)) + scan::words(back.skip(1)));
    } else {
        let before = front.push(back[0]);
        let rest = back.skip(1);
        assert(whole =~= before + rest);
        lemma_word_start_behind(front, back, 0);
        lemma_word_start_behind(before, rest, 0);
        assert(scan::word_start(whole, front.len() as int) == scan::word_start(
            whole,
            front.len() as int + 1,
        ));
        lemma_words_behind(before, rest, 0);
        scan::lemma_word_bounds(whole, index);
        scan::lemma_word_bounds(whole, front.len() as int + 1);
        assert(scan::word_start(whole, index) == scan::word_start(whole, front.len() as int + 1));
        assert(scan::words_from(whole, index) =~= scan::words_from(whole, front.len() as int + 1));
        assert(scan::words_from(front, index) =~= Seq::<Seq<char>>::empty());
        assert(scan::words_from(front, index) + scan::words(rest) =~= scan::words(rest));
    }
}

/// A text falls apart into words at its white space: one without any is one
/// word, an empty one is none, and of two with white space between them each
/// has its own words.
pub proof fn words_are_parted_by_white_space(front: Seq<char>, space: char, back: Seq<char>)
    ensures
        scan::is_space(space) ==> scan::words(front.push(space) + back) == scan::words(front)
            + scan::words(back),
        solid(front) && front.len() > 0 ==> scan::words(front) == seq![front],
        front.len() == 0 ==> scan::words(front).len() == 0,
{
    if scan::is_space(space) {
        let tail = seq![space] + back;
        assert(front.push(space) + back =~= front + tail);
        assert(tail.skip(1) =~= back);
        lemma_words_parted(front, tail, 0);
    }
    if solid(front) && front.len() > 0 {
        lemma_word_end_of_solid(front, 0);
        assert(front.subrange(0, front.len() as int) =~= front);
        scan::lemma_word_bounds(front, 0);
        assert(!scan::is_space(front[0]));
        assert(scan::words_from(front, front.len() as int) =~= Seq::<Seq<char>>::empty());
        assert(scan::words(front) =~= seq![front]);
    }
}

// ---------------------------------------------------------------------------
// Lines
// ---------------------------------------------------------------------------

/// Whether a text holds no line end.
pub open spec fn unbroken(s: Seq<char>) -> bool {
    forall|i: int| 0 <= i < s.len() ==> #[trigger] s[i] != '\n'
}

proof fn lemma_line_end_in(front: Seq<char>, back: Seq<char>, index: int)
    requires
        unbroken(front),
        0 <= index <= front.len(),
        back.len() > 0 ==> back[0] == '\n',
    ensures
        scan::line_end(front + back, index) == front.len(),
    decreases front.len() - index,
{
    if index < front.len() {
        assert((front + back)[index] == front[index]);
        lemma_line_end_in(front, back, index + 1);
    } else if back.len() > 0 {
        assert((front + back)[index] == back[0]);
    }
}

proof fn lemma_line_end_behind(front: Seq<char>, back: Seq<char>, index: int)
    requires
        0 <= index <= back.len(),
    ensures
        scan::line_end(front + back, front.len() + index) == front.len() + scan::line_end(
            back,
            index,
        ),
    decreases back.len() - index,
{
    if index < back.len() {
        assert((front + back)[front.len() + index] == back[index]);
        if back[index] != '\n' {
            lemma_line_end_behind(front, back, index + 1);
        }
    }
}

proof fn lemma_lines_behind(front: Seq<char>, back: Seq<char>, index: int)
    requires
        0 <= index <= back.len(),
    ensures
        scan::lines_from(front + back, front.len() + index) == scan::lines_from(back, index),
    decreases back.len() - index,
{
    let whole = front + back;
    if index < back.len() {
        lemma_line_end_behind(front, back, index);
        scan::lemma_line_end(back, index);
        let end = scan::line_end(back, index);
        assert(whole.subrange(front.len() + index, front.len() + end) =~= back.subrange(
            index,
            end,
        ));
        if end < back.len() {
            lemma_lines_behind(front, back, end + 1);
        }
    }
}

/// A text falls apart into lines at its line ends, whether or not a return
/// stands before them; what stands behind the last one is a line too, unless it
/// is empty.
pub proof fn lines_are_parted_by_line_ends(front: Seq<char>, back: Seq<char>)
    requires
        unbroken(front),
    ensures
        front.len() == 0 || front.last() != '\r' ==> scan::lines(front.push('\n') + back)
            == seq![front] + scan::lines(back),
        scan::lines(front.push('\r').push('\n') + back) == seq![front] + scan::lines(back),
        front.len() > 0 ==> scan::lines(front) == seq![front],
        front.len() == 0 ==> scan::lines(front).len() == 0,
{
    lemma_line(front, back);
    let longer = front.push('\r');
    assert forall|i: int| 0 <= i < longer.len() implies #[trigger] longer[i] != '\n' by {
        if i < front.len() {
            assert(longer[i] == front[i]);
        }
    }
    lemma_line(longer, back);
    assert(longer.drop_last() =~= front);
    if front.len() > 0 {
        lemma_line_end_in(front, Seq::empty(), 0);
        assert(front + Seq::<char>::empty() =~= front);
        assert(front.subrange(0, front.len() as int) =~= front);
    }
}

proof fn lemma_line(front: Seq<char>, back: Seq<char>)
    requires
        unbroken(front),
    ensures
        scan::lines(front.push('\n') + back) == seq![scan::without_return(front)] + scan::lines(
            back,
        ),
{
    let whole = front.push('\n') + back;
    let tail = seq!['\n'] + back;
    assert(whole =~= front + tail);
    lemma_line_end_in(front, tail, 0);
    lemma_lines_behind(front.push('\n'), back, 0);
    assert(whole.subrange(0, front.len() as int) =~= front);
    assert(front.push('\n').len() == front.len() as int + 1);
}

// ---------------------------------------------------------------------------
// Trimming, searching and replacing
// ---------------------------------------------------------------------------

/// Whether a text is all white space.
pub open spec fn blank(s: Seq<char>) -> bool {
    forall|i: int| 0 <= i < s.len() ==> scan::is_space(#[trigger] s[i])
}

proof fn lemma_skipped(s: Seq<char>, index: int)
    requires
        0 <= index <= s.len(),
    ensures
        index <= scan::word_start(s, index) <= s.len(),
        forall|i: int| index <= i < scan::word_start(s, index) ==> scan::is_space(#[trigger] s[i]),
        scan::word_start(s, index) < s.len() ==> !scan::is_space(s[scan::word_start(s, index)]),
    decreases s.len() - index,
{
    if index < s.len() && scan::is_space(s[index]) {
        lemma_skipped(s, index + 1);
    }
}

proof fn lemma_cut(s: Seq<char>, start: int, end: int)
    requires
        0 <= start <= end <= s.len(),
    ensures
        start <= scan::trimmed_end(s, start, end) <= end,
        forall|i: int|
            scan::trimmed_end(s, start, end) <= i < end ==> scan::is_space(#[trigger] s[i]),
        scan::trimmed_end(s, start, end) > start ==> !scan::is_space(
            s[scan::trimmed_end(s, start, end) - 1],
        ),
    decreases end - start,
{
    if start < end && scan::is_space(s[end - 1]) {
        lemma_cut(s, start, end - 1);
    }
}

/// Trimming takes the white space from both ends and nothing else.
pub proof fn trimming_takes_the_ends(s: Seq<char>)
    ensures
        ({
            let inner = scan::trimmed(s);
            &&& inner.len() > 0 ==> !scan::is_space(inner[0]) && !scan::is_space(inner.last())
            &&& exists|front: Seq<char>, back: Seq<char>|
                s == #[trigger] (front + inner + back) && blank(front) && blank(back)
        }),
{
    lemma_skipped(s, 0);
    let start = scan::word_start(s, 0);
    lemma_cut(s, start, s.len() as int);
    let end = scan::trimmed_end(s, start, s.len() as int);
    let front = s.take(start);
    let back = s.skip(end);
    assert(s =~= front + scan::trimmed(s) + back);
    assert forall|i: int| 0 <= i < back.len() implies scan::is_space(#[trigger] back[i]) by {
        assert(back[i] == s[end + i]);
    }
    assert(blank(front));
    assert(blank(back));
}

/// A text is split at the first place of a pattern: its halves and the pattern
/// make it up again, and the pattern does not come earlier.
pub proof fn texts_are_split_at_the_first_place(s: Seq<char>, pattern: Seq<char>)
    ensures
        scan::split_first(s, pattern) matches Some((front, back)) ==> s == front + pattern + back
            && forall|i: int| 0 <= i < front.len() ==> !#[trigger] scan::occurs_at(s, pattern, i),
        scan::split_first(s, pattern) is None ==> forall|front: Seq<char>, back: Seq<char>|
            s != #[trigger] (front + pattern + back),
{
    scan::lemma_found(s, pattern, 0);
    if let Some((front, back)) = scan::split_first(s, pattern) {
        assert(s =~= front + pattern + back);
    } else {
        assert forall|front: Seq<char>, back: Seq<char>| s != #[trigger] (front + pattern
            + back) by {
            if s == front + pattern + back {
                assert(s.subrange(front.len() as int, front.len() as int + pattern.len()) =~= pattern);
                assert(scan::occurs_at(s, pattern, front.len() as int));
            }
        }
    }
}

/// Replacing leaves a text alone that does not hold the pattern. One that does
/// keeps what stands before the first place, has the replacement there, and is
/// replaced on from behind it.
pub proof fn every_place_is_replaced(s: Seq<char>, pattern: Seq<char>, other: Seq<char>, index: int)
    requires
        pattern.len() > 0,
        0 <= index <= s.len(),
    ensures
        (forall|i: int| index <= i ==> !#[trigger] scan::occurs_at(s, pattern, i))
            ==> scan::replaced_from(s, pattern, other, index) == s.skip(index),
        forall|place: int|
            index <= place && #[trigger] scan::occurs_at(s, pattern, place) && (forall|i: int|
                index <= i < place ==> !#[trigger] scan::occurs_at(s, pattern, i))
                ==> scan::replaced_from(s, pattern, other, index) == s.subrange(index, place)
                + other + scan::replaced_from(s, pattern, other, place + pattern.len()),
{
    scan::lemma_found(s, pattern, index);
    assert forall|place: int|
        index <= place && #[trigger] scan::occurs_at(s, pattern, place) && (forall|i: int|
            index <= i < place ==> !#[trigger] scan::occurs_at(
                s,
                pattern,
                i,
            )) implies scan::replaced_from(s, pattern, other, index) == s.subrange(index, place)
        + other + scan::replaced_from(s, pattern, other, place + pattern.len()) by {
        assert(scan::found_from(s, pattern, index) == Some(place));
    }
}

// ---------------------------------------------------------------------------
// Failures
// ---------------------------------------------------------------------------

/// Whether a text holds some pieces one after another.
pub open spec fn tells(whole: Seq<char>, pieces: Seq<Seq<char>>) -> bool
    decreases pieces.len(),
{
    pieces.len() == 0 || exists|front: Seq<char>, rest: Seq<char>|
        whole == #[trigger] (front + pieces[0] + rest) && tells(rest, pieces.skip(1))
}

proof fn lemma_tells(front: Seq<char>, piece: Seq<char>, rest: Seq<char>, pieces: Seq<Seq<char>>)
    requires
        pieces.len() > 0,
        pieces[0] == piece,
        tells(rest, pieces.skip(1)),
    ensures
        tells(front + piece + rest, pieces),
{
}

proof fn lemma_tells_two(
    a: Seq<char>,
    x: Seq<char>,
    b: Seq<char>,
    y: Seq<char>,
    c: Seq<char>,
)
    ensures
        tells(a + x + b + y + c, seq![x, y]),
{
    let one = seq![y];
    assert(one.skip(1).len() == 0);
    lemma_tells(b, y, c, one);
    assert(seq![x, y].skip(1) =~= one);
    lemma_tells(a, x, b + y + c, seq![x, y]);
    assert(a + x + (b + y + c) =~= a + x + b + y + c);
}

proof fn lemma_tells_three(
    a: Seq<char>,
    x: Seq<char>,
    b: Seq<char>,
    y: Seq<char>,
    c: Seq<char>,
    z: Seq<char>,
    d: Seq<char>,
)
    ensures
        tells(a + x + b + y + c + z + d, seq![x, y, z]),
{
    lemma_tells_two(b, y, c, z, d);
    assert(seq![x, y, z].skip(1) =~= seq![y, z]);
    lemma_tells(a, x, b + y + c + z + d, seq![x, y, z]);
    assert(a + x + (b + y + c + z + d) =~= a + x + b + y + c + z + d);
}

proof fn lemma_tells_four(
    a: Seq<char>,
    x: Seq<char>,
    b: Seq<char>,
    y: Seq<char>,
    c: Seq<char>,
    z: Seq<char>,
    d: Seq<char>,
    w: Seq<char>,
    e: Seq<char>,
)
    ensures
        tells(a + x + b + y + c + z + d + w + e, seq![x, y, z, w]),
{
    lemma_tells_three(b, y, c, z, d, w, e);
    assert(seq![x, y, z, w].skip(1) =~= seq![y, z, w]);
    lemma_tells(a, x, b + y + c + z + d + w + e, seq![x, y, z, w]);
    assert(a + x + (b + y + c + z + d + w + e) =~= a + x + b + y + c + z + d + w + e);
}

/// What a failure tells: which kind of failure it is, what it is about, the rule
/// that was broken, how to mend it, and the details, in this order.
pub proof fn failures_tell_what_to_do(fault: Fault)
    ensures
        match fault {
            Fault::InvalidInvocation(message) => fault.message() == "invalid invocation: "@
                + message,
            Fault::Policy { subject, rule, remedy } => tells(
                fault.message(),
                seq!["sandbox policy error"@, subject, rule, remedy],
            ),
            Fault::UnsupportedPlatform => fault.message()
                == "cargo-cage currently supports Linux only"@,
            Fault::BackendUnavailable(message) => fault.message()
                == "Linux sandbox backend unavailable: "@ + message,
            Fault::SandboxSetup { subject, rule, remedy, detail } => tells(
                fault.message(),
                seq![subject, rule, remedy, detail],
            ) && tells(fault.message(), seq!["sandbox setup failed"@]),
            Fault::ProcessSpawn { program, source } => tells(
                fault.message(),
                seq!["could not start "@, os::lossy_text(program), source.message],
            ),
            Fault::ProcessFailed { status, detail } => tells(
                fault.message(),
                seq!["sandboxed process failed with "@, error::code_text(status.code), detail],
            ),
            Fault::ResourceLimitExceeded { kind, limit, status, remedy, detail } => tells(
                fault.message(),
                seq![kind.label(), limit, detail, remedy],
            ) && tells(fault.message(), seq!["sandbox resource limit exceeded"@]),
            Fault::Io { context, source } => tells(fault.message(), seq![context, source.message]),
        },
{
    let none = Seq::<char>::empty();
    match fault {
        Fault::Policy { subject, rule, remedy } => {
            reveal_strlit("sandbox policy error for ");
            reveal_strlit("sandbox policy error");
            reveal_strlit(" for ");
            assert("sandbox policy error for "@ =~= "sandbox policy error"@ + " for "@);
            lemma_tells_four(
                none,
                "sandbox policy error"@,
                " for "@,
                subject,
                ": "@,
                rule,
                "; remedy: "@,
                remedy,
                none,
            );
            assert(fault.message() =~= none + "sandbox policy error"@ + " for "@ + subject + ": "@
                + rule + "; remedy: "@ + remedy + none);
        },
        Fault::SandboxSetup { subject, rule, remedy, detail } => {
            let first = "sandbox setup failed"@;
            reveal_strlit("sandbox setup failed for ");
            reveal_strlit("sandbox setup failed");
            reveal_strlit(" for ");
            assert("sandbox setup failed for "@ =~= first + " for "@);
            let (open, close) = if detail.len() == 0 {
                (none, none)
            } else {
                (" ("@, ")"@)
            };
            let head = "sandbox setup failed for "@;
            lemma_tells_four(
                head,
                subject,
                ": "@,
                rule,
                "; remedy: "@,
                remedy,
                open,
                detail,
                close,
            );
            assert(fault.message() =~= head + subject + ": "@ + rule + "; remedy: "@ + remedy + open
                + detail + close);
            let rest = " for "@ + subject + ": "@ + rule + "; remedy: "@ + remedy + open + detail
                + close;
            assert(fault.message() =~= none + first + rest);
            assert(seq![first].skip(1).len() == 0);
            lemma_tells(none, first, rest, seq![first]);
        },
        Fault::ProcessSpawn { program, source } => {
            lemma_tells_three(
                none,
                "could not start "@,
                none,
                os::lossy_text(program),
                ": "@,
                source.message,
                none,
            );
            assert(fault.message() =~= none + "could not start "@ + none + os::lossy_text(program)
                + ": "@ + source.message + none);
        },
        Fault::ProcessFailed { status, detail } => {
            let code = error::code_text(status.code);
            lemma_tells_three(
                none,
                "sandboxed process failed with "@,
                none,
                code,
                ": "@,
                detail,
                none,
            );
            assert(fault.message() =~= none + "sandboxed process failed with "@ + none + code
                + ": "@ + detail + none);
        },
        Fault::ResourceLimitExceeded { kind, limit, status, remedy, detail } => {
            let first = "sandbox resource limit exceeded"@;
            reveal_strlit("sandbox resource limit exceeded for ");
            reveal_strlit("sandbox resource limit exceeded");
            reveal_strlit(" for ");
            assert("sandbox resource limit exceeded for "@ =~= first + " for "@);
            let between = match status {
                Some(status) => ")"@ + " with "@ + error::code_text(status.code) + ": "@,
                None => ")"@ + ": "@,
            };
            let head = "sandbox resource limit exceeded for "@;
            lemma_tells_four(
                head,
                kind.label(),
                " (limit "@,
                limit,
                between,
                detail,
                "; remedy: "@,
                remedy,
                none,
            );
            assert(fault.message() =~= head + kind.label() + " (limit "@ + limit + between + detail
                + "; remedy: "@ + remedy + none);
            let rest = " for "@ + kind.label() + " (limit "@ + limit + between + detail
                + "; remedy: "@ + remedy + none;
            assert(fault.message() =~= none + first + rest);
            assert(seq![first].skip(1).len() == 0);
            lemma_tells(none, first, rest, seq![first]);
        },
        Fault::Io { context, source } => {
            lemma_tells_two(none, context, ": "@, source.message, none);
            assert(fault.message() =~= none + context + ": "@ + source.message + none);
        },
        _ => {},
    }
}

/// How exit codes and limits are named.
pub proof fn codes_and_limits_have_names(code: i32, kind: ResourceLimitKind)
    ensures
        error::code_text(None) == "None"@,
        error::code_text(Some(code)) == "Some("@ + text::signed_decimal(code as int) + ")"@,
        code >= 0 ==> text::signed_decimal(code as int) == text::decimal(code as nat),
        code < 0 ==> text::signed_decimal(code as int) == "-"@ + text::decimal((-code) as nat),
        kind.label() == match kind {
            ResourceLimitKind::Processes => "process count"@,
            ResourceLimitKind::Memory => "memory"@,
            ResourceLimitKind::WallTime => "wall-clock time"@,
            ResourceLimitKind::FileSize => "file size"@,
        },
{
}

} // verus!
