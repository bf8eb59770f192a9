//! How paths are made up of their components.

use crate::flow::{Answer, FileKind, Query};
use crate::path;
use crate::path::{Mark, Part};
use crate::talk;
use crate::walk;
use vstd::prelude::*;

verus! {

// ---------------------------------------------------------------------------
// Components
// ---------------------------------------------------------------------------

/// A path is absolute if it begins with a slash. An absolute path stands for
/// itself wherever it is joined to, and no other path does.
pub proof fn absolute_paths_stand_for_themselves(base: Seq<u8>, tail: Seq<u8>)
    ensures
        path::absolute(tail) <==> tail.len() > 0 && tail[0] == 47u8,
        path::absolute(tail) ==> path::join(base, tail) == tail,
        !path::absolute(tail) && base.len() > 0 ==> base.is_prefix_of(path::join(base, tail))
            && path::absolute(path::join(base, tail)) == path::absolute(base),
        !path::absolute(tail) && base.len() == 0 ==> path::join(base, tail) == tail,
{
    assert(base.len() == 0 ==> base + tail =~= tail);
}

proof fn lemma_segment_shift(front: Seq<u8>, back: Seq<u8>, index: int)
    requires
        0 <= index <= back.len(),
    ensures
        path::segment_end(front + back, front.len() + index) == front.len() + path::segment_end(
            back,
            index,
        ),
    decreases back.len() - index,
{
    if index < back.len() {
        assert((front + back)[front.len() + index] == back[index]);
        if back[index] != 47u8 {
            lemma_segment_shift(front, back, index + 1);
        }
    }
}

proof fn lemma_marks_shift(front: Seq<u8>, back: Seq<u8>, index: int)
    requires
        0 < index <= back.len(),
    ensures
        path::mark_parts(path::marks_from(front + back, front.len() + index)) == path::mark_parts(
            path::marks_from(back, index),
        ),
    decreases back.len() - index,
{
    let whole = front + back;
    let place = front.len() + index;
    if index < back.len() {
        assert(whole[place] == back[index]);
        if back[index] == 47u8 {
            lemma_marks_shift(front, back, index + 1);
        } else {
            lemma_segment_shift(front, back, index);
            path::lemma_segment_end(back, index);
            let end = path::segment_end(back, index);
            assert(whole.subrange(place, front.len() + end) =~= back.subrange(index, end));
            lemma_marks_shift(front, back, end);
            let part = path::part_of(back.subrange(index, end));
            if part != Part::Current {
                assert(path::mark_parts(path::marks_from(whole, place)) =~= seq![part]
                    + path::mark_parts(path::marks_from(whole, front.len() + end)));
                assert(path::mark_parts(path::marks_from(back, index)) =~= seq![part]
                    + path::mark_parts(path::marks_from(back, end)));
            }
        }
    } else {
        assert(path::mark_parts(path::marks_from(whole, place)) =~= path::mark_parts(
            path::marks_from(back, index),
        ));
    }
}

/// The components of a path without a dot at its beginning.
pub open spec fn undotted(parts: Seq<Part>) -> Seq<Part> {
    if parts.len() > 0 && parts[0] == Part::Current {
        parts.skip(1)
    } else {
        parts
    }
}

proof fn lemma_marks_behind(front: Seq<u8>, back: Seq<u8>)
    requires
        front.len() > 0,
        back.len() == 0 || back[0] != 47u8,
    ensures
        path::mark_parts(path::marks_from(front + back, front.len() as int)) == undotted(
            path::parts(back),
        ),
{
    let whole = front + back;
    let place = front.len() as int;
    if back.len() == 0 {
        assert(path::mark_parts(path::marks_from(whole, place)) =~= undotted(path::parts(back)));
    } else {
        assert(whole[place] == back[0]);
        lemma_segment_shift(front, back, 0);
        path::lemma_segment_end(back, 0);
        let end = path::segment_end(back, 0);
        assert(whole.subrange(place, place + end) =~= back.subrange(0, end));
        lemma_marks_shift(front, back, end);
        let part = path::part_of(back.subrange(0, end));
        let rest = path::mark_parts(path::marks_from(back, end));
        assert(path::parts(back) =~= seq![part] + rest);
        if part == Part::Current {
            assert(path::parts(back).skip(1) =~= rest);
        } else {
            assert(path::mark_parts(path::marks_from(whole, place)) =~= seq![part]
                + path::mark_parts(path::marks_from(whole, place + end)));
        }
    }
}

/// Joining a relative path puts its components behind those of the base, without
/// a dot that it may begin with.
pub proof fn joined_paths_have_the_components_of_both(base: Seq<u8>, tail: Seq<u8>)
    requires
        base.len() > 0,
        !path::absolute(tail),
    ensures
        path::parts(path::join(base, tail)) == path::parts(base) + undotted(path::parts(tail)),
        path::within(path::join(base, tail), base),
{
    let whole = path::join(base, tail);
    path::lemma_marks_prefix(base, whole, 0);
    assert(whole[0] == base[0]);
    let rest = path::marks_from(whole, base.len() as int);
    if base.last() != 47u8 {
        let front = base.push(47u8);
        assert(whole =~= front + tail);
        assert(whole[base.len() as int] == 47u8);
        assert(rest == path::marks_from(whole, front.len() as int));
        lemma_marks_behind(front, tail);
    } else {
        lemma_marks_behind(base, tail);
    }
    assert(path::marks(whole) =~= path::marks(base) + rest);
    assert(path::parts(whole) =~= path::parts(base) + path::mark_parts(rest));
}

/// What a path component is: a dot is the current directory, two are the one
/// above, and anything else is a name.
pub proof fn dots_are_no_names(segment: Seq<u8>)
    ensures
        path::part_of(seq![46u8]) == Part::Current,
        path::part_of(seq![46u8, 46u8]) == Part::Parent,
        segment != seq![46u8] && segment != seq![46u8, 46u8] ==> path::part_of(segment)
            == Part::Name(segment),
{
    assert(seq![46u8, 46u8].len() == 2);
    assert(seq![46u8].len() == 1);
}

/// A path that has a name is the path above it with that name behind.
pub proof fn paths_are_their_parents_and_their_names(place: Seq<u8>, name: Seq<u8>)
    ensures
        path::file_name(place) == Some(name) ==> (path::parent(place) matches Some(above)
            && path::parts(place) == path::parts(above).push(Part::Name(name)) && path::within(
            place,
            above,
        )),
        path::parts(place).len() > 0 && path::parts(place).last() is Name ==> path::file_name(place)
            == Some(path::parts(place).last()->Name_0),
        path::parts(place).len() == 0 || !(path::parts(place).last() is Name) ==> path::file_name(
            place,
        ) is None,
{
    path::lemma_named_has_parent(place);
    if path::file_name(place) == Some(name) {
        path::lemma_parent_parts(place);
        let above = path::parent(place)->Some_0;
        assert(path::parts(place) =~= path::parts(above).push(Part::Name(name)));
    }
}

// ---------------------------------------------------------------------------
// Below the root
// ---------------------------------------------------------------------------

proof fn lemma_body(place: Seq<u8>, index: int)
    requires
        0 < index <= place.len(),
    ensures
        index <= path::body_start(place, index) <= place.len(),
        path::marks_from(place, index) == path::marks_from(
            place,
            path::body_start(place, index),
        ),
        path::body_start(place, index) < place.len() ==> {
            let start = path::body_start(place, index);
            &&& place[start] != 47u8
            &&& place.subrange(start, path::segment_end(place, start)) != seq![46u8]
        },
    decreases place.len() - index,
{
    if index < place.len() {
        if place[index] == 47u8 {
            lemma_body(place, index + 1);
        } else {
            path::lemma_segment_end(place, index);
            let end = path::segment_end(place, index);
            if place.subrange(index, end) == path::dot() {
                lemma_body(place, end);
            }
        }
    }
}

/// What an absolute path is called below the root: it is relative, and behind a
/// slash it is the same path again.
pub proof fn paths_are_found_again_below_the_root(place: Seq<u8>)
    requires
        path::absolute(place),
    ensures
        !path::absolute(path::below_root(place)),
        path::same_path(seq![47u8] + path::below_root(place), place),
{
    let start = path::body_start(place, 0);
    assert(start == path::body_start(place, 1));
    lemma_body(place, 1);
    assert(path::marks_from(place, 0) == path::marks_from(place, 1));
    let body = path::marks_from(place, start);
    let all = path::marks(place);
    assert(all =~= seq![Mark { part: Part::Root, end: 1 }] + body);
    let rest = path::below_root(place);
    let root = seq![47u8];
    let again = root + rest;
    assert(again[0] == 47u8);
    assert(path::marks_from(again, 0) == path::marks_from(again, 1));
    if start >= place.len() {
        assert(body.len() == 0);
        assert(all.last() == all[0]);
        assert(rest.len() == 0);
        assert(path::marks_from(again, 1).len() == 0);
        assert(path::parts(again) =~= path::parts(place));
    } else {
        path::lemma_segment_end(place, start);
        assert(body.len() > 0);
        let last = body.len() - 1;
        path::lemma_mark_ends(place, start, last);
        let end = body[last].end;
        assert(all.last() == body[last]);
        assert(start < end);
        assert(rest == place.subrange(start, end));
        assert(rest[0] == place[start]);
        let front = place.take(start);
        let cut = place.take(end);
        assert(body.take(last + 1) =~= body);
        assert(path::marks_from(place, end).len() == 0);
        path::lemma_marks_prefix(cut, place, start);
        assert(path::marks_from(cut, start) + path::marks_from(place, end) =~= path::marks_from(
            cut,
            start,
        ));
        assert(cut =~= front + rest);
        lemma_marks_behind(front, rest);
        lemma_marks_behind(root, rest);
        assert(path::mark_parts(path::marks_from(again, 1)) == path::mark_parts(body));
        assert(path::marks(again) =~= seq![Mark { part: Part::Root, end: 1 }] + path::marks_from(
            again,
            1,
        ));
        assert(path::parts(again) =~= seq![Part::Root] + path::mark_parts(
            path::marks_from(again, 1),
        ));
        assert(path::parts(place) =~= seq![Part::Root] + path::mark_parts(body));
    }
}


// ---------------------------------------------------------------------------
// Walks
// ---------------------------------------------------------------------------

/// Whether the first `count` components of a path were found to be real.
pub open spec fn found_real(place: Seq<u8>, count: int, log: Seq<Answer>, at: int) -> bool {
    forall|i: int|
        0 <= i < count ==> {
            &&& talk::shown(log, #[trigger] (at + i))
            &&& !talk::shows(log, at + i, FileKind::Symlink)
            &&& i + 1 < path::parts(place).len() ==> talk::shows(log, at + i, FileKind::Directory)
        }
}

proof fn lemma_found_real(
    place: Seq<u8>,
    label: Seq<char>,
    count: int,
    log: Seq<Answer>,
    at: int,
)
    requires
        0 <= at,
        0 <= count <= path::parts(place).len(),
        found_real(place, count, log, at),
    ensures
        walk::existing_from(place, label, 0, log, at) == walk::existing_from(
            place,
            label,
            count,
            log,
            at + count,
        ),
    decreases count,
{
    if count > 0 {
        lemma_found_real(place, label, count - 1, log, at);
        assert(talk::shown(log, at + (count - 1)));
    }
}

/// A path that must exist is absolute and never goes up. Its components are
/// looked at in turn: none is a symlink, all but the last are directories, and
/// the whole is resolved at the end.
pub proof fn existing_paths_are_walked(
    place: Seq<u8>,
    label: Seq<char>,
    count: int,
    log: Seq<Answer>,
    at: int,
    canonical: Seq<u8>,
)
    requires
        0 <= at,
        0 <= count <= path::parts(place).len(),
        found_real(place, count, log, at),
    ensures
        ({
            let course = walk::existing(place, label, log, at);
            let all = path::parts(place);
            let plain = path::absolute(place) && !all.contains(Part::Parent);
            &&& !plain ==> talk::refuses(course)
            &&& plain && count < all.len() ==> {
                &&& talk::silent(log, at + count) ==> talk::asks(
                    course,
                    Query::Inspect(path::prefix(all, count + 1)),
                )
                &&& talk::shows(log, at + count, FileKind::Symlink) ==> talk::refuses(course)
                &&& talk::shown(log, at + count) && !talk::shows(
                    log,
                    at + count,
                    FileKind::Directory,
                ) && count + 1 < all.len() ==> talk::refuses(course)
                &&& talk::missing(log, at + count) || talk::unreadable(log, at + count)
                    ==> talk::breaks(course)
            }
            &&& plain && count == all.len() ==> {
                &&& talk::silent(log, at + count) ==> talk::asks(course, Query::Resolve(place))
                &&& talk::leads(log, at + count, canonical) ==> talk::gives(
                    course,
                    canonical,
                    at + count + 1,
                )
                &&& talk::nowhere(log, at + count) ==> talk::breaks(course)
            }
        }),
{
    reveal(walk::existing);
    lemma_found_real(place, label, count, log, at);
}

} // verus!
