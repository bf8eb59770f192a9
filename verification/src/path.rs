//! Paths as the operating system reads them: a sequence of components in the
//! raw bytes of a name.

use crate::os;
use crate::os::{OsText, PathText};
use vstd::prelude::*;
use vstd::slice::*;

verus! {

pub const SEPARATOR: u8 = 47;

pub const DOT: u8 = 46;

/// One component of a path.
pub enum Part {
    Root,
    Current,
    Parent,
    Name(Seq<u8>),
}

/// A component together with the place in the path where it ends.
pub struct Mark {
    pub part: Part,
    pub end: int,
}

/// The end of the segment that `index` lies in.
pub open spec fn segment_end(path: Seq<u8>, index: int) -> int
    decreases path.len() - index,
{
    if index < 0 || index >= path.len() || path[index] == SEPARATOR {
        index
    } else {
        segment_end(path, index + 1)
    }
}

pub open spec fn dot() -> Seq<u8> {
    seq![DOT]
}

pub open spec fn dots() -> Seq<u8> {
    seq![DOT, DOT]
}

/// The component that a non-empty segment stands for.
pub open spec fn part_of(segment: Seq<u8>) -> Part {
    if segment == dot() {
        Part::Current
    } else if segment == dots() {
        Part::Parent
    } else {
        Part::Name(segment)
    }
}

/// The components from `index` on. Repeated separators count once, and `.`
/// counts only at the very beginning.
pub open spec fn marks_from(path: Seq<u8>, index: int) -> Seq<Mark>
    decreases path.len() - index,
{
    if index < 0 || index >= path.len() {
        Seq::empty()
    } else if path[index] == SEPARATOR {
        marks_from(path, index + 1)
    } else {
        let end = segment_end(path, index);
        let part = part_of(path.subrange(index, end));
        proof {
            lemma_segment_end(path, index);
        }
        if part == Part::Current && index > 0 {
            marks_from(path, end)
        } else {
            seq![Mark { part, end }] + marks_from(path, end)
        }
    }
}

pub open spec fn absolute(path: Seq<u8>) -> bool {
    path.len() > 0 && path[0] == SEPARATOR
}

pub open spec fn marks(path: Seq<u8>) -> Seq<Mark> {
    if absolute(path) {
        seq![Mark { part: Part::Root, end: 1 }] + marks_from(path, 0)
    } else {
        marks_from(path, 0)
    }
}

/// The first place from `index` on where a component other than `.` begins.
pub open spec fn body_start(path: Seq<u8>, index: int) -> int
    decreases path.len() - index,
{
    if index < 0 || index >= path.len() {
        index
    } else if path[index] == SEPARATOR {
        body_start(path, index + 1)
    } else {
        let end = segment_end(path, index);
        proof {
            lemma_segment_end(path, index);
        }
        if path.subrange(index, end) == dot() {
            body_start(path, end)
        } else {
            index
        }
    }
}

/// An absolute path relative to the root of the filesystem.
pub open spec fn below_root(path: Seq<u8>) -> Seq<u8> {
    let all = marks(path);
    let start = body_start(path, 0);
    if all.len() > 0 && start < all.last().end {
        path.subrange(start, all.last().end)
    } else {
        Seq::empty()
    }
}

pub open spec fn mark_parts(marks: Seq<Mark>) -> Seq<Part> {
    marks.map_values(|mark: Mark| mark.part)
}

/// The components of a path.
pub open spec fn parts(path: Seq<u8>) -> Seq<Part> {
    mark_parts(marks(path))
}

/// Whether `path` is `base` or lies below it.
pub open spec fn within(path: Seq<u8>, base: Seq<u8>) -> bool {
    parts(base).is_prefix_of(parts(path))
}

/// Whether two paths have the same components.
pub open spec fn same_path(left: Seq<u8>, right: Seq<u8>) -> bool {
    parts(left) == parts(right)
}

/// `tail` taken relative to `base`; an absolute `tail` stands for itself.
pub open spec fn join(base: Seq<u8>, tail: Seq<u8>) -> Seq<u8> {
    if absolute(tail) {
        tail
    } else if base.len() > 0 && base.last() != SEPARATOR {
        base.push(SEPARATOR) + tail
    } else {
        base + tail
    }
}

/// The path without its last component.
pub open spec fn parent(path: Seq<u8>) -> Option<Seq<u8>> {
    let all = marks(path);
    if all.len() == 0 || all.last().part == Part::Root {
        None
    } else if all.len() == 1 {
        Some(Seq::empty())
    } else {
        Some(path.take(all[all.len() - 2].end))
    }
}

/// The last component, if it is a name.
pub open spec fn file_name(path: Seq<u8>) -> Option<Seq<u8>> {
    let all = parts(path);
    if all.len() > 0 && all.last() is Name {
        Some(all.last()->Name_0)
    } else {
        None
    }
}

pub open spec fn has_parent_part(path: Seq<u8>) -> bool {
    parts(path).contains(Part::Parent)
}

/// The number of components.
pub open spec fn depth(path: Seq<u8>) -> nat {
    parts(path).len()
}

pub proof fn lemma_segment_end(path: Seq<u8>, index: int)
    requires
        0 <= index <= path.len(),
    ensures
        index <= segment_end(path, index) <= path.len(),
        forall|i: int| index <= i < segment_end(path, index) ==> path[i] != SEPARATOR,
        segment_end(path, index) < path.len() ==> path[segment_end(path, index)] == SEPARATOR,
        index < path.len() && path[index] != SEPARATOR ==> index < segment_end(path, index),
    decreases path.len() - index,
{
    if index < path.len() && path[index] != SEPARATOR {
        lemma_segment_end(path, index + 1);
    }
}

/// A name that a directory can hold.
pub open spec fn plain_name(name: Seq<u8>) -> bool {
    &&& name.len() > 0
    &&& !name.contains(SEPARATOR)
    &&& name != dot()
    &&& name != dots()
}

/// Every name among the components of a path is one that a directory can hold.
pub proof fn lemma_names_are_plain(path: Seq<u8>, index: int)
    requires
        0 <= index,
    ensures
        forall|i: int|
            0 <= i < marks_from(path, index).len() && marks_from(path, index)[i].part is Name
                ==> plain_name(#[trigger] marks_from(path, index)[i].part->Name_0),
        forall|i: int|
            0 <= i < marks_from(path, index).len() ==> (#[trigger] marks_from(path, index)[i]).part
                != Part::Root,
        index > 0 ==> forall|i: int|
            0 <= i < marks_from(path, index).len() ==> (#[trigger] marks_from(path, index)[i]).part
                != Part::Current,
    decreases path.len() - index,
{
    if index < path.len() {
        if path[index] == SEPARATOR {
            lemma_names_are_plain(path, index + 1);
        } else {
            lemma_segment_end(path, index);
            let end = segment_end(path, index);
            let segment = path.subrange(index, end);
            lemma_names_are_plain(path, end);
            assert(!segment.contains(SEPARATOR)) by {
                if segment.contains(SEPARATOR) {
                    let i = choose|i: int| 0 <= i < segment.len() && segment[i] == SEPARATOR;
                    assert(path[index + i] == SEPARATOR);
                }
            }
        }
    }
}

/// The names of a path are plain, and only the first component can be the root
/// or `.`.
pub proof fn lemma_parts_shape(path: Seq<u8>)
    ensures
        forall|i: int|
            0 <= i < parts(path).len() && parts(path)[i] is Name ==> plain_name(
                #[trigger] parts(path)[i]->Name_0,
            ),
        forall|i: int|
            0 < i < parts(path).len() ==> #[trigger] parts(path)[i] != Part::Root && parts(path)[i]
                != Part::Current,
        absolute(path) <==> parts(path).len() > 0 && parts(path)[0] == Part::Root,
        absolute(path) ==> forall|i: int|
            0 <= i < parts(path).len() ==> #[trigger] parts(path)[i] != Part::Current,
{
    lemma_names_are_plain(path, 0);
    let rest = marks_from(path, 0);
    if absolute(path) {
        assert(marks_from(path, 0) == marks_from(path, 1));
        lemma_names_are_plain(path, 1);
        assert(forall|i: int| 0 < i < marks(path).len() ==> marks(path)[i] == rest[i - 1]);
    } else if path.len() > 0 {
        lemma_segment_end(path, 0);
        let end = segment_end(path, 0);
        lemma_names_are_plain(path, end);
        assert(forall|i: int| 0 < i < rest.len() ==> rest[i] == marks_from(path, end)[i - 1]);
    }
}

/// Cutting a path where a segment ends, or appending to it behind a separator,
/// leaves the segments before that place alone.
proof fn lemma_segment_end_prefix(path: Seq<u8>, whole: Seq<u8>, index: int)
    requires
        path.is_prefix_of(whole),
        0 <= index < path.len(),
        path.len() == whole.len() || whole[path.len() as int] == SEPARATOR || path.last()
            == SEPARATOR,
    ensures
        segment_end(path, index) == segment_end(whole, index),
    decreases path.len() - index,
{
    assert(path[index] == whole[index]);
    if path[index] != SEPARATOR {
        if index + 1 < path.len() {
            lemma_segment_end_prefix(path, whole, index + 1);
        } else {
            assert(segment_end(path, index + 1) == path.len());
            assert(segment_end(whole, index + 1) == path.len());
        }
    }
}

/// The components of a path with more behind a separator are its own followed
/// by those of the rest.
pub proof fn lemma_marks_prefix(path: Seq<u8>, whole: Seq<u8>, index: int)
    requires
        path.is_prefix_of(whole),
        0 <= index <= path.len(),
        path.len() > 0,
        path.len() == whole.len() || whole[path.len() as int] == SEPARATOR || path.last()
            == SEPARATOR,
    ensures
        marks_from(whole, index) == marks_from(path, index) + marks_from(
            whole,
            path.len() as int,
        ),
    decreases path.len() - index,
{
    let tail = marks_from(whole, path.len() as int);
    if index == path.len() {
        assert(marks_from(path, index) + tail =~= tail);
    } else {
        assert(path[index] == whole[index]);
        if path[index] == SEPARATOR {
            lemma_marks_prefix(path, whole, index + 1);
        } else {
            lemma_segment_end_prefix(path, whole, index);
            lemma_segment_end(path, index);
            let end = segment_end(path, index);
            assert(path.subrange(index, end) =~= whole.subrange(index, end));
            lemma_marks_prefix(path, whole, end);
            let part = part_of(path.subrange(index, end));
            if !(part == Part::Current && index > 0) {
                let mark = Mark { part, end };
                assert((seq![mark] + marks_from(path, end)) + tail =~= seq![mark] + (marks_from(
                    path,
                    end,
                ) + tail));
            }
        }
    }
}

/// A plain name from `index` to the end of a path is one component.
proof fn lemma_marks_of_name(path: Seq<u8>, index: int)
    requires
        0 <= index < path.len(),
        plain_name(path.subrange(index, path.len() as int)),
    ensures
        marks_from(path, index) == seq![
            Mark {
                part: Part::Name(path.subrange(index, path.len() as int)),
                end: path.len() as int,
            },
        ],
{
    let name = path.subrange(index, path.len() as int);
    lemma_segment_end(path, index);
    let end = segment_end(path, index);
    assert(name[0] == path[index]);
    assert(path[index] != SEPARATOR) by {
        if path[index] == SEPARATOR {
            assert(name.contains(SEPARATOR));
        }
    }
    if end < path.len() {
        assert(name[end - index] == SEPARATOR);
        assert(name.contains(SEPARATOR));
    }
    assert(marks_from(path, end) =~= Seq::empty());
    let mark = Mark { part: Part::Name(name), end: path.len() as int };
    assert(seq![mark] + Seq::<Mark>::empty() =~= seq![mark]);
}

/// Joining a plain name adds exactly one component.
pub proof fn lemma_join_name(base: Seq<u8>, name: Seq<u8>)
    requires
        plain_name(name),
    ensures
        parts(join(base, name)) == parts(base).push(Part::Name(name)),
        absolute(join(base, name)) == absolute(base),
{
    let whole = join(base, name);
    assert(!absolute(name)) by {
        if absolute(name) {
            assert(name.contains(SEPARATOR));
        }
    }
    let start = whole.len() - name.len();
    assert(whole.subrange(start, whole.len() as int) =~= name);
    lemma_marks_of_name(whole, start);
    let mark = Mark { part: Part::Name(name), end: whole.len() as int };
    if base.len() == 0 {
        assert(parts(whole) =~= parts(base).push(Part::Name(name)));
    } else {
        assert(base.is_prefix_of(whole));
        lemma_marks_prefix(base, whole, 0);
        if base.last() != SEPARATOR {
            assert(whole[base.len() as int] == SEPARATOR);
            assert(marks_from(whole, base.len() as int) == marks_from(whole, start));
        }
        assert(whole[0] == base[0]);
        assert(marks(whole) =~= marks(base).push(mark));
        assert(parts(whole) =~= parts(base).push(Part::Name(name)));
    }
}

/// The end of a component lies inside the path, at a separator or at the end.
pub proof fn lemma_mark_ends(path: Seq<u8>, index: int, at: int)
    requires
        0 <= index,
        0 <= at < marks_from(path, index).len(),
    ensures
        index < marks_from(path, index)[at].end <= path.len(),
        marks_from(path, index)[at].end < path.len() ==> path[marks_from(path, index)[at].end]
            == SEPARATOR,
        marks_from(path, index) == marks_from(path, index).take(at + 1) + marks_from(
            path,
            marks_from(path, index)[at].end,
        ),
    decreases path.len() - index,
{
    let all = marks_from(path, index);
    if path[index] == SEPARATOR {
        lemma_mark_ends(path, index + 1, at);
    } else {
        lemma_segment_end(path, index);
        let end = segment_end(path, index);
        let part = part_of(path.subrange(index, end));
        let rest = marks_from(path, end);
        if part == Part::Current && index > 0 {
            lemma_mark_ends(path, end, at);
        } else if at == 0 {
            assert(all.take(1) =~= seq![Mark { part, end }]);
        } else {
            assert(all[at] == rest[at - 1]);
            lemma_mark_ends(path, end, at - 1);
            assert(all.take(at + 1) =~= seq![Mark { part, end }] + rest.take(at));
            let tail = marks_from(path, all[at].end);
            assert(seq![Mark { part, end }] + (rest.take(at) + tail) =~= (seq![Mark { part, end }]
                + rest.take(at)) + tail);
        }
    }
}

/// The path above another has all of its components but the last.
pub proof fn lemma_parent_parts(path: Seq<u8>)
    requires
        parent(path) is Some,
    ensures
        parts(parent(path)->Some_0) == parts(path).drop_last(),
        parent(path)->Some_0.is_prefix_of(path),
{
    let all = marks(path);
    let above = parent(path)->Some_0;
    if all.len() == 1 {
        assert(parts(above) =~= parts(path).drop_last());
    } else {
        let end = all[all.len() - 2].end;
        let offset: int = if absolute(path) { 1 } else { 0 };
        let body = marks_from(path, 0);
        if offset == 1 {
            assert(forall|i: int| 1 <= i < all.len() ==> all[i] == body[i - 1]);
        }
        if offset == 1 && all.len() == 2 {
            // Only the root is left.
            assert(end == 1);
            assert(above =~= seq![SEPARATOR]);
            assert(marks_from(above, 1) =~= Seq::empty());
            assert(marks_from(above, 0) == marks_from(above, 1));
            assert(marks(above) =~= all.drop_last());
        } else {
            let at = all.len() - 2 - offset;
            assert(all[all.len() - 2] == body[at]);
            lemma_mark_ends(path, 0, at);
            assert(above.is_prefix_of(path));
            lemma_marks_prefix(above, path, 0);
            let tail = marks_from(path, end);
            let head = body.take(at + 1);
            assert(body == head + tail);
            assert(body == marks_from(above, 0) + tail);
            assert(head.len() == marks_from(above, 0).len());
            assert(marks_from(above, 0) =~= head) by {
                assert forall|i: int|
                    0 <= i < head.len() implies head[i] == marks_from(above, 0)[i] by {
                    assert(body[i] == (head + tail)[i]);
                    assert(body[i] == (marks_from(above, 0) + tail)[i]);
                }
            }
            assert(above[0] == path[0]);
            assert(marks(above) =~= all.drop_last());
        }
        assert(parts(above) =~= parts(path).drop_last());
    }
}

/// A component of a path.
#[derive(Debug, PartialEq, Eq)]
pub enum Component {
    RootDir,
    CurDir,
    ParentDir,
    Normal(OsText),
}

impl View for Component {
    type V = Part;

    open spec fn view(&self) -> Part {
        match self {
            Component::RootDir => Part::Root,
            Component::CurDir => Part::Current,
            Component::ParentDir => Part::Parent,
            Component::Normal(name) => Part::Name(name@),
        }
    }
}

/// A component with the number of bytes of the path up to its end.
pub struct Step {
    pub component: Component,
    pub end: usize,
}

impl View for Step {
    type V = Mark;

    open spec fn view(&self) -> Mark {
        Mark { part: self.component@, end: self.end as int }
    }
}

pub open spec fn step_marks(steps: Seq<Step>) -> Seq<Mark> {
    steps.map_values(|step: Step| step@)
}

impl Component {
    pub fn same(&self, other: &Component) -> (equal: bool)
        ensures
            equal == (self@ == other@),
    {
        match (self, other) {
            (Component::RootDir, Component::RootDir) => true,
            (Component::CurDir, Component::CurDir) => true,
            (Component::ParentDir, Component::ParentDir) => true,
            (Component::Normal(left), Component::Normal(right)) => left.same(right),
            _ => false,
        }
    }
}

fn find_segment_end(path: &Vec<u8>, index: usize) -> (end: usize)
    requires
        index <= path.len(),
    ensures
        end as int == segment_end(path@, index as int),
        index <= end <= path.len(),
{
    let mut end: usize = index;
    while end < path.len() && path[end] != SEPARATOR
        invariant
            index <= end <= path.len(),
            segment_end(path@, index as int) == segment_end(path@, end as int),
        decreases path.len() - end,
    {
        end = end + 1;
    }
    end
}

fn component_of(segment: &[u8]) -> (component: Component)
    ensures
        component@ == part_of(segment@),
{
    if segment.len() == 1 && segment[0] == DOT {
        assert(segment@ =~= dot());
        Component::CurDir
    } else if segment.len() == 2 && segment[0] == DOT && segment[1] == DOT {
        assert(segment@ =~= dots());
        Component::ParentDir
    } else {
        assert(segment@ != dot()) by {
            if segment@ == dot() {
                assert(segment@[0] == DOT);
            }
        }
        assert(segment@ != dots()) by {
            if segment@ == dots() {
                assert(segment@[0] == DOT && segment@[1] == DOT);
            }
        }
        Component::Normal(OsText::from_bytes(segment))
    }
}

/// The components of `path` with their ends.
pub fn steps(path: &PathText) -> (steps: Vec<Step>)
    ensures
        step_marks(steps@) == marks(path@),
        forall|i: int| 0 <= i < steps.len() ==> steps[i].end <= path@.len(),
{
    let mut steps: Vec<Step> = Vec::new();
    let bytes = &path.bytes;
    if bytes.len() > 0 && bytes[0] == SEPARATOR {
        steps.push(Step { component: Component::RootDir, end: 1 });
        assert(step_marks(steps@) =~= seq![Mark { part: Part::Root, end: 1 }]);
    }
    let mut index: usize = 0;
    assert(step_marks(steps@) + marks_from(path@, 0) =~= marks(path@));
    while index < bytes.len()
        invariant
            bytes@ == path@,
            index <= bytes.len(),
            step_marks(steps@) + marks_from(path@, index as int) == marks(path@),
            forall|i: int| 0 <= i < steps.len() ==> steps[i].end <= path@.len(),
        decreases bytes.len() - index,
    {
        if bytes[index] == SEPARATOR {
            index = index + 1;
        } else {
            let end = find_segment_end(bytes, index);
            proof {
                lemma_segment_end(path@, index as int);
            }
            let component = component_of(slice_subrange(bytes.as_slice(), index, end));
            let skipped = index > 0 && component.same(&Component::CurDir);
            if !skipped {
                let ghost before = step_marks(steps@);
                let ghost mark = Mark { part: component@, end: end as int };
                steps.push(Step { component, end });
                assert(step_marks(steps@) =~= before.push(mark));
                assert(before.push(mark) + marks_from(path@, end as int) =~= before + (seq![mark]
                    + marks_from(path@, end as int)));
            }
            index = end;
        }
    }
    assert(step_marks(steps@) + marks_from(path@, index as int) =~= step_marks(steps@));
    steps
}

impl OsText {
    pub fn is_absolute(&self) -> (yes: bool)
        ensures
            yes == absolute(self@),
    {
        self.bytes.len() > 0 && self.bytes[0] == SEPARATOR
    }

    /// The components of the path, in order.
    pub fn components(&self) -> (components: Vec<Component>)
        ensures
            components@.map_values(|component: Component| component@) == parts(self@),
            components.len() == parts(self@).len(),
    {
        let steps = steps(self);
        let mut components: Vec<Component> = Vec::new();
        let mut index: usize = 0;
        while index < steps.len()
            invariant
                index <= steps.len(),
                step_marks(steps@) == marks(self@),
                components@.map_values(|component: Component| component@) == parts(self@).take(
                    index as int,
                ),
            decreases steps.len() - index,
        {
            let copy = match &steps[index].component {
                Component::RootDir => Component::RootDir,
                Component::CurDir => Component::CurDir,
                Component::ParentDir => Component::ParentDir,
                Component::Normal(name) => Component::Normal(name.clone()),
            };
            assert(copy@ == step_marks(steps@)[index as int].part);
            let ghost before = components@;
            components.push(copy);
            index = index + 1;
            assert(components@.map_values(|component: Component| component@)
                =~= before.map_values(|component: Component| component@).push(copy@));
            assert(parts(self@).take(index as int) =~= parts(self@).take(index - 1).push(
                parts(self@)[index - 1],
            ));
        }
        assert(parts(self@).take(index as int) =~= parts(self@));
        assert(components@.map_values(|component: Component| component@).len()
            == components.len());
        components
    }

    /// Whether the path is `base` or lies below it.
    pub fn starts_with(&self, base: &PathText) -> (inside: bool)
        ensures
            inside == within(self@, base@),
    {
        let mine = self.components();
        let theirs = base.components();
        let ghost left = mine@.map_values(|component: Component| component@);
        let ghost right = theirs@.map_values(|component: Component| component@);
        if theirs.len() > mine.len() {
            return false;
        }
        let mut index: usize = 0;
        while index < theirs.len()
            invariant
                index <= theirs.len() <= mine.len(),
                left == parts(self@),
                right == parts(base@),
                left == mine@.map_values(|component: Component| component@),
                right == theirs@.map_values(|component: Component| component@),
                forall|i: int| 0 <= i < index ==> left[i] == right[i],
            decreases theirs.len() - index,
        {
            if !mine[index].same(&theirs[index]) {
                assert(left[index as int] != right[index as int]);
                return false;
            }
            assert(left[index as int] == right[index as int]);
            index = index + 1;
        }
        assert(right =~= left.take(right.len() as int));
        true
    }

    /// Whether both paths have the same components.
    pub fn same_path(&self, other: &PathText) -> (equal: bool)
        ensures
            equal == same_path(self@, other@),
    {
        let inside = self.starts_with(other);
        let count = self.depth();
        let other_count = other.depth();
        assert(inside && count == other_count ==> parts(self@) =~= parts(other@));
        inside && count == other_count
    }

    /// The number of components.
    pub fn depth(&self) -> (count: usize)
        ensures
            count as nat == depth(self@),
    {
        self.components().len()
    }

    /// Whether a component is `..`.
    pub fn has_parent_component(&self) -> (found: bool)
        ensures
            found == has_parent_part(self@),
    {
        let components = self.components();
        let ghost all = components@.map_values(|component: Component| component@);
        let mut index: usize = 0;
        while index < components.len()
            invariant
                index <= components.len(),
                all == components@.map_values(|component: Component| component@),
                all == parts(self@),
                forall|i: int| 0 <= i < index ==> all[i] != Part::Parent,
            decreases components.len() - index,
        {
            if components[index].same(&Component::ParentDir) {
                assert(all[index as int] == Part::Parent);
                return true;
            }
            assert(all[index as int] != Part::Parent);
            index = index + 1;
        }
        false
    }

    /// `tail` taken relative to this path.
    pub fn join(&self, tail: &PathText) -> (joined: PathText)
        ensures
            joined@ == join(self@, tail@),
    {
        if tail.is_absolute() {
            return tail.clone();
        }
        let mut bytes = self.bytes.clone();
        if bytes.len() > 0 && bytes[bytes.len() - 1] != SEPARATOR {
            bytes.push(SEPARATOR);
        }
        bytes.extend_from_slice(tail.bytes.as_slice());
        OsText { bytes }
    }

    /// `tail` taken relative to this path.
    pub fn join_text(&self, tail: &str) -> (joined: PathText)
        ensures
            joined@ == join(self@, os::lit(tail)),
    {
        self.join(&OsText::new(tail))
    }

    /// The path without its last component.
    pub fn parent(&self) -> (above: Option<PathText>)
        ensures
            match above {
                Some(above) => parent(self@) == Some(above@),
                None => parent(self@) is None,
            },
    {
        let steps = steps(self);
        let ghost all = step_marks(steps@);
        let count = steps.len();
        assert(all.len() == count);
        if count == 0 {
            return None;
        }
        assert(all[count - 1] == steps[count - 1]@);
        if steps[count - 1].component.same(&Component::RootDir) {
            return None;
        }
        if count == 1 {
            let empty = OsText { bytes: Vec::new() };
            assert(empty@ =~= Seq::<u8>::empty());
            return Some(empty);
        }
        let end = steps[count - 2].end;
        assert(all[count - 2] == steps[count - 2]@);
        let above = OsText::from_bytes(slice_subrange(self.bytes.as_slice(), 0, end));
        assert(above@ =~= self@.take(end as int));
        Some(above)
    }

    /// The path relative to the root of the filesystem.
    pub fn below_root(&self) -> (rest: PathText)
        ensures
            rest@ == below_root(self@),
    {
        let steps = steps(self);
        let ghost all = step_marks(steps@);
        let bytes = &self.bytes;
        let mut start: usize = 0;
        let mut found = false;
        while !found && start < bytes.len()
            invariant
                bytes@ == self@,
                start <= bytes.len(),
                body_start(self@, 0) == body_start(self@, start as int),
                found ==> body_start(self@, start as int) == start,
            decreases bytes.len() - start + (if found { 0int } else { 1int }),
        {
            if bytes[start] == SEPARATOR {
                start = start + 1;
            } else {
                let end = find_segment_end(bytes, start);
                proof {
                    lemma_segment_end(self@, start as int);
                }
                let segment = slice_subrange(bytes.as_slice(), start, end);
                let component = component_of(segment);
                proof {
                    assert(dot() != dots()) by {
                        assert(dot().len() != dots().len());
                    }
                }
                if component.same(&Component::CurDir) {
                    start = end;
                } else {
                    found = true;
                }
            }
        }
        let count = steps.len();
        if count == 0 {
            let empty = OsText { bytes: Vec::new() };
            assert(empty@ =~= Seq::<u8>::empty());
            return empty;
        }
        let end = steps[count - 1].end;
        assert(all.last() == steps[count - 1]@);
        if start < end {
            let rest = OsText::from_bytes(slice_subrange(bytes.as_slice(), start, end));
            assert(rest@ =~= self@.subrange(start as int, end as int));
            rest
        } else {
            let empty = OsText { bytes: Vec::new() };
            assert(empty@ =~= Seq::<u8>::empty());
            empty
        }
    }

    /// The last component, if it is a name.
    pub fn file_name(&self) -> (name: Option<OsText>)
        ensures
            match name {
                Some(name) => file_name(self@) == Some(name@),
                None => file_name(self@) is None,
            },
    {
        let components = self.components();
        let ghost all = components@.map_values(|component: Component| component@);
        let count = components.len();
        if count == 0 {
            return None;
        }
        assert(all[count - 1] == components[count - 1]@);
        match &components[count - 1] {
            Component::Normal(name) => Some(name.clone()),
            _ => None,
        }
    }
}

/// A path with one more component.
pub open spec fn grown(base: Seq<u8>, part: Part) -> Seq<u8> {
    match part {
        Part::Root => seq![SEPARATOR],
        Part::Current => base,
        Part::Parent => join(base, dots()),
        Part::Name(name) => join(base, name),
    }
}

/// The path made of the first `count` components.
pub open spec fn prefix(parts: Seq<Part>, count: int) -> Seq<u8>
    decreases count,
{
    if count <= 0 {
        Seq::empty()
    } else {
        grown(prefix(parts, count - 1), parts[count - 1])
    }
}

/// `base` after one more component, with `..` taken back at once.
pub open spec fn normalized_step(base: Seq<u8>, part: Part) -> Seq<u8> {
    match part {
        Part::Parent => if file_name(base) is Some {
            parent(base)->Some_0
        } else {
            base
        },
        _ => grown(base, part),
    }
}

/// The first `count` components, with every `..` taken back lexically.
pub open spec fn normalized_prefix(parts: Seq<Part>, count: int) -> Seq<u8>
    decreases count,
{
    if count <= 0 {
        Seq::empty()
    } else {
        normalized_step(normalized_prefix(parts, count - 1), parts[count - 1])
    }
}

/// The path with every `..` taken back lexically.
pub open spec fn normalized(path: Seq<u8>) -> Seq<u8> {
    normalized_prefix(parts(path), parts(path).len() as int)
}

/// Adds one component to a path.
pub fn grow(base: &PathText, component: &Component) -> (path: PathText)
    ensures
        path@ == grown(base@, component@),
{
    match component {
        Component::RootDir => {
            let mut bytes: Vec<u8> = Vec::new();
            bytes.push(SEPARATOR);
            let root = OsText { bytes };
            assert(root@ =~= seq![SEPARATOR]);
            root
        },
        Component::CurDir => base.clone(),
        Component::ParentDir => {
            let mut bytes: Vec<u8> = Vec::new();
            bytes.push(DOT);
            bytes.push(DOT);
            let up = OsText { bytes };
            assert(up@ =~= dots());
            base.join(&up)
        },
        Component::Normal(name) => base.join(name),
    }
}

/// The path with every `..` taken back lexically.
pub fn lexical_normalize(path: &PathText) -> (result: PathText)
    ensures
        result@ == normalized(path@),
{
    let components = path.components();
    let ghost all = parts(path@);
    let mut current = OsText { bytes: Vec::new() };
    let mut index: usize = 0;
    assert(current@ =~= Seq::empty());
    while index < components.len()
        invariant
            index <= components.len() == all.len(),
            components@.map_values(|component: Component| component@) == all,
            current@ == normalized_prefix(all, index as int),
        decreases components.len() - index,
    {
        assert(all[index as int] == components[index as int]@);
        let component = &components[index];
        let next = match component {
            Component::ParentDir => {
                if current.file_name().is_some() {
                    match current.parent() {
                        Some(above) => above,
                        None => current.clone(),
                    }
                } else {
                    current.clone()
                }
            },
            _ => grow(&current, component),
        };
        proof {
            lemma_named_has_parent(current@);
        }
        current = next;
        index = index + 1;
    }
    current
}

/// A path that ends in a name has a path above it.
pub proof fn lemma_named_has_parent(path: Seq<u8>)
    ensures
        file_name(path) is Some ==> parent(path) is Some,
{
    if file_name(path) is Some {
        assert(parts(path).last() == marks(path).last().part);
    }
}

/// The components of an absolute path without `..`.
pub open spec fn straight(parts: Seq<Part>) -> bool {
    &&& parts.len() > 0
    &&& parts[0] == Part::Root
    &&& forall|i: int| 0 < i < parts.len() ==> #[trigger] parts[i] is Name
    &&& forall|i: int| 0 < i < parts.len() ==> plain_name(#[trigger] parts[i]->Name_0)
}

/// What `..` leaves of the first `count` components: it takes back the name
/// before it, and nothing above the root.
pub open spec fn resolved_parts(parts: Seq<Part>, count: int) -> Seq<Part>
    decreases count,
{
    if count <= 0 {
        Seq::empty()
    } else {
        let before = resolved_parts(parts, count - 1);
        match parts[count - 1] {
            Part::Parent => if before.len() > 0 && before.last() is Name {
                before.drop_last()
            } else {
                before
            },
            Part::Current => before,
            part => before.push(part),
        }
    }
}

proof fn lemma_root_parts()
    ensures
        parts(seq![SEPARATOR]) == seq![Part::Root],
{
    let root = seq![SEPARATOR];
    assert(marks_from(root, 1) =~= Seq::empty());
    assert(marks_from(root, 0) == marks_from(root, 1));
    assert(marks(root) =~= seq![Mark { part: Part::Root, end: 1 }]);
    assert(parts(root) =~= seq![Part::Root]);
}

proof fn lemma_normalized_parts(path: Seq<u8>, count: int)
    requires
        absolute(path),
        1 <= count <= parts(path).len(),
    ensures
        parts(normalized_prefix(parts(path), count)) == resolved_parts(parts(path), count),
        straight(resolved_parts(parts(path), count)),
        normalized_prefix(parts(path), count) == prefix(
            resolved_parts(parts(path), count),
            resolved_parts(parts(path), count).len() as int,
        ),
    decreases count,
{
    let all = parts(path);
    lemma_parts_shape(path);
    if count == 1 {
        lemma_root_parts();
        assert(normalized_prefix(all, 0) =~= Seq::empty());
        assert(resolved_parts(all, 0) =~= Seq::empty());
        assert(resolved_parts(all, 1) =~= seq![Part::Root]);
        assert(prefix(seq![Part::Root], 1) =~= seq![SEPARATOR]);
    } else {
        lemma_normalized_parts(path, count - 1);
        let base = normalized_prefix(all, count - 1);
        let before = resolved_parts(all, count - 1);
        match all[count - 1] {
            Part::Parent => {
                if before.last() is Name {
                    lemma_named_has_parent(base);
                    lemma_parent_parts(base);
                    let after = before.drop_last();
                    assert(after[0] == before[0]);
                    assert forall|i: int| 0 < i < after.len() implies (#[trigger] after[i]) is Name
                        && plain_name(after[i]->Name_0) by {
                        assert(after[i] == before[i]);
                    }
                    lemma_rendered_parent(before);
                }
            },
            Part::Name(name) => {
                lemma_join_name(base, name);
                let after = before.push(all[count - 1]);
                assert forall|i: int| 0 < i < after.len() implies (#[trigger] after[i]) is Name
                    && plain_name(after[i]->Name_0) by {
                    if i < before.len() {
                        assert(after[i] == before[i]);
                    }
                }
                lemma_prefix_of_push(before, all[count - 1], before.len() as int);
            },
            _ => {},
        }
    }
}

/// The rendering of the first components does not depend on the later ones.
proof fn lemma_prefix_of_push(parts: Seq<Part>, last: Part, count: int)
    requires
        0 <= count <= parts.len(),
    ensures
        prefix(parts.push(last), count) == prefix(parts, count),
    decreases count,
{
    if count > 0 {
        lemma_prefix_of_push(parts, last, count - 1);
    }
}

/// Rendering straight components gives a path with these components.
pub proof fn lemma_rendered_parts(parts_given: Seq<Part>, count: int)
    requires
        straight(parts_given),
        1 <= count <= parts_given.len(),
    ensures
        parts(prefix(parts_given, count)) == parts_given.take(count),
        absolute(prefix(parts_given, count)),
    decreases count,
{
    if count == 1 {
        lemma_root_parts();
        assert(prefix(parts_given, 0) =~= Seq::empty());
        assert(parts_given.take(1) =~= seq![Part::Root]);
    } else {
        lemma_rendered_parts(parts_given, count - 1);
        lemma_join_name(prefix(parts_given, count - 1), parts_given[count - 1]->Name_0);
        assert(parts_given.take(count) =~= parts_given.take(count - 1).push(
            parts_given[count - 1],
        ));
    }
}

/// The marks of a rendered path end where the shorter renderings end.
proof fn lemma_rendered_parent(parts_given: Seq<Part>)
    requires
        straight(parts_given),
        parts_given.len() >= 2,
    ensures
        parent(prefix(parts_given, parts_given.len() as int)) == Some(
            prefix(parts_given.drop_last(), parts_given.len() - 1),
        ),
{
    let count = parts_given.len() as int;
    let base = prefix(parts_given, count - 1);
    let name = parts_given[count - 1]->Name_0;
    let whole = prefix(parts_given, count);
    lemma_rendered_parts(parts_given, count - 1);
    lemma_rendered_parts(parts_given, count);
    assert(whole == join(base, name));
    lemma_prefix_of_push(parts_given.drop_last(), parts_given.last(), count - 1);
    assert(parts_given.drop_last().push(parts_given.last()) =~= parts_given);
    // The last mark of the base ends with the base.
    lemma_rendered_end(parts_given, count - 1);
    lemma_marks_of_joined(base, name);
    assert(marks(whole).len() == parts(whole).len());
    assert(marks(whole)[count - 2] == marks(base)[count - 2]);
    assert(whole.take(base.len() as int) =~= base);
}

/// The last component of a rendered path ends with the path.
proof fn lemma_rendered_end(parts_given: Seq<Part>, count: int)
    requires
        straight(parts_given),
        1 <= count <= parts_given.len(),
    ensures
        marks(prefix(parts_given, count)).len() == count,
        marks(prefix(parts_given, count)).last().end == prefix(parts_given, count).len(),
{
    lemma_rendered_parts(parts_given, count);
    let whole = prefix(parts_given, count);
    assert(marks(whole).len() == parts(whole).len());
    if count == 1 {
        assert(prefix(parts_given, 0) =~= Seq::empty());
        assert(whole =~= seq![SEPARATOR]);
        assert(marks_from(whole, 1) =~= Seq::empty());
        assert(marks_from(whole, 0) == marks_from(whole, 1));
        assert(marks(whole) =~= seq![Mark { part: Part::Root, end: 1 }]);
    } else {
        lemma_rendered_parts(parts_given, count - 1);
        lemma_marks_of_joined(prefix(parts_given, count - 1), parts_given[count - 1]->Name_0);
    }
}

/// The marks of a path joined with a plain name.
proof fn lemma_marks_of_joined(base: Seq<u8>, name: Seq<u8>)
    requires
        plain_name(name),
        absolute(base),
    ensures
        marks(join(base, name)) == marks(base).push(
            Mark { part: Part::Name(name), end: join(base, name).len() as int },
        ),
{
    let whole = join(base, name);
    assert(!absolute(name)) by {
        if absolute(name) {
            assert(name.contains(SEPARATOR));
        }
    }
    let start = whole.len() - name.len();
    let mark = Mark { part: Part::Name(name), end: whole.len() as int };
    assert(marks_from(whole, start) == seq![mark]) by {
        assert(whole.subrange(start, whole.len() as int) =~= name);
        lemma_marks_of_name(whole, start);
    }
    assert(base.is_prefix_of(whole));
    assert(base.last() != SEPARATOR ==> whole[base.len() as int] == SEPARATOR);
    assert(marks_from(whole, base.len() as int) == marks_from(whole, start)) by {
        if base.last() != SEPARATOR {
            assert(start == base.len() + 1);
        } else {
            assert(start == base.len());
        }
    }
    assert(marks_from(whole, 0) == marks_from(base, 0) + seq![mark]) by {
        lemma_marks_prefix(base, whole, 0);
    }
    assert(whole[0] == base[0]);
    lemma_marked(Mark { part: Part::Root, end: 1 }, marks_from(base, 0), mark);
}

proof fn lemma_marked(first: Mark, middle: Seq<Mark>, last: Mark)
    ensures
        seq![first] + (middle + seq![last]) == (seq![first] + middle).push(last),
{
    assert(seq![first] + (middle + seq![last]) =~= (seq![first] + middle).push(last));
}

/// Normalizing an absolute path gives the absolute path of the components that
/// `..` leaves: the root followed by names only. Without `..` it stays the same
/// path.
pub proof fn normalization_resolves_parents(path: Seq<u8>)
    requires
        absolute(path),
    ensures
        parts(normalized(path)) == resolved_parts(parts(path), parts(path).len() as int),
        straight(parts(normalized(path))),
        absolute(normalized(path)),
        !has_parent_part(normalized(path)),
        !has_parent_part(path) ==> same_path(normalized(path), path),
{
    lemma_parts_shape(path);
    if !has_parent_part(path) {
        let given = parts(path);
        assert forall|i: int| 0 < i < given.len() implies #[trigger] given[i] is Name by {
            assert(given[i] != Part::Parent);
        }
        lemma_straight_is_resolved(given, given.len() as int);
        assert(given.take(given.len() as int) =~= given);
    }
    lemma_normalized_parts(path, parts(path).len() as int);
    let all = parts(normalized(path));
    lemma_parts_shape(normalized(path));
    if all.contains(Part::Parent) {
        let i = choose|i: int| 0 <= i < all.len() && all[i] == Part::Parent;
        assert(all[i] is Name || i == 0);
    }
}

proof fn lemma_straight_is_resolved(parts: Seq<Part>, count: int)
    requires
        straight(parts),
        0 <= count <= parts.len(),
    ensures
        resolved_parts(parts, count) == parts.take(count),
    decreases count,
{
    if count > 0 {
        lemma_straight_is_resolved(parts, count - 1);
        assert(parts.take(count) =~= parts.take(count - 1).push(parts[count - 1]));
        assert(parts[count - 1] is Name || count == 1);
    } else {
        assert(parts.take(0) =~= Seq::empty());
    }
}

/// Normalizing an absolute path a second time changes nothing.
pub proof fn normalization_is_idempotent(path: Seq<u8>)
    requires
        absolute(path),
    ensures
        normalized(normalized(path)) == normalized(path),
{
    normalization_resolves_parents(path);
    lemma_parts_shape(path);
    lemma_normalized_parts(path, parts(path).len() as int);
    let once = normalized(path);
    let all = parts(once);
    lemma_normalized_parts(once, all.len() as int);
    lemma_straight_is_resolved(all, all.len() as int);
    assert(all.take(all.len() as int) =~= all);
}

} // verus!
