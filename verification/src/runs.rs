//! Words that stand together on a command line.

use vstd::prelude::*;

verus! {

/// Whether some words stand in a list from `place` on.
pub open spec fn run_at(words: Seq<Seq<u8>>, place: int, run: Seq<Seq<u8>>) -> bool {
    &&& 0 <= place
    &&& place + run.len() <= words.len()
    &&& words.subrange(place, place + run.len()) == run
}

/// Whether some words stand together somewhere in a list.
#[verifier::opaque]
pub open spec fn holds_run(words: Seq<Seq<u8>>, run: Seq<Seq<u8>>) -> bool {
    exists|place: int| run_at(words, place, run)
}

/// Whether some words stand together in a list, and others behind them.
#[verifier::opaque]
pub open spec fn holds_in_order(
    words: Seq<Seq<u8>>,
    first: Seq<Seq<u8>>,
    second: Seq<Seq<u8>>,
) -> bool {
    exists|here: int, there: int| #[trigger]
        run_at(words, here, first) && #[trigger] run_at(words, there, second) && here + first.len()
            <= there
}

/// A list holds what its parts hold, and what the first part holds comes before
/// what the second one holds.
pub proof fn lemma_parts_hold(front: Seq<Seq<u8>>, back: Seq<Seq<u8>>)
    ensures
        forall|run: Seq<Seq<u8>>| #[trigger]
            holds_run(front + back, run) <== holds_run(front, run) || holds_run(back, run),
        forall|first: Seq<Seq<u8>>, second: Seq<Seq<u8>>| #[trigger]
            holds_in_order(front + back, first, second) <== holds_in_order(front, first, second)
                || holds_in_order(back, first, second) || (holds_run(front, first) && holds_run(
                back,
                second,
            )),
{
    reveal(holds_run);
    reveal(holds_in_order);
    let whole = front + back;
    let shift = front.len() as int;
    assert forall|place: int, run: Seq<Seq<u8>>| run_at(front, place, run) implies #[trigger] run_at(
        whole,
        place,
        run,
    ) by {
        assert(whole.subrange(place, place + run.len()) =~= front.subrange(
            place,
            place + run.len(),
        ));
    }
    assert forall|place: int, run: Seq<Seq<u8>>| #[trigger]
        run_at(back, place, run) implies run_at(whole, shift + place, run) by {
        assert(whole.subrange(shift + place, shift + place + run.len()) =~= back.subrange(
            place,
            place + run.len(),
        ));
    }
    assert forall|run: Seq<Seq<u8>>|
        holds_run(front, run) || holds_run(back, run) implies #[trigger] holds_run(whole, run) by {
        if holds_run(front, run) {
            let place = choose|place: int| run_at(front, place, run);
            assert(run_at(whole, place, run));
        } else {
            let place = choose|place: int| run_at(back, place, run);
            assert(run_at(whole, shift + place, run));
        }
    }
    assert forall|first: Seq<Seq<u8>>, second: Seq<Seq<u8>>|
        holds_in_order(front, first, second) || holds_in_order(back, first, second) || (holds_run(
            front,
            first,
        ) && holds_run(back, second)) implies #[trigger] holds_in_order(whole, first, second) by {
        if holds_in_order(front, first, second) {
            let (here, there) = choose|here: int, there: int| #[trigger]
                run_at(front, here, first) && #[trigger] run_at(front, there, second) && here
                    + first.len() <= there;
            assert(run_at(whole, here, first) && run_at(whole, there, second));
        } else if holds_in_order(back, first, second) {
            let (here, there) = choose|here: int, there: int| #[trigger]
                run_at(back, here, first) && #[trigger] run_at(back, there, second) && here
                    + first.len() <= there;
            assert(run_at(whole, shift + here, first) && run_at(whole, shift + there, second));
        } else {
            let here = choose|place: int| run_at(front, place, first);
            let there = choose|place: int| run_at(back, place, second);
            assert(run_at(whole, here, first) && run_at(whole, shift + there, second));
        }
    }
}

/// A list holds itself.
pub proof fn lemma_whole(words: Seq<Seq<u8>>)
    ensures
        holds_run(words, words),
{
    reveal(holds_run);
    assert(words.subrange(0, words.len() as int) =~= words);
    assert(run_at(words, 0, words));
}

/// A list holds its words one by one and in pairs.
pub proof fn lemma_words(words: Seq<Seq<u8>>)
    ensures
        forall|i: int|
            0 <= i < words.len() ==> holds_run(words, seq![#[trigger] words[i]]),
        forall|i: int, j: int|
            0 <= i && j == i + 1 && j < words.len() ==> holds_run(
                words,
                seq![#[trigger] words[i], #[trigger] words[j]],
            ),
{
    reveal(holds_run);
    assert forall|i: int| 0 <= i < words.len() implies holds_run(
        words,
        seq![#[trigger] words[i]],
    ) by {
        assert(words.subrange(i, i + 1) =~= seq![words[i]]);
        assert(run_at(words, i, seq![words[i]]));
    }
    assert forall|i: int, j: int| 0 <= i && j == i + 1 && j < words.len() implies holds_run(
        words,
        seq![#[trigger] words[i], #[trigger] words[j]],
    ) by {
        assert(words.subrange(i, i + 2) =~= seq![words[i], words[j]]);
        assert(run_at(words, i, seq![words[i], words[j]]));
    }
}

} // verus!
