//! Candidates kept in the order of their scores; candidates of one score in
//! the order in which they were found.

use vstd::prelude::*;

verus! {

/// Entries ordered by score, lowest first; entries of one score in the order
/// in which they came.
pub struct ScoreBoard<T> {
    entries: Vec<(i64, T)>,
}

/// Whether no entry of `s` scores higher than a later one.
pub open spec fn rising<T>(s: Seq<(i64, T)>) -> bool {
    forall|i: int, j: int| 0 <= i < j < s.len() ==> (#[trigger] s[i]).0 <= (#[trigger] s[j]).0
}

/// Whether `i` is the place of a new entry of `score` in `s`: no entry before
/// it scores higher and every entry from it on does.
pub open spec fn is_slot<T>(s: Seq<(i64, T)>, score: i64, i: int) -> bool {
    &&& 0 <= i <= s.len()
    &&& forall|j: int| 0 <= j < i ==> (#[trigger] s[j]).0 <= score
    &&& forall|j: int| i <= j < s.len() ==> (#[trigger] s[j]).0 > score
}

/// The place of a new entry of `score` in `s`.
pub open spec fn slot<T>(s: Seq<(i64, T)>, score: i64) -> int {
    choose|i: int| is_slot(s, score, i)
}

/// `s` with `value` put in under `score`: behind the last entry that does not
/// score higher.
pub open spec fn placed<T>(s: Seq<(i64, T)>, score: i64, value: T) -> Seq<(i64, T)> {
    s.insert(slot(s, score), (score, value))
}

/// The board that `pairs` give, taken one after the other: every pair, by
/// rising score, and pairs of one score in the order of `pairs`.
pub open spec fn board_of<T>(pairs: Seq<(i64, T)>) -> Seq<(i64, T)>
    decreases pairs.len(),
{
    if pairs.len() == 0 {
        Seq::empty()
    } else {
        placed(board_of(pairs.drop_last()), pairs.last().0, pairs.last().1)
    }
}

/// The values of `s`, in order.
pub open spec fn values_of<T>(s: Seq<(i64, T)>) -> Seq<T> {
    Seq::new(s.len(), |i: int| s[i].1)
}

/// A place found for a score is the place of the score.
pub proof fn lemma_slot_unique<T>(s: Seq<(i64, T)>, score: i64, i: int)
    requires
        is_slot(s, score, i),
    ensures
        slot(s, score) == i,
{
    let k = slot(s, score);
    assert(is_slot(s, score, k));
    if k < i {
        assert(s[k].0 <= score);
        assert(s[k].0 > score);
    } else if i < k {
        assert(s[i].0 <= score);
        assert(s[i].0 > score);
    }
}

/// Every score has a place in a board.
pub proof fn lemma_slot_exists<T>(s: Seq<(i64, T)>, score: i64)
    requires
        rising(s),
    ensures
        is_slot(s, score, slot(s, score)),
    decreases s.len(),
{
    if s.len() == 0 {
        assert(is_slot(s, score, 0));
    } else if s.last().0 <= score {
        assert forall|j: int| 0 <= j < s.len() implies (#[trigger] s[j]).0 <= score by {
            if j < s.len() - 1 {
                assert(s[j].0 <= s[s.len() - 1].0);
            }
        }
        assert(is_slot(s, score, s.len() as int));
    } else {
        let t = s.drop_last();
        assert forall|i: int, j: int| 0 <= i < j < t.len() implies (#[trigger] t[i]).0 <= (
        #[trigger] t[j]).0 by {
            assert(t[i] == s[i] && t[j] == s[j]);
        }
        lemma_slot_exists(t, score);
        let k = slot(t, score);
        assert forall|j: int| 0 <= j < k implies (#[trigger] s[j]).0 <= score by {
            assert(s[j] == t[j]);
        }
        assert forall|j: int| k <= j < s.len() implies (#[trigger] s[j]).0 > score by {
            if j < t.len() {
                assert(s[j] == t[j]);
            }
        }
        assert(is_slot(s, score, k));
    }
}

/// Putting a value in keeps the order, and the value is found at the place of
/// its score.
pub proof fn lemma_placed_rising<T>(s: Seq<(i64, T)>, score: i64, value: T, i: int)
    requires
        rising(s),
        is_slot(s, score, i),
    ensures
        rising(placed(s, score, value)),
        placed(s, score, value) == s.insert(i, (score, value)),
{
    lemma_slot_unique(s, score, i);
    let p = placed(s, score, value);
    assert forall|a: int, b: int| 0 <= a < b < p.len() implies (#[trigger] p[a]).0 <= (
    #[trigger] p[b]).0 by {
        if a < i && b < i {
            assert(p[a] == s[a] && p[b] == s[b]);
        } else if a < i && b == i {
            assert(p[a] == s[a]);
        } else if a < i && b > i {
            assert(p[a] == s[a] && p[b] == s[b - 1]);
        } else if a == i {
            assert(p[b] == s[b - 1]);
            assert(s[b - 1].0 > score);
        } else {
            assert(p[a] == s[a - 1] && p[b] == s[b - 1]);
        }
    }
}

/// A board holds as many entries as pairs were given, in rising order.
pub proof fn lemma_board_is_whole<T>(pairs: Seq<(i64, T)>)
    ensures
        board_of(pairs).len() == pairs.len(),
        rising(board_of(pairs)),
    decreases pairs.len(),
{
    if pairs.len() > 0 {
        let before = board_of(pairs.drop_last());
        lemma_board_is_whole(pairs.drop_last());
        lemma_slot_exists(before, pairs.last().0);
        lemma_placed_rising(before, pairs.last().0, pairs.last().1, slot(before, pairs.last().0));
    }
}

/// The test for the entries of one score.
pub open spec fn scoring<T>(score: i64) -> spec_fn((i64, T)) -> bool {
    |e: (i64, T)| e.0 == score
}

/// The pairs of one score stand in a board as they were given, all of them
/// and in the same order.
pub proof fn lemma_board_keeps_ties<T>(pairs: Seq<(i64, T)>, score: i64)
    ensures
        board_of(pairs).filter(scoring(score)) == pairs.filter(scoring(score)),
    decreases pairs.len(),
{
    let same = scoring::<T>(score);
    reveal(Seq::filter);
    if pairs.len() > 0 {
        let rest = pairs.drop_last();
        let last = pairs.last();
        let before = board_of(rest);
        lemma_board_keeps_ties(rest, score);
        lemma_board_is_whole(rest);
        lemma_slot_exists(before, last.0);
        let i = slot(before, last.0);
        let head = before.subrange(0, i);
        let tail = before.subrange(i, before.len() as int);
        let now = board_of(pairs);
        assert(now == before.insert(i, last));
        assert(before =~= head + tail);
        assert(now =~= head + (seq![last] + tail));
        Seq::filter_distributes_over_add(head, tail, same);
        Seq::filter_distributes_over_add(head, seq![last] + tail, same);
        Seq::filter_distributes_over_add(seq![last], tail, same);
        assert(seq![last].drop_last() =~= Seq::<(i64, T)>::empty());
        if last.0 == score {
            assert forall|k: int| 0 <= k < tail.len() implies !same(#[trigger] tail[k]) by {
                assert(tail[k] == before[i + k]);
            }
            lemma_filter_none(tail, same);
            assert(seq![last].filter(same) =~= seq![last]);
            assert(now.filter(same) =~= head.filter(same) + seq![last]);
            assert(before.filter(same) =~= head.filter(same));
            assert(pairs.filter(same) == rest.filter(same).push(last));
        } else {
            lemma_filter_none(seq![last], same);
            assert(now.filter(same) =~= head.filter(same) + tail.filter(same));
        }
    }
}

/// Every pair that was given stands in the board.
pub proof fn lemma_board_holds_all<T>(pairs: Seq<(i64, T)>, i: int)
    requires
        0 <= i < pairs.len(),
    ensures
        board_of(pairs).contains(pairs[i]),
{
    let same = scoring::<T>(pairs[i].0);
    lemma_board_keeps_ties(pairs, pairs[i].0);
    pairs.lemma_filter_contains(same, i);
    board_of(pairs).lemma_filter_contains_rev(same, pairs[i]);
}

/// Of a list without an entry that the test accepts, the test leaves nothing.
pub proof fn lemma_filter_none<A>(s: Seq<A>, test: spec_fn(A) -> bool)
    requires
        forall|k: int| 0 <= k < s.len() ==> !test(#[trigger] s[k]),
    ensures
        s.filter(test) == Seq::<A>::empty(),
    decreases s.len(),
{
    reveal(Seq::filter);
    if s.len() > 0 {
        assert forall|k: int| 0 <= k < s.drop_last().len() implies !test(
            #[trigger] s.drop_last()[k],
        ) by {
            assert(s.drop_last()[k] == s[k]);
        }
        lemma_filter_none(s.drop_last(), test);
        assert(!test(s[s.len() - 1]));
    }
}

impl<T> ScoreBoard<T> {
    /// The entries, lowest score first.
    pub closed spec fn view(&self) -> Seq<(i64, T)> {
        self.entries@
    }

    /// No entry scores higher than a later one.
    pub open spec fn wf(&self) -> bool {
        rising(self@)
    }

    /// A board without entries.
    pub fn new() -> (b: ScoreBoard<T>)
        ensures
            b@ == Seq::<(i64, T)>::empty(),
            b.wf(),
    {
        ScoreBoard { entries: Vec::new() }
    }

    /// The number of entries.
    pub fn len(&self) -> (n: usize)
        ensures
            n == self@.len(),
    {
        self.entries.len()
    }

    /// Puts `value` in under `score`, behind the entries that do not score
    /// higher. Every entry stays.
    pub fn insert(&mut self, score: i64, value: T)
        requires
            old(self).wf(),
        ensures
            final(self)@ == placed(old(self)@, score, value),
            final(self)@.len() == old(self)@.len() + 1,
            final(self).wf(),
    {
        let mut i: usize = 0;
        while i < self.entries.len() && self.entries[i].0 <= score
            invariant
                i <= self.entries.len(),
                self.entries@ == old(self).entries@,
                forall|j: int| 0 <= j < i ==> (#[trigger] self.entries@[j]).0 <= score,
            decreases self.entries.len() - i,
        {
            i += 1;
        }
        proof {
            let s = self.entries@;
            assert forall|j: int| i <= j < s.len() implies (#[trigger] s[j]).0 > score by {
                if j > i {
                    assert(s[i as int].0 <= s[j].0);
                }
            }
            assert(is_slot(s, score, i as int));
            lemma_placed_rising(s, score, value, i as int);
        }
        self.entries.insert(i, (score, value));
    }

    /// The values, lowest score first.
    pub fn into_values(self) -> (v: Vec<T>)
        ensures
            v@ == values_of(self@),
    {
        let mut out: Vec<T> = Vec::new();
        let ghost all = self.entries@;
        for e in it: self.entries
            invariant
                it.seq() == all,
                out@ == values_of(all.take(it.index())),
        {
            out.push(e.1);
            assert(out@ =~= values_of(all.take(it.index() + 1)));
        }
        assert(all.take(all.len() as int) == all);
        out
    }
}

} // verus!
