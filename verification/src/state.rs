//! The set of certificate fingerprints that have been alerted on.

use vstd::prelude::*;
use vstd::string::*;
use crate::text::{ascending, compare_text, precedes, lemma_precedes_exclusive, lemma_precedes_transitive, Rank};

verus! {

/// The views of a sequence of strings, position by position.
pub open spec fn texts(items: Seq<String>) -> Seq<Seq<char>> {
    Seq::new(items.len(), |i: int| items[i]@)
}

/// The stored state of the monitor: the fingerprints already seen, kept in
/// ascending order without repetition.
pub struct State {
    seen: Vec<String>,
}

impl View for State {
    type V = Set<Seq<char>>;

    /// The set of fingerprints seen so far.
    open spec fn view(&self) -> Set<Seq<char>> {
        self.listing().to_set()
    }
}

/// Inserting a text at the place the order gives it keeps the order and adds
/// exactly that text.
proof fn lemma_insert_keeps_order(items: Seq<Seq<char>>, p: int, f: Seq<char>)
    requires
        ascending(items),
        0 <= p <= items.len(),
        forall|j: int| 0 <= j < p ==> precedes(#[trigger] items[j], f),
        p < items.len() ==> precedes(f, items[p]),
    ensures
        !items.contains(f),
        ascending(items.insert(p, f)),
        items.insert(p, f).to_set() =~= items.to_set().insert(f),
{
    let grown = items.insert(p, f);
    assert forall|j: int| p <= j < items.len() implies precedes(f, #[trigger] items[j]) by {
        if p < j {
            lemma_precedes_transitive(f, items[p], items[j]);
        }
    }
    assert forall|j: int| 0 <= j < items.len() implies items[j] != f by {
        if j < p {
            lemma_precedes_exclusive(items[j], f);
        } else {
            lemma_precedes_exclusive(f, items[j]);
        }
    }
    assert forall|i: int, j: int| 0 <= i < j < grown.len() implies precedes(
        #[trigger] grown[i],
        #[trigger] grown[j],
    ) by {
        if j < p {
            assert(grown[i] == items[i] && grown[j] == items[j]);
        } else if j == p {
            assert(grown[i] == items[i]);
        } else if i < p {
            assert(grown[i] == items[i] && grown[j] == items[j - 1]);
            if j - 1 < p {
            } else if i == j - 1 {
            }
        } else if i == p {
            assert(grown[j] == items[j - 1]);
        } else {
            assert(grown[i] == items[i - 1] && grown[j] == items[j - 1]);
        }
    }
    assert forall|g: Seq<char>| grown.to_set().contains(g) <==> items.to_set().insert(f).contains(
        g,
    ) by {
        if grown.contains(g) {
            let k = choose|k: int| 0 <= k < grown.len() && grown[k] == g;
            if k < p {
                assert(items[k] == g);
            } else if k > p {
                assert(items[k - 1] == g);
            }
        }
        if items.contains(g) {
            let k = choose|k: int| 0 <= k < items.len() && items[k] == g;
            if k < p {
                assert(grown[k] == g);
            } else {
                assert(grown[k + 1] == g);
            }
        }
        if g == f {
            assert(grown[p] == g);
        }
    }
}

impl Default for State {
    /// The state of a first run: nothing seen yet.
    fn default() -> (s: State)
        ensures
            s.wf(),
            s@ == Set::<Seq<char>>::empty(),
    {
        State::new()
    }
}

impl State {
    /// The fingerprints in the order in which they are kept and written out.
    pub closed spec fn listing(&self) -> Seq<Seq<char>> {
        texts(self.seen@)
    }

    /// The fingerprints are in strictly ascending order, so none occurs twice.
    pub open spec fn wf(&self) -> bool {
        ascending(self.listing())
    }

    /// The state of a first run: nothing seen yet.
    pub fn new() -> (s: State)
        ensures
            s.wf(),
            s@ == Set::<Seq<char>>::empty(),
            s.listing() == Seq::<Seq<char>>::empty(),
    {
        let s = State { seen: Vec::new() };
        proof {
            assert(s.listing() =~= Seq::<Seq<char>>::empty());
            assert(s@ =~= Set::<Seq<char>>::empty());
        }
        s
    }

    /// Whether nothing has been seen yet.
    pub fn is_empty(&self) -> (b: bool)
        ensures
            b == (self.listing().len() == 0),
    {
        self.seen.len() == 0
    }

    /// The number of fingerprints seen.
    pub fn len(&self) -> (n: usize)
        ensures
            n == self.listing().len(),
    {
        self.seen.len()
    }

    /// The place of `fingerprint` in the order: the index of the first kept
    /// fingerprint that does not come before it, and whether that one equals
    /// it.
    fn locate(&self, fingerprint: &str) -> (r: (usize, bool))
        requires
            self.wf(),
        ensures
            r.0 <= self.listing().len(),
            forall|j: int| 0 <= j < r.0 ==> precedes(#[trigger] self.listing()[j], fingerprint@),
            r.1 ==> r.0 < self.listing().len() && self.listing()[r.0 as int] == fingerprint@,
            !r.1 && r.0 < self.listing().len() ==> precedes(
                fingerprint@,
                self.listing()[r.0 as int],
            ),
    {
        let n: usize = self.seen.len();
        let mut lo: usize = 0;
        let mut hi: usize = n;
        while lo < hi
            invariant
                lo <= hi <= n,
                n == self.seen.len(),
                self.wf(),
                forall|j: int| 0 <= j < lo ==> precedes(#[trigger] self.listing()[j], fingerprint@),
                forall|j: int| hi <= j < n ==> precedes(fingerprint@, #[trigger] self.listing()[j]),
            decreases hi - lo,
        {
            let mid: usize = lo + (hi - lo) / 2;
            let ghost pivot = self.listing()[mid as int];
            match compare_text(self.seen[mid].as_str(), fingerprint) {
                Rank::Before => {
                    proof {
                        assert forall|j: int| 0 <= j < mid + 1 implies precedes(
                            #[trigger] self.listing()[j],
                            fingerprint@,
                        ) by {
                            if j < mid {
                                lemma_precedes_transitive(self.listing()[j], pivot, fingerprint@);
                            }
                        }
                    }
                    lo = mid + 1;
                },
                Rank::Same => {
                    return (mid, true);
                },
                Rank::After => {
                    proof {
                        assert forall|j: int| mid <= j < n implies precedes(
                            fingerprint@,
                            #[trigger] self.listing()[j],
                        ) by {
                            if mid < j {
                                lemma_precedes_transitive(fingerprint@, pivot, self.listing()[j]);
                            }
                        }
                    }
                    hi = mid;
                },
            }
        }
        (lo, false)
    }

    /// Whether `fingerprint` has been seen.
    pub fn contains(&self, fingerprint: &str) -> (b: bool)
        requires
            self.wf(),
        ensures
            b == self@.contains(fingerprint@),
    {
        let (p, found) = self.locate(fingerprint);
        proof {
            if !found {
                lemma_insert_keeps_order(self.listing(), p as int, fingerprint@);
            }
        }
        found
    }

    /// Marks `fingerprint` as seen and says whether it was new. The test and
    /// the insertion are one step: a fingerprint is reported new at most once.
    pub fn insert(&mut self, fingerprint: String) -> (fresh: bool)
        requires
            old(self).wf(),
        ensures
            final(self).wf(),
            final(self)@ == old(self)@.insert(fingerprint@),
            fresh == !old(self)@.contains(fingerprint@),
            !fresh ==> final(self).listing() == old(self).listing(),
            fresh ==> final(self).listing().len() == old(self).listing().len() + 1,
    {
        let (p, found) = self.locate(fingerprint.as_str());
        if found {
            proof {
                assert(self@.insert(fingerprint@) =~= self@);
            }
            return false;
        }
        let ghost before = self.listing();
        proof {
            lemma_insert_keeps_order(before, p as int, fingerprint@);
        }
        self.seen.insert(p, fingerprint);
        proof {
            assert(self.listing() =~= before.insert(p as int, fingerprint@));
        }
        true
    }

    /// The state that holds exactly the given fingerprints, in whatever
    /// order and however often they are given.
    pub fn from_fingerprints(fingerprints: Vec<String>) -> (s: State)
        ensures
            s.wf(),
            s@ == texts(fingerprints@).to_set(),
    {
        let mut s = State::new();
        let n: usize = fingerprints.len();
        let mut i: usize = 0;
        while i < n
            invariant
                i <= n,
                n == fingerprints.len(),
                s.wf(),
                s@ == texts(fingerprints@).take(i as int).to_set(),
            decreases n - i,
        {
            let ghost prior = texts(fingerprints@).take(i as int);
            s.insert(fingerprints[i].clone());
            proof {
                let next = texts(fingerprints@).take(i + 1);
                assert(next =~= prior.push(fingerprints@[i as int]@));
                assert forall|g: Seq<char>| next.to_set().contains(g) <==> prior.to_set().insert(
                    fingerprints@[i as int]@,
                ).contains(g) by {
                    if next.contains(g) {
                        let k = choose|k: int| 0 <= k < next.len() && next[k] == g;
                        if k < i {
                            assert(prior[k] == g);
                        }
                    }
                    if prior.contains(g) {
                        let k = choose|k: int| 0 <= k < prior.len() && prior[k] == g;
                        assert(next[k] == g);
                    }
                    if g == fingerprints@[i as int]@ {
                        assert(next[i as int] == g);
                    }
                }
                assert(next.to_set() =~= prior.to_set().insert(fingerprints@[i as int]@));
            }
            i += 1;
        }
        proof {
            assert(texts(fingerprints@).take(n as int) =~= texts(fingerprints@));
        }
        s
    }

    /// The fingerprints seen, in ascending order: what is written out.
    pub fn fingerprints(&self) -> (out: Vec<String>)
        ensures
            texts(out@) == self.listing(),
            texts(out@).to_set() == self@,
            self.wf() ==> ascending(texts(out@)),
    {
        let mut out: Vec<String> = Vec::new();
        let n: usize = self.seen.len();
        let mut i: usize = 0;
        while i < n
            invariant
                i <= n,
                n == self.seen.len(),
                out.len() == i,
                texts(out@) == self.listing().take(i as int),
            decreases n - i,
        {
            let ghost prior = out@;
            let copy = self.seen[i].clone();
            out.push(copy);
            proof {
                assert(out@ == prior.push(copy));
                assert(copy@ == self.listing()[i as int]);
                assert forall|k: int| 0 <= k < i + 1 implies texts(out@)[k] == self.listing().take(
                    i + 1,
                )[k] by {
                    if k < i {
                        assert(texts(prior)[k] == self.listing().take(i as int)[k]);
                    }
                }
                assert(texts(out@) =~= self.listing().take(i + 1));
            }
            i += 1;
        }
        proof {
            assert(self.listing().take(n as int) =~= self.listing());
        }
        out
    }
}

} // verus!
