//! The deduplication of certificate records against the fingerprints seen.

use vstd::prelude::*;
use vstd::string::*;
use crate::record::{records, TypedRow, TypedRowView};
use crate::state::State;

verus! {

/// The fingerprints that occur among `rows`.
pub open spec fn sighted(rows: Seq<TypedRowView>) -> Set<Seq<char>> {
    Set::new(|f: Seq<char>| exists|i: int| 0 <= i < rows.len() && (#[trigger] rows[i]).sha256_fingerprint == f)
}

/// The records to alert on when `rows` arrive and `seen` holds the
/// fingerprints known before: each record whose fingerprint is neither in
/// `seen` nor on an earlier row, in the order of the rows.
pub open spec fn alerts(seen: Set<Seq<char>>, rows: Seq<TypedRowView>) -> Seq<TypedRowView>
    decreases rows.len(),
{
    if rows.len() == 0 {
        Seq::empty()
    } else {
        let earlier = rows.drop_last();
        let fingerprint = rows.last().sha256_fingerprint;
        if seen.contains(fingerprint) || sighted(earlier).contains(fingerprint) {
            alerts(seen, earlier)
        } else {
            alerts(seen, earlier).push(rows.last())
        }
    }
}

/// One more row adds its fingerprint to those sighted.
pub proof fn lemma_sighted_push(rows: Seq<TypedRowView>, row: TypedRowView)
    ensures
        sighted(rows.push(row)) == sighted(rows).insert(row.sha256_fingerprint),
{
    let grown = rows.push(row);
    assert forall|f: Seq<char>| sighted(grown).contains(f) <==> sighted(rows).insert(
        row.sha256_fingerprint,
    ).contains(f) by {
        if sighted(grown).contains(f) {
            let k = choose|k: int| 0 <= k < grown.len() && (#[trigger] grown[k]).sha256_fingerprint == f;
            if k < rows.len() {
                assert(rows[k].sha256_fingerprint == f);
            }
        }
        if sighted(rows).contains(f) {
            let k = choose|k: int| 0 <= k < rows.len() && (#[trigger] rows[k]).sha256_fingerprint == f;
            assert(grown[k].sha256_fingerprint == f);
        }
        if f == row.sha256_fingerprint {
            assert(grown[rows.len() as int].sha256_fingerprint == f);
        }
    }
    assert(sighted(grown) =~= sighted(rows).insert(row.sha256_fingerprint));
}

/// Filters the records of one query through the fingerprints seen: marks
/// every fingerprint as seen and hands back, in the order of the rows, the
/// records whose fingerprint was new when its row was reached. The state
/// only grows.
pub fn new_certificates(state: &mut State, rows: &Vec<TypedRow>) -> (fresh: Vec<TypedRow>)
    requires
        old(state).wf(),
    ensures
        final(state).wf(),
        final(state)@ == old(state)@.union(sighted(records(rows@))),
        old(state)@.subset_of(final(state)@),
        records(fresh@) == alerts(old(state)@, records(rows@)),
{
    let ghost seen = state@;
    let ghost all = records(rows@);
    let mut fresh: Vec<TypedRow> = Vec::new();
    let n: usize = rows.len();
    let mut i: usize = 0;
    proof {
        assert(all.take(0) =~= Seq::<TypedRowView>::empty());
        assert(sighted(all.take(0)) =~= Set::<Seq<char>>::empty());
        assert(state@ =~= seen.union(sighted(all.take(0))));
        assert(records(fresh@) =~= alerts(seen, all.take(0)));
    }
    while i < n
        invariant
            i <= n,
            n == rows.len(),
            all == records(rows@),
            state.wf(),
            state@ == seen.union(sighted(all.take(i as int))),
            records(fresh@) == alerts(seen, all.take(i as int)),
        decreases n - i,
    {
        let row = &rows[i];
        let ghost prior = fresh@;
        let ghost head = all.take(i as int);
        let ghost next = all.take(i + 1);
        let is_new = state.insert(row.sha256_fingerprint.clone());
        proof {
            assert(next =~= head.push(row@));
            assert(next.drop_last() =~= head);
            lemma_sighted_push(head, row@);
            assert(state@ =~= seen.union(sighted(next)));
        }
        if is_new {
            let copy = row.clone();
            fresh.push(copy);
            proof {
                assert(records(fresh@) =~= records(prior).push(row@));
            }
        }
        i += 1;
    }
    proof {
        assert(all.take(n as int) =~= all);
        assert(seen.subset_of(state@));
    }
    fresh
}

/// The fingerprints sighted on two batches are those sighted on either.
pub proof fn lemma_sighted_concat(a: Seq<TypedRowView>, b: Seq<TypedRowView>)
    ensures
        sighted(a + b) == sighted(a).union(sighted(b)),
    decreases b.len(),
{
    if b.len() == 0 {
        assert(a + b =~= a);
        assert(sighted(b) =~= Set::<Seq<char>>::empty());
        assert(sighted(a + b) =~= sighted(a).union(sighted(b)));
    } else {
        let front = b.drop_last();
        assert(a + b =~= (a + front).push(b.last()));
        assert(b =~= front.push(b.last()));
        lemma_sighted_concat(a, front);
        lemma_sighted_push(a + front, b.last());
        lemma_sighted_push(front, b.last());
        assert(sighted(a + b) =~= sighted(a).union(sighted(b)));
    }
}

/// Deduplication is global, not per batch: filtering two batches one after
/// the other, the second against what the first left behind, alerts on the
/// same records as filtering their concatenation.
pub proof fn lemma_alerts_concat(seen: Set<Seq<char>>, a: Seq<TypedRowView>, b: Seq<TypedRowView>)
    ensures
        alerts(seen, a + b) == alerts(seen, a) + alerts(seen.union(sighted(a)), b),
    decreases b.len(),
{
    if b.len() == 0 {
        assert(a + b =~= a);
        assert(alerts(seen, a + b) =~= alerts(seen, a) + alerts(seen.union(sighted(a)), b));
    } else {
        let front = b.drop_last();
        assert((a + b).drop_last() =~= a + front);
        assert((a + b).last() == b.last());
        lemma_alerts_concat(seen, a, front);
        lemma_sighted_concat(a, front);
        assert(alerts(seen, a + b) =~= alerts(seen, a) + alerts(seen.union(sighted(a)), b));
    }
}

/// Every fingerprint is alerted on exactly once: no two alerts of a pass
/// share a fingerprint, and a fingerprint has an alert just when it occurs
/// among the rows and was not seen before, however many rows carry it.
pub proof fn lemma_alerts_exactly_once(seen: Set<Seq<char>>, rows: Seq<TypedRowView>)
    ensures
        forall|i: int, j: int|
            0 <= i < j < alerts(seen, rows).len() ==> (#[trigger] alerts(
                seen,
                rows,
            )[i]).sha256_fingerprint != (#[trigger] alerts(seen, rows)[j]).sha256_fingerprint,
        forall|f: Seq<char>| #[trigger]
            sighted(alerts(seen, rows)).contains(f) <==> sighted(rows).contains(f)
                && !seen.contains(f),
    decreases rows.len(),
{
    if rows.len() == 0 {
        assert(sighted(rows) =~= Set::<Seq<char>>::empty());
        assert(sighted(alerts(seen, rows)) =~= Set::<Seq<char>>::empty());
    } else {
        let front = rows.drop_last();
        let last = rows.last();
        assert(rows =~= front.push(last));
        lemma_alerts_exactly_once(seen, front);
        lemma_sighted_push(front, last);
        let before = alerts(seen, front);
        if !(seen.contains(last.sha256_fingerprint) || sighted(front).contains(
            last.sha256_fingerprint,
        )) {
            lemma_sighted_push(before, last);
            let now = alerts(seen, rows);
            assert(now == before.push(last));
            assert forall|i: int, j: int| 0 <= i < j < now.len() implies (#[trigger] now[i]).sha256_fingerprint
                != (#[trigger] now[j]).sha256_fingerprint by {
                if j == before.len() {
                    assert(now[i] == before[i]);
                    if before[i].sha256_fingerprint == last.sha256_fingerprint {
                        assert(sighted(before).contains(last.sha256_fingerprint));
                    }
                } else {
                    assert(now[i] == before[i] && now[j] == before[j]);
                }
            }
        }
    }
}

/// A pass over rows whose fingerprints have all been seen alerts on
/// nothing.
pub proof fn lemma_known_rows_are_silent(seen: Set<Seq<char>>, rows: Seq<TypedRowView>)
    requires
        sighted(rows).subset_of(seen),
    ensures
        alerts(seen, rows) == Seq::<TypedRowView>::empty(),
    decreases rows.len(),
{
    if rows.len() > 0 {
        let front = rows.drop_last();
        assert(rows =~= front.push(rows.last()));
        lemma_sighted_push(front, rows.last());
        assert(sighted(rows).contains(rows.last().sha256_fingerprint));
        assert(sighted(front).subset_of(seen));
        lemma_known_rows_are_silent(seen, front);
    }
}

/// Deduplication is idempotent: a second pass over the same rows, from the
/// state that the first pass left, alerts on nothing.
pub proof fn lemma_second_pass_is_silent(seen: Set<Seq<char>>, rows: Seq<TypedRowView>)
    ensures
        alerts(seen.union(sighted(rows)), rows) == Seq::<TypedRowView>::empty(),
{
    lemma_known_rows_are_silent(seen.union(sighted(rows)), rows);
}

} // verus!
