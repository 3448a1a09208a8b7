//! Grouping qualifying records into notifications of bounded size.
use vstd::prelude::*;
use crate::dbree::{results_view, DbreeSearchResult, ResultView};
use crate::text::{append_decimal, decimal};

verus! {

/// The most records one notification carries.
pub const CHUNK_SIZE: usize = 10;

/// One delivery: a summary message and the records it lists, in order.
pub struct Notification {
    pub content: String,
    pub records: Vec<DbreeSearchResult>,
}

/// The summary message of a run that found `total` records for `query`:
/// ``Detected <total> new file(s) for query `<query>`.``, with the plural
/// ending unless `total` is 1.
pub open spec fn summary_spec(total: nat, query: Seq<char>) -> Seq<char> {
    "Detected "@ + decimal(total) + " new file"@ + (if total == 1 { ""@ } else { "s"@ })
        + " for query `"@ + query + "`."@
}

/// How many notifications carry `n` records.
pub open spec fn chunk_count(n: nat) -> nat {
    (n + 9) / 10
}

/// The records of the notification at index `i` when `records` are sent:
/// the `i`-th run of ten, the last one shorter.
pub open spec fn chunk_spec(records: Seq<ResultView>, i: int) -> Seq<ResultView> {
    let end = if 10 * i + 10 <= records.len() { 10 * i + 10 } else { records.len() as int };
    records.subrange(10 * i, end)
}

/// The notifications that report `records` for `query`: one per run of ten
/// records, in order, each with the summary message of the whole run.
pub open spec fn batches_match(r: Seq<Notification>, query: Seq<char>, records: Seq<ResultView>) -> bool {
    &&& r.len() == chunk_count(records.len())
    &&& forall|i: int| 0 <= i < r.len() ==> #[trigger] r[i].content@ == summary_spec(records.len(), query)
    &&& forall|i: int| 0 <= i < r.len() ==> results_view(#[trigger] r[i].records@) == chunk_spec(records, i)
}

/// The summary message of a run that found `total` records for `query`.
pub fn summary_message(total: usize, query: &str) -> (r: String)
    ensures
        r@ == summary_spec(total as nat, query@),
{
    let mut r = String::from_str("Detected ");
    append_decimal(&mut r, total as u64);
    r.append(" new file");
    if total != 1 {
        r.append("s");
    }
    r.append(" for query `");
    r.append(query);
    r.append("`.");
    proof {
        reveal_strlit("Detected ");
        reveal_strlit(" new file");
        reveal_strlit("s");
        reveal_strlit("");
        reveal_strlit(" for query `");
        reveal_strlit("`.");
        if total == 1 {
            assert(r@ =~= summary_spec(total as nat, query@));
        } else {
            assert(r@ =~= summary_spec(total as nat, query@));
        }
    }
    r
}

/// Splits the qualifying records of a run for `query` into notifications of at
/// most ten records each, in order. No records, no notifications.
pub fn make_batches(query: &str, records: &Vec<DbreeSearchResult>) -> (r: Vec<Notification>)
    ensures
        batches_match(r@, query@, results_view(records@)),
{
    let ghost all = results_view(records@);
    let total = records.len();
    let mut r: Vec<Notification> = Vec::new();
    let mut start: usize = 0;
    while start < total
        invariant
            total == records@.len(),
            all == results_view(records@),
            start <= total,
            start == 10 * r@.len() || start == total,
            start < total ==> start == 10 * r@.len(),
            r@.len() == chunk_count(start as nat),
            forall|i: int| 0 <= i < r@.len() ==> #[trigger] r@[i].content@ == summary_spec(total as nat, query@),
            forall|i: int| 0 <= i < r@.len() ==> results_view(#[trigger] r@[i].records@) == chunk_spec(all, i),
        decreases total - start,
    {
        let end: usize = if total - start > CHUNK_SIZE { start + CHUNK_SIZE } else { total };
        let mut chunk: Vec<DbreeSearchResult> = Vec::new();
        let mut j: usize = start;
        while j < end
            invariant
                start <= j <= end <= total,
                total == records@.len(),
                all == results_view(records@),
                results_view(chunk@) == all.subrange(start as int, j as int),
            decreases end - j,
        {
            let ghost before = chunk@;
            let item = records[j].copied();
            chunk.push(item);
            proof {
                assert(all[j as int] == records@[j as int]@);
                assert(chunk@ == before.push(item));
                assert(results_view(chunk@) =~= results_view(before).push(item@));
                assert(results_view(chunk@) =~= all.subrange(start as int, j + 1));
            }
            j = j + 1;
        }
        let ghost k = r@.len();
        r.push(Notification { content: summary_message(total, query), records: chunk });
        proof {
            assert(chunk_spec(all, k as int) == all.subrange(start as int, end as int));
        }
        start = end;
    }
    r
}

/// For `n > 0` records there are `ceil(n / 10)` notifications; each but the last
/// carries ten records, and the last carries `n mod 10`, or ten where `n` is a
/// multiple of ten.
pub proof fn lemma_batch_sizes(records: Seq<ResultView>)
    requires
        records.len() > 0,
    ensures
        10 * (chunk_count(records.len()) - 1) < records.len() <= 10 * chunk_count(records.len()),
        forall|i: int| 0 <= i < chunk_count(records.len()) - 1 ==> (#[trigger] chunk_spec(records, i)).len() == 10,
        chunk_spec(records, chunk_count(records.len()) - 1).len() == if records.len() % 10 == 0 {
            10
        } else {
            records.len() % 10
        },
{
    let n = records.len() as int;
    let k = chunk_count(records.len()) as int;
    assert(10 * (k - 1) < n <= 10 * k) by (nonlinear_arith)
        requires
            k == (n + 9) / 10,
            n > 0,
    ;
    assert(n % 10 == 0 ==> n == 10 * k) by (nonlinear_arith)
        requires
            k == (n + 9) / 10,
            n > 0,
    ;
    assert(n % 10 != 0 ==> n - 10 * (k - 1) == n % 10) by (nonlinear_arith)
        requires
            k == (n + 9) / 10,
            n > 0,
    ;
    assert forall|i: int| 0 <= i < k - 1 implies (#[trigger] chunk_spec(records, i)).len() == 10 by {
        assert(10 * i + 10 <= 10 * (k - 1)) by (nonlinear_arith)
            requires
                i < k - 1,
        ;
    }
}

/// A run with no qualifying records delivers nothing.
pub proof fn lemma_no_records_no_batches(r: Seq<Notification>, query: Seq<char>)
    requires
        batches_match(r, query, Seq::<ResultView>::empty()),
    ensures
        r.len() == 0,
{
}

} // verus!
