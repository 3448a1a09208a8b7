//! One discovery run: read the results page, set aside what was seen before or
//! carries an ignored keyword, mark the rest seen, and batch what qualifies.
use vstd::prelude::*;
use crate::dbree::{page_spec, parse_results, results_view, DbreeSearchResult, ParseError, ResultView};
use crate::notify::{batches_match, make_batches, Notification};
use crate::seen::SeenSet;

verus! {

/// What becomes of one record of a run.
#[derive(Clone, Copy, Debug, PartialEq, Eq, Structural)]
pub enum Disposition {
    /// Its identifier was seen before: it is neither marked nor reported.
    Duplicate,
    /// Its name holds an ignored keyword: it is marked seen, not reported.
    Ignored,
    /// It is new: it is marked seen and reported.
    Qualifying,
}

/// Whether `needle` occurs in `hay` as a run of consecutive characters.
pub open spec fn has_substring(hay: Seq<char>, needle: Seq<char>) -> bool {
    exists|i: int|
        0 <= i && i + needle.len() <= hay.len() && #[trigger] hay.subrange(i, i + needle.len()) == needle
}

/// Whether `name` holds any of `keywords`, case included.
pub open spec fn matches_any(name: Seq<char>, keywords: Seq<Seq<char>>) -> bool {
    exists|k: int| 0 <= k < keywords.len() && has_substring(name, #[trigger] keywords[k])
}

/// The values of a sequence of strings.
pub open spec fn strings_view(v: Seq<String>) -> Seq<Seq<char>> {
    v.map_values(|s: String| s@)
}

/// What becomes of a record, given whether its identifier was seen and its name.
pub open spec fn disposition_spec(already_seen: bool, name: Seq<char>, keywords: Seq<Seq<char>>) -> Disposition {
    if already_seen {
        Disposition::Duplicate
    } else if matches_any(name, keywords) {
        Disposition::Ignored
    } else {
        Disposition::Qualifying
    }
}

/// A run over `records` in order, starting from the marks `seen`: the marks
/// after it, and the qualifying records in order.
pub open spec fn run_spec(seen: Set<Seq<char>>, records: Seq<ResultView>, keywords: Seq<Seq<char>>) -> (
    Set<Seq<char>>,
    Seq<ResultView>,
)
    decreases records.len(),
{
    if records.len() == 0 {
        (seen, seq![])
    } else {
        let (marks, found) = run_spec(seen, records.drop_last(), keywords);
        let r = records.last();
        match disposition_spec(marks.contains(r.id), r.name, keywords) {
            Disposition::Duplicate => (marks, found),
            Disposition::Ignored => (marks.insert(r.id), found),
            Disposition::Qualifying => (marks.insert(r.id), found.push(r)),
        }
    }
}

/// Relies on `str::contains` with a `&str` pattern: true exactly where the
/// pattern occurs in the string.
#[verifier::external_body]
fn str_contains(hay: &str, needle: &str) -> (r: bool)
    ensures
        r == has_substring(hay@, needle@),
{
    hay.contains(needle)
}

impl Disposition {
    /// Whether the record is marked seen.
    pub fn marks_seen(&self) -> (r: bool)
        ensures
            r == (*self != Disposition::Duplicate),
    {
        !matches!(self, Disposition::Duplicate)
    }

    /// Whether the record is reported.
    pub fn notifies(&self) -> (r: bool)
        ensures
            r == (*self == Disposition::Qualifying),
    {
        matches!(self, Disposition::Qualifying)
    }
}

/// Whether `name` holds any of `keywords`.
pub fn matches_keyword(name: &str, keywords: &Vec<String>) -> (r: bool)
    ensures
        r == matches_any(name@, strings_view(keywords@)),
{
    let ghost kws = strings_view(keywords@);
    let mut i: usize = 0;
    while i < keywords.len()
        invariant
            i <= keywords@.len(),
            kws == strings_view(keywords@),
            forall|k: int| 0 <= k < i ==> !has_substring(name@, #[trigger] kws[k]),
        decreases keywords@.len() - i,
    {
        if str_contains(name, keywords[i].as_str()) {
            proof {
                assert(has_substring(name@, kws[i as int]));
            }
            return true;
        }
        i = i + 1;
    }
    false
}

/// What becomes of a record whose identifier was seen before or not, and whose
/// name is `name`, where `keywords` are ignored.
pub fn classify(already_seen: bool, name: &str, keywords: &Vec<String>) -> (r: Disposition)
    ensures
        r == disposition_spec(already_seen, name@, strings_view(keywords@)),
{
    if already_seen {
        Disposition::Duplicate
    } else if matches_keyword(name, keywords) {
        Disposition::Ignored
    } else {
        Disposition::Qualifying
    }
}

/// Goes through `records` in order: each is classified against `seen` as it
/// stands, marked where that says so, and kept where it qualifies.
pub fn select_new(seen: &mut SeenSet, records: &Vec<DbreeSearchResult>, keywords: &Vec<String>) -> (r: Vec<DbreeSearchResult>)
    ensures
        run_spec(old(seen)@, results_view(records@), strings_view(keywords@)) == (final(seen)@, results_view(r@)),
{
    let ghost recs = results_view(records@);
    let ghost kws = strings_view(keywords@);
    let mut out: Vec<DbreeSearchResult> = Vec::new();
    let mut i: usize = 0;
    proof {
        assert(recs.take(0) =~= Seq::<ResultView>::empty());
        assert(results_view(out@) =~= Seq::<ResultView>::empty());
    }
    while i < records.len()
        invariant
            i <= records@.len(),
            recs == results_view(records@),
            kws == strings_view(keywords@),
            run_spec(old(seen)@, recs.take(i as int), kws) == (seen@, results_view(out@)),
        decreases records@.len() - i,
    {
        let rec = &records[i];
        proof {
            assert(recs.take(i + 1).drop_last() =~= recs.take(i as int));
            assert(recs.take(i + 1).last() == rec@);
        }
        let d = classify(seen.contains(rec.file.id.as_str()), rec.file.name.as_str(), keywords);
        if d.marks_seen() {
            seen.mark(rec.file.id.as_str());
        }
        if d.notifies() {
            let ghost before = out@;
            out.push(rec.copied());
            proof {
                assert(results_view(out@) =~= results_view(before).push(rec@));
            }
        }
        i = i + 1;
    }
    proof {
        assert(recs.take(i as int) =~= recs);
    }
    out
}

/// One discovery run for `query` over the results page `html`: the page is
/// read in full, each record is classified and marked as `select_new` does,
/// and the qualifying records are batched. Where the page cannot be read the
/// run fails and marks nothing.
pub fn discover(seen: &mut SeenSet, query: &str, html: &str, keywords: &Vec<String>) -> (r: Result<Vec<Notification>, ParseError>)
    ensures
        match page_spec(html@) {
            Err(e) => r == Err::<Vec<Notification>, ParseError>(e) && final(seen)@ == old(seen)@,
            Ok(recs) => r is Ok && final(seen)@ == run_spec(old(seen)@, recs, strings_view(keywords@)).0
                && batches_match(r->Ok_0@, query@, run_spec(old(seen)@, recs, strings_view(keywords@)).1),
        },
{
    let records = match parse_results(html) {
        Ok(v) => v,
        Err(e) => return Err(e),
    };
    let found = select_new(seen, &records, keywords);
    Ok(make_batches(query, &found))
}

/// What every run keeps to: marks only grow; every record's identifier is
/// marked at the end; and each qualifying record is one of the records, was not
/// marked at the start, and holds no ignored keyword.
pub proof fn lemma_run_facts(seen: Set<Seq<char>>, records: Seq<ResultView>, keywords: Seq<Seq<char>>)
    ensures
        seen.subset_of(run_spec(seen, records, keywords).0),
        forall|k: int| 0 <= k < records.len() ==> run_spec(seen, records, keywords).0.contains(#[trigger] records[k].id),
        forall|j: int| 0 <= j < run_spec(seen, records, keywords).1.len() ==> {
            let q = #[trigger] run_spec(seen, records, keywords).1[j];
            &&& !seen.contains(q.id)
            &&& !matches_any(q.name, keywords)
            &&& exists|k: int| 0 <= k < records.len() && records[k] == q
        },
    decreases records.len(),
{
    if records.len() > 0 {
        let prefix = records.drop_last();
        lemma_run_facts(seen, prefix, keywords);
        let (marks, found) = run_spec(seen, prefix, keywords);
        let (m2, f2) = run_spec(seen, records, keywords);
        assert(marks.subset_of(m2));
        assert forall|k: int| 0 <= k < records.len() implies m2.contains(#[trigger] records[k].id) by {
            if k < records.len() - 1 {
                assert(prefix[k] == records[k]);
                assert(marks.contains(prefix[k].id));
            }
        }
        assert forall|j: int| 0 <= j < f2.len() implies {
            let q = #[trigger] f2[j];
            &&& !seen.contains(q.id)
            &&& !matches_any(q.name, keywords)
            &&& exists|k: int| 0 <= k < records.len() && records[k] == q
        } by {
            if j < found.len() {
                assert(f2[j] == found[j]);
                let k = choose|k: int| 0 <= k < prefix.len() && prefix[k] == found[j];
                assert(records[k] == found[j]);
            } else {
                assert(f2[j] == records.last());
                assert(!marks.contains(records.last().id));
                assert(records[records.len() - 1] == records.last());
            }
        }
    }
}

/// No identifier is reported by two runs against the same seen-set: whatever
/// the second run reads, none of its qualifying records shares an identifier
/// with one that the first run reported.
pub proof fn lemma_no_identifier_reported_twice(
    seen: Set<Seq<char>>,
    first: Seq<ResultView>,
    second: Seq<ResultView>,
    first_keywords: Seq<Seq<char>>,
    second_keywords: Seq<Seq<char>>,
)
    ensures
        ({
            let (marks, reported) = run_spec(seen, first, first_keywords);
            let again = run_spec(marks, second, second_keywords).1;
            forall|i: int, j: int|
                0 <= i < reported.len() && 0 <= j < again.len() ==> #[trigger] reported[i].id != #[trigger] again[j].id
        }),
{
    let (marks, reported) = run_spec(seen, first, first_keywords);
    let again = run_spec(marks, second, second_keywords).1;
    lemma_run_facts(seen, first, first_keywords);
    lemma_run_facts(marks, second, second_keywords);
    assert forall|i: int, j: int| 0 <= i < reported.len() && 0 <= j < again.len() implies #[trigger] reported[i].id
        != #[trigger] again[j].id by {
        let q = reported[i];
        let k = choose|k: int| 0 <= k < first.len() && first[k] == q;
        assert(marks.contains(first[k].id));
        assert(!marks.contains(again[j].id));
    }
}

/// A record whose name holds an ignored keyword is marked seen but never
/// reported; and a second run over the same records reports nothing.
pub proof fn lemma_ignored_marked_not_reported(
    seen: Set<Seq<char>>,
    records: Seq<ResultView>,
    keywords: Seq<Seq<char>>,
    k: int,
)
    requires
        0 <= k < records.len(),
        matches_any(records[k].name, keywords),
    ensures
        run_spec(seen, records, keywords).0.contains(records[k].id),
        forall|j: int| 0 <= j < run_spec(seen, records, keywords).1.len()
            ==> #[trigger] run_spec(seen, records, keywords).1[j] != records[k],
        run_spec(run_spec(seen, records, keywords).0, records, keywords).1.len() == 0,
{
    let marks = run_spec(seen, records, keywords).0;
    lemma_run_facts(seen, records, keywords);
    lemma_run_facts(marks, records, keywords);
    let again = run_spec(marks, records, keywords).1;
    if again.len() > 0 {
        let q = again[0];
        let i = choose|i: int| 0 <= i < records.len() && records[i] == q;
        assert(marks.contains(records[i].id));
    }
}

} // verus!
