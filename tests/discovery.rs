use bloodbath::config::default_dbree_base_uri;
use bloodbath::dbree::{parse_item, parse_results, Dbree, DbreeFile, DbreeSearch, DbreeSearchResult, ParseError};
use bloodbath::discover::{classify, discover, matches_keyword, select_new, Disposition};
use bloodbath::notify::{make_batches, summary_message};
use bloodbath::seen::{seen_key, SeenSet};
use bloodbath::text::{append_decimal, join_str};

const TWO_ITEMS: &str = "<html><body><ul class=\"list-group\">\
<li class=\"list-group-item\"><a href=\"/v/aaa\">Foo</a> <span class=\"badge\">1 GB</span></li>\
<li class=\"list-group-item\"><a href=\"/v/bbb\">Bar</a> <span class=\"badge\">2 GB</span></li>\
</ul></body></html>";

fn record(id: &str, name: &str, size: &str) -> DbreeSearchResult {
    DbreeSearchResult {
        size: size.to_string(),
        file: DbreeFile { id: id.to_string(), name: name.to_string() },
    }
}

fn records(n: usize) -> Vec<DbreeSearchResult> {
    (0..n).map(|i| record(&format!("id{}", i), &format!("file {}", i), "1 MB")).collect()
}

#[test]
fn extracts_records_in_document_order() {
    let recs = parse_results(TWO_ITEMS).unwrap();
    assert_eq!(recs.len(), 2);
    assert_eq!(recs[0].file.id, "aaa");
    assert_eq!(recs[0].file.name, "Foo");
    assert_eq!(recs[0].size, "1 GB");
    assert_eq!(recs[1].file.id, "bbb");
    assert_eq!(recs[1].file.name, "Bar");
    assert_eq!(recs[1].size, "2 GB");
}

#[test]
fn page_without_items_yields_no_records() {
    let recs = parse_results("<html><body><p>nothing here</p></body></html>").unwrap();
    assert!(recs.is_empty());
}

#[test]
fn missing_badge_fails_whole_page() {
    let html = "<ul class=\"list-group\">\
<li class=\"list-group-item\"><a href=\"/v/aaa\">Foo</a><span class=\"badge\">1 GB</span></li>\
<li class=\"list-group-item\"><a href=\"/v/bbb\">Bar</a></li>\
</ul>";
    assert!(matches!(parse_results(html), Err(ParseError::MissingBadge)));
}

#[test]
fn item_errors_name_the_missing_piece() {
    let no_link = "<li class=\"list-group-item\"><span class=\"badge\">1 GB</span></li>";
    assert!(matches!(parse_item(no_link), Err(ParseError::MissingLink)));
    let no_badge_text = "<li class=\"list-group-item\"><span class=\"badge\"></span><a href=\"/v/x\">F</a></li>";
    assert!(matches!(parse_item(no_badge_text), Err(ParseError::MissingBadgeText)));
    let no_link_text = "<li class=\"list-group-item\"><span class=\"badge\">1 GB</span><a href=\"/v/x\"></a></li>";
    assert!(matches!(parse_item(no_link_text), Err(ParseError::MissingLinkText)));
    let no_target = "<li class=\"list-group-item\"><span class=\"badge\">1 GB</span><a>F</a></li>";
    assert!(matches!(parse_item(no_target), Err(ParseError::MissingTarget)));
    let short_target = "<li class=\"list-group-item\"><span class=\"badge\">1 GB</span><a href=\"/v\">F</a></li>";
    assert!(matches!(parse_item(short_target), Err(ParseError::ShortTarget)));
}

#[test]
fn target_of_exactly_the_prefix_gives_empty_identifier() {
    let item = "<li class=\"list-group-item\"><span class=\"badge\">3 KB</span><a href=\"/v/\">F</a></li>";
    let rec = parse_item(item).unwrap();
    assert_eq!(rec.file.id, "");
    assert_eq!(rec.size, "3 KB");
}

#[test]
fn marking_twice_keeps_identifier_marked() {
    let mut seen = SeenSet::new();
    assert!(!seen.contains("aaa"));
    seen.mark("aaa");
    seen.mark("aaa");
    assert!(seen.contains("aaa"));
    assert!(!seen.contains("bbb"));
}

#[test]
fn first_run_reports_both_records() {
    let mut seen = SeenSet::new();
    let batches = discover(&mut seen, "x", TWO_ITEMS, &Vec::new()).unwrap();
    assert!(seen.contains("aaa"));
    assert!(seen.contains("bbb"));
    assert_eq!(batches.len(), 1);
    assert_eq!(batches[0].records.len(), 2);
    assert_eq!(batches[0].content, "Detected 2 new files for query `x`.");
    assert_eq!(batches[0].records[0].file.id, "aaa");
    assert_eq!(batches[0].records[1].file.id, "bbb");
}

#[test]
fn second_run_over_same_page_reports_nothing() {
    let mut seen = SeenSet::new();
    discover(&mut seen, "x", TWO_ITEMS, &Vec::new()).unwrap();
    let batches = discover(&mut seen, "x", TWO_ITEMS, &Vec::new()).unwrap();
    assert!(batches.is_empty());
}

#[test]
fn ignored_keyword_is_marked_but_not_reported() {
    let mut seen = SeenSet::new();
    let ignored = vec!["Bar".to_string()];
    let batches = discover(&mut seen, "x", TWO_ITEMS, &ignored).unwrap();
    assert_eq!(batches.len(), 1);
    assert_eq!(batches[0].records.len(), 1);
    assert_eq!(batches[0].records[0].file.id, "aaa");
    assert_eq!(batches[0].content, "Detected 1 new file for query `x`.");
    assert!(seen.contains("aaa"));
    assert!(seen.contains("bbb"));
    let again = discover(&mut seen, "x", TWO_ITEMS, &Vec::new()).unwrap();
    assert!(again.is_empty());
}

#[test]
fn unreadable_page_marks_nothing() {
    let mut seen = SeenSet::new();
    let html = "<ul class=\"list-group\"><li class=\"list-group-item\"><a href=\"/v/aaa\">Foo</a></li></ul>";
    assert!(discover(&mut seen, "x", html, &Vec::new()).is_err());
    assert!(!seen.contains("aaa"));
}

#[test]
fn no_identifier_reported_in_two_runs() {
    let mut seen = SeenSet::new();
    let first = records(12);
    let mut second = records(15);
    second.reverse();
    let a = select_new(&mut seen, &first, &Vec::new());
    let b = select_new(&mut seen, &second, &Vec::new());
    assert_eq!(a.len(), 12);
    assert_eq!(b.len(), 3);
    for x in &a {
        assert!(b.iter().all(|y| y.file.id != x.file.id));
    }
}

#[test]
fn repeated_identifier_in_one_page_is_reported_once() {
    let mut seen = SeenSet::new();
    let recs = vec![record("a", "one", "1"), record("a", "two", "2")];
    let found = select_new(&mut seen, &recs, &Vec::new());
    assert_eq!(found.len(), 1);
    assert_eq!(found[0].file.name, "one");
}

#[test]
fn batches_of_twenty_five() {
    let batches = make_batches("q", &records(25));
    assert_eq!(batches.len(), 3);
    assert_eq!(batches[0].records.len(), 10);
    assert_eq!(batches[1].records.len(), 10);
    assert_eq!(batches[2].records.len(), 5);
    assert_eq!(batches[2].records[0].file.id, "id20");
    for b in &batches {
        assert_eq!(b.content, "Detected 25 new files for query `q`.");
    }
}

#[test]
fn batches_of_twenty_end_full() {
    let batches = make_batches("q", &records(20));
    assert_eq!(batches.len(), 2);
    assert_eq!(batches[1].records.len(), 10);
}

#[test]
fn no_records_no_batches() {
    assert!(make_batches("q", &Vec::new()).is_empty());
}

#[test]
fn summary_pluralises_unless_one() {
    assert_eq!(summary_message(1, "abc"), "Detected 1 new file for query `abc`.");
    assert_eq!(summary_message(0, "abc"), "Detected 0 new files for query `abc`.");
    assert_eq!(summary_message(107, "a b"), "Detected 107 new files for query `a b`.");
}

#[test]
fn keyword_match_is_case_sensitive_substring() {
    let kws = vec!["Bar".to_string(), "zip".to_string()];
    assert!(matches_keyword("FooBarBaz", &kws));
    assert!(matches_keyword("a.zip", &kws));
    assert!(!matches_keyword("foobar", &kws));
    assert!(!matches_keyword("anything", &Vec::new()));
}

#[test]
fn classification_of_records() {
    let kws = vec!["Bar".to_string()];
    assert_eq!(classify(true, "Bar", &kws), Disposition::Duplicate);
    assert_eq!(classify(false, "Bar", &kws), Disposition::Ignored);
    assert_eq!(classify(false, "Foo", &kws), Disposition::Qualifying);
    assert!(Disposition::Ignored.marks_seen());
    assert!(!Disposition::Ignored.notifies());
    assert!(!Disposition::Duplicate.marks_seen());
    assert!(Disposition::Qualifying.notifies());
}

#[test]
fn addresses_and_keys() {
    let site = Dbree::new(default_dbree_base_uri());
    assert_eq!(site.base_uri, "https://dbree.org");
    assert_eq!(site.file_url("aaa"), "https://dbree.org/v/aaa");
    let search = DbreeSearch::new("some thing".to_string());
    assert_eq!(search.path(), "/s/some thing?page=0");
    let later = DbreeSearch { query: "x".to_string(), offset: 4071 };
    assert_eq!(site.search_uri(&later), "https://dbree.org/s/x?page=4071");
    assert_eq!(seen_key("aaa"), "seen:aaa");
}

#[test]
fn decimal_numerals() {
    let mut s = join_str("n=", "");
    append_decimal(&mut s, 0);
    assert_eq!(s, "n=0");
    let mut t = String::new();
    append_decimal(&mut t, u64::MAX);
    assert_eq!(t, "18446744073709551615");
}
