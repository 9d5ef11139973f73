use agent_tools::history::{
    locate_hits, nothing_compressed, HistoryFound, HistoryHit, HistoryRead, HistorySearch,
    SearchStart,
};
use agent_tools::i18n::{Lang, Locale};
use agent_tools::json::Json;

fn ru() -> Locale {
    Lang::Ru.locale()
}

fn pages() -> Option<Vec<String>> {
    Some(vec!["сборка ZARYA-8823\n".into(), "код сборки нашёлся\n".into()])
}

fn read(pages: &Option<Vec<String>>, args: &str) -> String {
    HistoryRead.outcome(pages, &Json::from_text(args).unwrap(), &ru()).result
}

#[test]
fn read_walks_every_page_and_reports_the_range() {
    let mut joined = String::new();
    for p in 1..=2 {
        let out = read(&pages(), &format!(r#"{{"page": {p}}}"#));
        assert!(out.contains('2'), "{out}");
        joined.push_str(out.split_once('\n').unwrap().1);
    }
    assert_eq!(joined, pages().unwrap().concat());
    assert!(joined.contains("ZARYA-8823"), "the folded text is reachable");
}

#[test]
fn read_defaults_to_the_first_page_and_reports_a_bad_one() {
    assert_eq!(read(&pages(), r#"{"page": 1}"#), read(&pages(), "{}"));
    let out = read(&pages(), r#"{"page": 99}"#);
    assert!(out.contains("99") && out.contains('2'), "{out}");
}

#[test]
fn both_tools_explain_a_conversation_with_nothing_folded() {
    let none = ru().t("tool.history.none").to_string();
    assert_eq!(read(&None, "{}"), none);
    let args = Json::from_text(r#"{"query": "ZARYA"}"#).unwrap();
    match HistorySearch.start(false, &args, &ru()).unwrap() {
        SearchStart::Answer(o) => assert_eq!(o.result, none),
        SearchStart::Query { .. } => panic!("nothing is folded"),
    }
    assert_eq!(nothing_compressed(&ru()).result, none);
}

fn hit(page: u64, snippet: &str) -> HistoryHit {
    HistoryHit { page, snippet: snippet.into() }
}

#[test]
fn search_finds_a_tool_result_and_names_its_page() {
    let found = HistoryFound::Hits { shown: vec![hit(2, "сборка ZARYA-8823")], total: 1 };
    let out = HistorySearch.outcome(&found, &ru()).result;
    assert!(out.contains("ZARYA-8823"), "{out}");
    assert!(out.contains("[страница 2]"), "{out}");
    assert!(out.contains("history_read"), "{out}");
}

#[test]
fn search_ignores_matches_outside_the_folded_range() {
    // The messages 10 to 13 are folded; 15 is in the tail.
    let folded: Vec<u128> = vec![10, 11, 12, 13];
    assert_eq!(locate_hits(&folded, &vec![15, 12, 11]), vec![1, 2]);
    assert_eq!(HistorySearch.select(&folded, &vec![15], 5), (vec![], 0));
    let none = HistoryFound::Hits { shown: vec![], total: 0 };
    let out = HistorySearch.outcome(&none, &ru()).result;
    assert!(out.contains("history_read"), "the answer must not dead-end: {out}");
}

#[test]
fn hits_come_in_the_order_of_the_conversation() {
    let folded: Vec<u128> = vec![10, 11, 12, 13];
    let (shown, total) = HistorySearch.select(&folded, &vec![13, 10, 12], 2);
    assert_eq!(total, 3);
    assert_eq!(shown.len(), 2);
    assert!(shown[0] < shown[1]);
}

#[test]
fn a_short_or_missing_query_is_answered_usefully() {
    let out = HistorySearch.outcome(&HistoryFound::TooShort, &ru()).result;
    assert!(out.contains("history_read"), "{out}");
    let out = HistorySearch.outcome(&HistoryFound::Unavailable, &ru()).result;
    assert!(out.contains("history_read"), "{out}");
    let blank = Json::from_text(r#"{"query": "   "}"#).unwrap();
    assert!(HistorySearch.start(true, &blank, &ru()).is_err());
}
