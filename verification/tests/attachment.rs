use agent_tools::attachment::{
    any_indexed, keep_attached, Attachment, AttachmentFound, AttachmentHit, AttachmentRead,
    AttachmentSearch, Passage, SearchStart,
};
use agent_tools::i18n::{Lang, Locale};
use agent_tools::json::Json;

fn ru() -> Locale {
    Lang::Ru.locale()
}

fn att(id: u128, name: &str, pages: &[&str]) -> Attachment {
    let mut cuts = vec![];
    let mut at = 0;
    for page in &pages[..pages.len() - 1] {
        at += page.chars().count();
        cuts.push(at);
    }
    let source = format!("/tmp/{name}");
    Attachment { id, name: name.into(), source, text: pages.concat(), cuts }
}

fn read(files: &Vec<Attachment>, args: &str) -> String {
    AttachmentRead.outcome(files, &Json::from_text(args).unwrap(), &ru()).result
}

#[test]
fn reads_pages_and_reports_the_range() {
    let pages = ["первая строка\n", "вторая строка\n", "третья строка\nчетвёртая строка\n"];
    let files = vec![att(1, "doc.txt", &pages)];
    let first = read(&files, r#"{"name": "doc.txt"}"#);
    assert!(first.contains("первая строка"), "{first}");
    assert!(first.contains('1') && first.contains('3'), "{first}");
    let mut joined = String::new();
    for p in 1..=3 {
        let out = read(&files, &format!(r#"{{"name": "doc.txt", "page": {p}}}"#));
        joined.push_str(out.split_once('\n').unwrap().1);
    }
    assert_eq!(joined, pages.concat(), "walking 1..M reads the whole file");
}

#[test]
fn page_defaults_to_the_first_one() {
    let files = vec![att(1, "doc.txt", &["начало файла", " и продолжение текста"])];
    assert_eq!(
        read(&files, r#"{"name": "doc.txt", "page": 1}"#),
        read(&files, r#"{"name": "doc.txt"}"#)
    );
}

#[test]
fn out_of_range_and_unknown_name_explain_themselves() {
    let files = vec![att(1, "doc.txt", &["коротко"])];
    let out = read(&files, r#"{"name": "doc.txt", "page": 99}"#);
    assert!(out.contains("99") && out.contains('1'), "{out}");
    let out = read(&files, r#"{"name": "other.txt"}"#);
    assert!(out.contains("doc.txt"), "{out}");
}

#[test]
fn an_ambiguous_name_is_reported_instead_of_guessing() {
    let mut one = att(1, "V Documentation", &["первый файл"]);
    one.source = "https://docs.example.io/memory.html".into();
    let mut two = att(2, "V Documentation", &["второй файл"]);
    two.source = "https://docs.example.io/concurrency.html".into();
    let files = vec![one, two];
    let out = read(&files, r#"{"name": "V Documentation"}"#);
    assert!(out.contains("memory.html"), "the sources must be shown: {out}");
    assert!(out.contains("concurrency.html"), "{out}");
    assert!(!out.contains("первый файл"), "a page was read anyway: {out}");
    let out = read(&files, r#"{"name": "https://docs.example.io/concurrency.html"}"#);
    assert!(out.contains("второй файл"), "{out}");
}

#[test]
fn reports_clearly_when_nothing_is_attached() {
    assert_eq!(read(&vec![], r#"{"name": "any.txt"}"#), ru().t("tool.attachment_read.none"));
}

fn passage(source: &str, text: &str) -> Passage {
    Passage { source: source.into(), text: text.into() }
}

#[test]
fn search_finds_the_fragment_by_meaning_and_names_the_file() {
    let found = AttachmentFound::Passages(vec![passage("doc.txt", "рецепт борща со свёклой")]);
    let out = AttachmentSearch.outcome(&found, &ru()).result;
    assert!(out.contains("рецепт борща"), "{out}");
    assert!(out.contains("doc.txt"), "the file must be named: {out}");
    assert!(out.contains("attachment_read"), "{out}");
}

#[test]
fn search_numbers_fragments_and_separates_them() {
    let found = AttachmentFound::Passages(vec![
        passage("doc.txt", "первая строка первого фрагмента\nвторая строка первого фрагмента"),
        passage("doc.txt", "совсем другое содержимое\nв несколько строк"),
    ]);
    let out = AttachmentSearch.outcome(&found, &ru()).result;
    assert!(out.contains("1. [doc.txt]") && out.contains("2. [doc.txt]"), "{out}");
    assert!(out.contains("[doc.txt]\nпервая строка"), "{out}");
    assert!(out.contains("\n\n2. ["), "fragments must be separated by a blank line: {out}");
}

#[test]
fn search_hides_files_that_are_no_longer_attached() {
    let hit = |id: u128, name: &str, text: &str| AttachmentHit {
        attachment_id: id,
        name: name.into(),
        text: text.into(),
    };
    let files = vec![att(2, "kept.txt", &["y"])];
    let hits = vec![
        hit(1, "removed.txt", "секретный текст удалённого файла"),
        hit(2, "kept.txt", "обычный текст оставшегося файла"),
    ];
    assert_eq!(keep_attached(&files, &hits), vec![1]);
    assert!(keep_attached(&vec![], &hits).is_empty());
}

#[test]
fn search_reports_when_nothing_is_indexed() {
    let files = vec![att(1, "doc.txt", &["текст"])];
    assert!(!any_indexed(&files, &vec![]) && !any_indexed(&files, &vec![2]));
    assert!(any_indexed(&files, &vec![2, 1]));
    let out = AttachmentSearch.outcome(&AttachmentFound::NotIndexed, &ru()).result;
    assert!(out.contains("attachment_read"), "{out}");
}

#[test]
fn search_needs_a_query_and_reports_an_empty_chat() {
    let files = vec![att(1, "doc.txt", &["текст"])];
    let blank = Json::from_text(r#"{"query": "   "}"#).unwrap();
    assert!(AttachmentSearch.start(&files, &blank, &ru()).is_err());
    let asked = Json::from_text(r#"{"query": "что-нибудь"}"#).unwrap();
    match AttachmentSearch.start(&vec![], &asked, &ru()).unwrap() {
        SearchStart::Answer(o) => assert!(!o.result.is_empty()),
        SearchStart::Query { .. } => panic!("there is nothing to search"),
    }
    match AttachmentSearch.start(&files, &asked, &ru()).unwrap() {
        SearchStart::Query { query, k } => assert_eq!((query.as_str(), k), ("что-нибудь", 5)),
        SearchStart::Answer(o) => panic!("{}", o.result),
    }
    let none = AttachmentSearch.outcome(&AttachmentFound::Passages(vec![]), &ru());
    assert_eq!(none.result, ru().t("tool.attachment_search.result.empty"));
}

#[test]
fn cuts_out_of_place_lose_nothing() {
    let mut file = att(1, "doc.txt", &["абв", "где"]);
    file.cuts = vec![4, 2, 99];
    let pages: Vec<String> = (1..=4).map(|p| file.page(p).unwrap()).collect();
    assert_eq!(pages, vec!["абвг", "", "де", ""]);
    assert_eq!(pages.concat(), file.text);
    assert_eq!(file.page(0), None);
    assert_eq!(file.page(5), None);
}

#[test]
fn search_degrades_when_the_embedder_is_gone() {
    let files = vec![att(1, "doc.txt", &["текст"])];
    let asked = Json::from_text(r#"{"query": "содержимое"}"#).unwrap();
    match AttachmentSearch.start(&files, &asked, &ru()).unwrap() {
        SearchStart::Query { query, .. } => assert_eq!(query, "содержимое"),
        SearchStart::Answer(o) => panic!("{}", o.result),
    }
    assert!(any_indexed(&files, &vec![1]));
    let out = AttachmentSearch.outcome(&AttachmentFound::NotIndexed, &ru()).result;
    assert!(out.contains("attachment_read"), "{out}");
}
