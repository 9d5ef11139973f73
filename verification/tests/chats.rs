use agent_tools::chats::{
    address, date_of, hex_needle, load_transcript, no_other_chats, render_grouped_hits, resolve,
    snapshot_other_chats, total_hits, transcript_file, Chat, ChatRead, ChatRef, ChatSearch, Choice, MessageHit,
    ParentRef, Resolved, Run, SearchFound, SearchStart, Transcript, TranscriptSource,
};
use agent_tools::i18n::{Lang, Locale};
use agent_tools::json::Json;
use agent_tools::times::Moment;

fn ru() -> Locale {
    Lang::Ru.locale()
}

fn chat(id: u128, profile_id: u128, title: &str, runs: &[(u128, &str)]) -> Chat {
    Chat {
        id,
        profile_id,
        title: title.into(),
        modified_at: moment(1000),
        is_hidden: false,
        runs: runs
            .iter()
            .map(|(id, title)| Run {
                id: *id,
                title: title.to_string(),
                created_at: moment(500),
                finished_at: Some(moment(600)),
            })
            .collect(),
    }
}

fn moment(secs: i64) -> Moment {
    Moment { secs, nanos: 0, offset: 0 }
}

fn at(id: u128, title: &str, secs: i64) -> ChatRef {
    ChatRef { id, title: title.into(), modified_at: moment(secs), parent: None }
}

const FISH: u128 = 0x1111_1111_2222_4333_8444_5555_5555_5555;
const MUSHROOMS: u128 = 0xaaaa_aaaa_2222_4333_8444_5555_5555_5555;

fn two() -> Vec<ChatRef> {
    vec![at(FISH, "заметки о рыбалке", 100), at(MUSHROOMS, "заметки о грибах", 200)]
}

fn asked(chat: &str) -> Json {
    Json::from_text(&format!(r#"{{"chat": "{chat}"}}"#)).unwrap()
}

fn pick(refs: &Vec<ChatRef>, chat: &str) -> Choice {
    ChatRead.pick(refs, &asked(chat), &ru()).unwrap()
}

#[test]
fn snapshot_scopes_profile_current_and_hidden() {
    let current = chat(1, 7, "current", &[]);
    let other = chat(2, 7, "other", &[]);
    let mut hidden = chat(3, 7, "hidden", &[]);
    hidden.is_hidden = true;
    let foreign = chat(4, 8, "foreign", &[]);
    let refs = snapshot_other_chats(&vec![current, other, hidden, foreign], 7, 1);
    assert_eq!(
        refs.iter().map(|r| r.id).collect::<Vec<_>>(),
        vec![2],
        "only the profile's other visible chat may be in scope"
    );
}

#[test]
fn snapshot_includes_transcripts_with_their_parent() {
    let current = chat(1, 7, "current", &[(11, "current's critic")]);
    let other = chat(2, 7, "other", &[(12, "other's critic")]);
    let mut hidden = chat(3, 7, "hidden", &[(13, "hidden's critic")]);
    hidden.is_hidden = true;
    let refs = snapshot_other_chats(&vec![current, other, hidden], 7, 1);
    let names: Vec<(String, Option<String>)> = refs
        .iter()
        .map(|r| (r.title.clone(), r.parent.as_ref().map(|p| p.title.clone())))
        .collect();
    assert_eq!(
        names,
        vec![
            ("current's critic".to_string(), Some("current".to_string())),
            ("other".to_string(), None),
            ("other's critic".to_string(), Some("other".to_string())),
        ]
    );
    assert_eq!(refs[0].parent.as_ref().unwrap().id, 1);
}

#[test]
fn search_and_read_reach_a_transcript_through_its_parent() {
    let parent = chat(1, 7, "о рыбалке", &[(FISH, "Критик")]);
    let refs = snapshot_other_chats(&vec![parent], 7, 1);
    assert_eq!(refs.len(), 1, "the transcript alone");
    assert_eq!(transcript_file(&refs[0]), 1);
    let label = refs[0].label(&ru());
    assert!(label.contains("Критик") && label.contains("о рыбалке"), "{label}");
    let here = Some(chat(1, 7, "о рыбалке", &[(FISH, "Критик")]));
    assert_eq!(load_transcript(&here, &refs[0], 7, 1), Some(TranscriptSource::Child));
    // The run is taken back: the snapshot is stale.
    let gone = Some(chat(1, 7, "о рыбалке", &[]));
    assert_eq!(load_transcript(&gone, &refs[0], 7, 1), None);
    let out = ChatRead.outcome(&refs[0], &Transcript::Unavailable, &asked("x"), &ru()).result;
    assert!(out.contains("сейчас прочитать не получается"), "{out}");
}

#[test]
fn read_refuses_a_stale_cross_profile_reference() {
    let r = at(2, "чужой", 100);
    assert_eq!(load_transcript(&Some(chat(2, 8, "чужой", &[])), &r, 7, 1), None);
    let mut hidden = chat(2, 7, "чужой", &[]);
    hidden.is_hidden = true;
    assert_eq!(load_transcript(&Some(hidden), &r, 7, 1), None);
    assert_eq!(load_transcript(&None, &r, 7, 1), None);
    let own = Some(chat(2, 7, "свой", &[]));
    assert_eq!(load_transcript(&own, &r, 7, 1), Some(TranscriptSource::Own));
    let out = ChatRead.outcome(&r, &Transcript::Unavailable, &asked("x"), &ru()).result;
    assert_eq!(out, ru().tf1("tool.chat_read.unavailable", "title", "чужой"));
}

fn hit(scope: u128, snippet: &str, page: Option<u64>) -> MessageHit {
    MessageHit {
        scope,
        role: "user".into(),
        ts: "2026-06-23T12:30:00+00:00".into(),
        snippet: snippet.into(),
        page,
    }
}

fn search(refs: &Vec<ChatRef>, hits: Vec<MessageHit>, total: u64, k: u64) -> String {
    ChatSearch.outcome(refs, &SearchFound::Hits { hits, total }, k, &ru()).result
}

#[test]
fn search_reaches_only_the_snapshot() {
    let mine = vec![at(FISH, "план запуска", 100)];
    let out = search(
        &mine,
        vec![
            hit(FISH, "код запуска РЕКА-7731 назначен на пятницу", Some(1)),
            hit(MUSHROOMS, "чужой чат", Some(1)),
        ],
        2,
        5,
    );
    assert!(out.contains("план запуска"), "{out}");
    assert!(!out.contains("чужой чат"), "{out}");
    assert!(out.contains("РЕКА-7731"), "{out}");
    assert!(out.contains("chat_read"), "the hint must name the reader: {out}");
}

#[test]
fn search_groups_by_chat_and_names_pages() {
    let refs = vec![at(FISH, "старый разговор", 100), at(MUSHROOMS, "новый разговор", 200)];
    let out = search(
        &refs,
        vec![
            hit(FISH, "про сорт яблок АНТОНОВКА", Some(1)),
            hit(MUSHROOMS, "яблоки сорта АНТОНОВКА", Some(2)),
        ],
        2,
        5,
    );
    assert!(out.contains(&address(MUSHROOMS)), "{out}");
    let newer_at = out.find("новый разговор").unwrap();
    let older_at = out.find("старый разговор").unwrap();
    assert!(newer_at < older_at, "recency must order the groups: {out}");
    assert!(out.contains("страница 2"), "the hit must name its page: {out}");
    assert!(out.contains("2026-06-23") && !out.contains("12:30"), "{out}");
    assert_eq!(date_of("2026-06-23T12:30:00+00:00"), "2026-06-23");
}

#[test]
fn search_caps_hits_and_reports_the_honest_total() {
    let refs = vec![at(FISH, "гранаты", 100)];
    let hits = (1..=4).map(|i| hit(FISH, &format!("повтор ГРАНАТ номер {i}"), None)).collect();
    let out = search(&refs, hits, 4, 2);
    let header = out.lines().next().unwrap();
    assert!(header.contains('2') && header.contains('4'), "{header}");
    assert_eq!(out.matches("ГРАНАТ").count(), 2, "{out}");
    assert_eq!(total_hits(4, 50, None), 4);
    assert_eq!(total_hits(50, 50, Some(120)), 120);
}

#[test]
fn nothing_here_and_no_hits_are_different_answers() {
    let args = Json::from_text(r#"{"query": "что-нибудь"}"#).unwrap();
    match ChatSearch.start(&vec![], &args, &ru()).unwrap() {
        SearchStart::Answer(o) => assert_eq!(o.result, ru().t("tool.chats.none")),
        SearchStart::Query { .. } => panic!("there is nothing to search"),
    }
    let out = search(&vec![at(FISH, "пустышка", 1)], vec![], 0, 5);
    assert_eq!(out, ru().t("tool.chat_search.empty"), "{out}");
}

#[test]
fn chats_a_query_full_of_punctuation_reaches_the_index() {
    for q in ["C++ и cost-benefit", "50% AND (", "a:b"] {
        let args = Json::from_text(&format!(r#"{{"query": " {q} "}}"#)).unwrap();
        match ChatSearch.start(&two(), &args, &ru()).unwrap() {
            SearchStart::Query { query, .. } => assert_eq!(query, q),
            SearchStart::Answer(o) => panic!("{}", o.result),
        }
    }
    let out = ChatSearch.outcome(&two(), &SearchFound::TooShort, 5, &ru()).result;
    assert_eq!(out, ru().t("tool.chat_search.too_short"));
    let out = ChatSearch.outcome(&two(), &SearchFound::Unavailable, 5, &ru()).result;
    assert_eq!(out, ru().t("tool.chat_search.unavailable"));
    let blank = Json::from_text(r#"{"query": "  "}"#).unwrap();
    assert!(ChatSearch.start(&two(), &blank, &ru()).is_err());
}

#[test]
fn read_resolves_by_id_title_and_reports_ambiguity() {
    let refs = two();
    assert!(matches!(pick(&refs, "11111111"), Choice::Read(0)));
    assert!(matches!(pick(&refs, "заметки о грибах"), Choice::Read(1)));
    assert!(matches!(pick(&refs, "ГРИБ"), Choice::Read(1)));
    match pick(&refs, "заметки") {
        Choice::Answer(o) => {
            assert!(o.result.contains(&address(FISH)), "{}", o.result);
            assert!(o.result.contains(&address(MUSHROOMS)), "{}", o.result);
        }
        Choice::Read(_) => panic!("two answer to it"),
    }
    match pick(&refs, "нет такого") {
        Choice::Answer(o) => assert!(o.result.contains("chat_search"), "{}", o.result),
        Choice::Read(_) => panic!("none answers to it"),
    }
    assert!(ChatRead.pick(&refs, &asked("  "), &ru()).is_err());
    assert!(matches!(resolve(&refs, "заметки"), Resolved::Ambiguous(v) if v == vec![0, 1]));
    assert!(matches!(resolve(&refs, "нет такого"), Resolved::Nothing));
}

#[test]
fn read_accepts_its_own_chat_uri() {
    let refs = two();
    for reference in [
        address(FISH),
        address(FISH).to_uppercase(),
        "11111111".to_string(),
        "11111111-2222-4333-8444-555555555555".to_string(),
    ] {
        assert!(matches!(pick(&refs, &reference), Choice::Read(0)), "{reference}");
    }
    assert_eq!(hex_needle("11-AA").as_deref(), Some("11aa"));
    assert_eq!(hex_needle("рыбалка"), None);
}

#[test]
fn printed_addresses_carry_the_scheme() {
    let expected = address(FISH);
    assert_eq!(expected, "chat://11111111");
    let refs = two();
    let out = search(&refs, vec![hit(FISH, "щука", Some(1))], 1, 5);
    assert!(out.contains(&expected), "search header: {out}");
    let pages = Transcript::Pages(vec!["щука".into()]);
    let out = ChatRead.outcome(&refs[0], &pages, &asked("x"), &ru()).result;
    assert!(out.contains(&expected), "read header: {out}");
}

#[test]
fn read_pages_walk_the_whole_transcript() {
    let r = at(FISH, "длинный", 1);
    let pages = vec!["первое\n".to_string(), "второе\n".into(), "ВИШНЯ-2210\n".into()];
    let whole = pages.concat();
    let transcript = Transcript::Pages(pages);
    let mut joined = String::new();
    for page in 1..=3 {
        let args = Json::from_text(&format!(r#"{{"page": {page}}}"#)).unwrap();
        let out = ChatRead.outcome(&r, &transcript, &args, &ru()).result;
        assert!(out.contains('3'), "{out}");
        joined.push_str(out.split_once('\n').unwrap().1);
    }
    assert_eq!(joined, whole, "walking 1..M reads it all");
    let args = Json::from_text(r#"{"page": 99}"#).unwrap();
    let out = ChatRead.outcome(&r, &transcript, &args, &ru()).result;
    assert!(out.contains("99") && out.contains('3'), "{out}");
    let out = ChatRead.outcome(&r, &Transcript::Empty, &args, &ru()).result;
    assert_eq!(out, ru().tf1("tool.chat_read.empty", "title", "длинный"));
}

#[test]
fn both_tools_explain_an_empty_profile() {
    let none = no_other_chats(&ru()).result;
    assert_eq!(none, ru().t("tool.chats.none"));
    match pick(&vec![], "любой") {
        Choice::Answer(o) => assert_eq!(o.result, none),
        Choice::Read(_) => panic!("there are no chats"),
    }
}

#[test]
fn a_child_is_labelled_with_its_parent() {
    let mut r = at(FISH, "Критик", 1);
    assert_eq!(r.label(&ru()), "Критик");
    r.parent = Some(ParentRef { id: 1, title: "о рыбалке".into() });
    let want = ru().tf2("tool.chat_search.child", "title", "Критик", "parent", "о рыбалке");
    assert_eq!(r.label(&ru()), want);
}

#[test]
fn conversations_of_one_second_come_by_their_nanoseconds() {
    let mut refs = vec![at(FISH, "earlier", 100), at(MUSHROOMS, "later", 100)];
    refs[1].modified_at.nanos = 1;
    let hit = |scope: u128| MessageHit {
        scope,
        role: "user".into(),
        ts: "2026-01-01T00:00:00Z".into(),
        snippet: "here".into(),
        page: Some(1),
    };
    let (text, shown) = render_grouped_hits(&refs, &vec![hit(FISH), hit(MUSHROOMS)], 5, &ru());
    assert_eq!(shown, 2);
    assert!(text.find("later").unwrap() < text.find("earlier").unwrap(), "{text}");
}
