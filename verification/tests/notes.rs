use agent_tools::i18n::{Lang, Locale, LANGS};
use agent_tools::json::Json;
use agent_tools::notes::cite::{Citation, NoteCiteSource};
use agent_tools::notes::edit::{NoteMerge, NoteRevise, NoteSupersede};
use agent_tools::notes::graph::{LinkArgs, NoteLink, NoteNeighbors};
use agent_tools::notes::overview::{
    build_consolidation_overview, build_self_consolidation_overview, summary_observation_overlaps,
    summary_paragraphs, ConsolidateNotes, Link, Score, Similar,
};
use agent_tools::notes::recall::{
    candidates, format_notes, list_user_notes, related_block, semantic_recall, Neighbor,
    NoteRecall,
};
use agent_tools::notes::save::{backfill_batch, self_note_similar, NoteSave};
use agent_tools::notes::self_notes::{
    migrate_self_narrative, relevant_candidates, self_notes_recent, self_notes_relevant,
    self_related_block, NarrativeSegment,
};
use agent_tools::notes::{Note, SELF_NOTE_TAG};
use agent_tools::times::Moment;

fn moment(secs: i64) -> Moment {
    Moment { secs, nanos: 5, offset: 0 }
}

fn ru() -> Locale {
    Lang::Ru.locale()
}

fn parsed(text: &str) -> Json {
    Json::from_text(text).unwrap()
}

fn note(id: u128, content: &str, tags: &[&str]) -> Note {
    Note { id, content: content.into(), tags: tags.iter().map(|t| t.to_string()).collect() }
}

fn about_self(id: u128, content: &str) -> Note {
    note(id, content, &[SELF_NOTE_TAG])
}

/// An identifier as it is written.
fn written(id: u128) -> String {
    format!("00000000-0000-0000-0000-{id:012x}")
}

fn contents(notes: &[Note]) -> Vec<&str> {
    notes.iter().map(|n| n.content.as_str()).collect()
}

fn recalled(found: &Vec<Note>) -> String {
    let near: Vec<Vec<Neighbor>> = found.iter().map(|_| vec![]).collect();
    let sources: Vec<Vec<String>> = found.iter().map(|_| vec![]).collect();
    NoteRecall.outcome(found, &near, &sources, &ru()).result
}

#[test]
fn note_recall_result_localized_for_all_langs() {
    for lang in LANGS {
        let loc = lang.locale();
        let empty = NoteRecall.outcome(&vec![], &vec![], &vec![], &loc);
        assert_eq!(empty.result, loc.t("tool.note_recall.result.empty"));
        let found = vec![note(1, "hello world", &[])];
        let out = NoteRecall.outcome(&found, &vec![vec![]], &vec![vec![]], &loc);
        assert!(out.result.contains("hello world"), "{lang:?}");
        let header = loc.tf1("tool.note_recall.result.header", "n", "1");
        assert!(out.result.contains(&header), "{lang:?}: {}", out.result);
    }
}

#[test]
fn tests_save_rejects_empty_content() {
    assert!(NoteSave.arguments(&parsed(r#"{"content": "  "}"#), &ru()).is_err());
    let (content, tags) = NoteSave
        .arguments(&parsed(r#"{"content": "любит чай", "tags": ["pref"]}"#), &ru())
        .unwrap();
    assert_eq!((content.as_str(), tags), ("любит чай", vec!["pref".to_string()]));
}

#[test]
fn tests_recall_by_tag() {
    let args = NoteRecall.arguments(&parsed(r#"{"tags": ["x"]}"#));
    assert_eq!(args.tags, vec!["x"]);
    assert!(args.query.is_none() && args.limit.is_none());
    let hits = vec![note(1, "a", &["x"]), note(2, "b", &["y"])];
    let kept = semantic_recall(&hits, &args.tags, false, None).unwrap();
    assert_eq!(contents(&kept), vec!["a"]);
    assert!(semantic_recall(&hits, &vec!["z".into()], false, None).is_none());
}

#[test]
fn recall_excludes_self_notes() {
    let all = vec![about_self(2, "сам люблю чай"), note(1, "любит чай", &[])];
    assert_eq!(contents(&list_user_notes(&all, false, Some(1))), vec!["любит чай"]);
    let by_meaning = semantic_recall(&all, &vec![], false, None).unwrap();
    assert_eq!(contents(&by_meaning), vec!["любит чай"]);
}

#[test]
fn recall_includes_self_notes_when_enabled() {
    let all = vec![note(1, "любит чай", &[]), about_self(2, "сам люблю чай")];
    let out = recalled(&list_user_notes(&all, true, None));
    assert!(out.contains("любит чай"));
    assert!(out.contains("[о себе] сам люблю чай"), "{out}");
    assert!(!out.contains("@self"), "{out}");
    let by_meaning = semantic_recall(&all, &vec![], true, None).unwrap();
    assert_eq!(by_meaning.len(), 2);
}

#[test]
fn recall_shows_note_ids() {
    let out = recalled(&vec![note(0xab, "любит чай", &[])]);
    assert!(out.contains(&format!("(id={})", written(0xab))), "{out}");
}

#[test]
fn note_cite_source_links_and_recall_shows_it() {
    let args = format!(r#"{{"note_id": "{}", "source": "book.md"}}"#, written(5));
    let (id, source) = NoteCiteSource.arguments(&parsed(&args), &ru()).unwrap();
    assert_eq!((id, source.as_str()), (5, "book.md"));
    let say = |c: Citation| NoteCiteSource.outcome(5, "book.md", c, &ru()).result;
    assert!(say(Citation::NoSource).contains("не найден в базе знаний"));
    assert!(say(Citation::Created).contains("Связь с источником создана"));
    assert!(say(Citation::Existed).contains("уже существовала"));
    assert!(say(Citation::NoNote).contains("не найдена"));
    let found = vec![note(5, "вывод про X", &[])];
    let out = NoteRecall.outcome(&found, &vec![vec![]], &vec![vec!["book.md".into()]], &ru());
    assert!(out.result.contains("Ссылки на источники"), "{}", out.result);
    assert!(out.result.contains("book.md"));
}

fn neighbor(n: Note, relation: &str, outgoing: bool) -> Neighbor {
    Neighbor { note: n, relation: relation.into(), outgoing }
}

#[test]
fn recall_surfaces_cross_organ_self_neighbor_marked() {
    let found = vec![note(1, "пользователь любит краткость", &[])];
    let near =
        vec![vec![neighbor(about_self(2, "я склонен к многословию"), "contradicts", true)]];
    let out = NoteRecall.outcome(&found, &near, &vec![vec![]], &ru()).result;
    assert!(out.contains("пользователь любит краткость"));
    assert!(out.contains("Связанные заметки"), "{out}");
    assert!(out.contains("[о себе]"), "{out}");
    assert!(out.contains("я склонен к многословию"));
}

#[test]
fn self_related_block_surfaces_cross_organ_user_note_marked() {
    let near =
        vec![vec![neighbor(note(1, "пользователь любит краткость", &[]), "contradicts", true)]];
    let block = self_related_block(&vec![2], &near, &ru()).expect("expected a links block");
    assert!(block.contains("[заметка]"), "{block}");
    assert!(block.contains("пользователь любит краткость"));
    assert!(block.contains("contradicts"));
    assert!(self_related_block(&vec![2], &vec![vec![]], &ru()).is_none());
}

#[test]
fn save_gate_excludes_self_notes() {
    let out = NoteSave.outcome(1, &Some(vec![about_self(2, "aaaa bbbb")]), &ru()).result;
    assert!(!out.contains("Похожие заметки"), "{out}");
    assert!(!out.contains("aaaa bbbb"));
    let near = vec![note(3, "x", &[]), about_self(2, "aaaa bbbb"), about_self(4, "new")];
    assert_eq!(contents(&self_note_similar(&near, 4)), vec!["aaaa bbbb"]);
}

#[test]
fn tests_save_surfaces_similar_notes_as_gate() {
    let hits = Some(vec![note(2, "aaab", &[]), note(1, "aaaa bbbb", &[])]);
    let out = NoteSave.outcome(2, &hits, &ru());
    assert!(out.result.contains("Похожие заметки"), "{}", out.result);
    assert!(out.result.contains("aaaa bbbb"));
    assert!(!out.result.contains("aaab"), "the new note is not like itself");
    assert!(out.wrote);
}

fn alike(a: usize, b: usize, rank: i64, shown: &str) -> Similar {
    Similar { a, b, score: Score { rank, shown: shown.into() } }
}

fn threshold() -> Score {
    Score { rank: 85, shown: "0.85".into() }
}

#[test]
fn consolidation_overview_excludes_self_notes() {
    let active = vec![
        note(1, "обычная одна", &[]),
        note(2, "обычная два", &[]),
        about_self(3, "наблюдение о себе"),
    ];
    let overview =
        build_consolidation_overview(&active, &vec![], &vec![], &threshold(), &vec![], &ru());
    assert!(overview.contains("Активных заметок: 2"), "{overview}");
    assert!(!overview.contains("наблюдение о себе"));
}

#[test]
fn consolidate_notes_reports_dups_and_dangling() {
    let all = || {
        vec![note(1, "aaaa bbbb", &[]), note(2, "aaaa bbbbb", &[]), note(3, "zzzz", &[])]
    };
    let sims = vec![alike(0, 1, 99, "0.99"), alike(0, 2, 10, "0.10")];
    let overview =
        build_consolidation_overview(&all(), &all(), &sims, &threshold(), &vec![], &ru());
    let out = ConsolidateNotes.outcome(&overview, &ru()).result;
    assert!(out.contains("Обзор базы знаний"), "{out}");
    assert!(out.contains("Похожие пары (возможные дубли"), "{out}");
    assert!(out.contains("aaaa bbbb"));
    assert!(out.contains("без связей"), "{out}");
    assert!(out.contains("note_merge"), "{out}");
    assert!(!out.contains("0.10"), "{out}");
}

#[test]
fn self_consolidation_overview_covers_self_only() {
    let none: Vec<Note> = vec![];
    let build = |active: &Vec<Note>, links: &Vec<Link>| {
        let with_vectors = vec![
            note(4, "aaaa пользовательская", &[]),
            about_self(1, "aaaa bbbb"),
            about_self(2, "aaab"),
        ];
        let sims = vec![alike(0, 1, 95, "0.95"), alike(1, 2, 89, "0.89")];
        build_self_consolidation_overview(
            active,
            &with_vectors,
            &sims,
            &threshold(),
            links,
            &ru(),
        )
    };
    assert!(build(&none, &vec![]).is_none());
    assert!(build(&vec![about_self(1, "aaaa bbbb")], &vec![]).is_none());
    let active = vec![
        about_self(1, "aaaa bbbb"),
        about_self(2, "aaab"),
        about_self(3, "wwww"),
    ];
    let ov = build(&active, &vec![]).unwrap();
    assert!(ov.contains("Обзор наблюдений"), "{ov}");
    assert!(ov.contains("Наблюдений: 3"), "{ov}");
    assert!(!ov.contains("пользовательская"));
    assert!(ov.contains("aaaa bbbb") && ov.contains("aaab"), "{ov}");
    let links = vec![Link { from: 1, to: 2, relation: "contradicts".into() }];
    let ov = build(&active, &links).unwrap();
    assert!(ov.contains("Связи contradicts среди наблюдений: 1"), "{ov}");
}

#[test]
fn summary_obs_overlap_surfaces_match_not_unrelated() {
    let summary = format!("{}\n\n{}", "a".repeat(50), "b".repeat(50));
    let paragraphs = summary_paragraphs(&summary);
    assert_eq!(paragraphs.len(), 2);
    let observations = vec![about_self(7, "MARKER_MATCH"), about_self(8, "MARKER_OTHER")];
    let ranks = vec![vec![100, 0], vec![0, 0]];
    let out = summary_observation_overlaps(&paragraphs, &observations, &ranks, 85, &ru())
        .expect("expected a section");
    assert!(out.contains("совпадающие с наблюдениями"), "{out}");
    assert!(out.contains("MARKER_MATCH"));
    assert!(out.contains(&written(7)), "{out}");
    assert!(!out.contains("MARKER_OTHER"));
    assert!(!out.contains(&"b".repeat(10)));
    assert_eq!(out.matches("\n- ").count(), 1);
}

#[test]
fn summary_obs_overlap_soft_degrades() {
    let paragraphs = summary_paragraphs(&"a".repeat(50));
    let none = summary_observation_overlaps(&paragraphs, &vec![], &vec![vec![]], 85, &ru());
    assert!(none.is_none());
    assert!(summary_paragraphs("").is_empty());
    assert!(summary_paragraphs("short").is_empty());
    let observations = vec![about_self(7, "obs")];
    assert!(summary_observation_overlaps(&vec![], &observations, &vec![], 85, &ru()).is_none());
}

#[test]
fn migrate_self_narrative_moves_and_is_idempotent() {
    let mut narrative = vec![
        NarrativeSegment { text: "старое наблюдение".into(), created_at: moment(1000) },
        NarrativeSegment { text: "ещё одно".into(), created_at: moment(2000) },
    ];
    let moved = migrate_self_narrative(&mut narrative);
    assert!(narrative.is_empty());
    assert_eq!(moved.len(), 2);
    assert!(moved.iter().any(|n| n.content == "старое наблюдение" && n.created_at == moment(1000)));
    assert!(moved.iter().all(|n| n.tags == vec![SELF_NOTE_TAG.to_string()]));
    assert!(migrate_self_narrative(&mut narrative).is_empty());
}

#[test]
fn self_notes_relevant_ranks_and_filters() {
    let hits = vec![
        note(3, "aaaa обычная", &[]),
        about_self(1, "aaaa про краткость"),
        about_self(2, "wwww про погоду"),
    ];
    let rel = self_notes_relevant(&hits, 3);
    assert_eq!(contents(&rel), vec!["aaaa про краткость", "wwww про погоду"]);
    assert_eq!(self_notes_relevant(&hits, 1).len(), 1);
    assert_eq!(relevant_candidates("  ", 3), None);
    assert_eq!(relevant_candidates("aaaa", 3), Some(20));
    assert_eq!(self_notes_recent(&hits, 2).len(), 2);
}

#[test]
fn tests_recall_semantic_finds_non_substring_match() {
    let hits = vec![note(1, "aaaa", &[]), note(2, "wwww", &[])];
    let found = semantic_recall(&hits, &vec![], false, Some(1)).unwrap();
    assert_eq!(contents(&found), vec!["aaaa"]);
    assert_eq!(candidates(Some(1)), 30);
    assert_eq!(candidates(Some(50)), 50);
}

#[test]
fn recall_backfills_legacy_notes_without_vectors() {
    let missing: Vec<(u128, String)> = (0..40).map(|i| (i, format!("n{i}"))).collect();
    let (ids, texts) = backfill_batch(&missing, 0);
    assert_eq!((ids.len(), texts.len()), (32, 32));
    let (ids, texts) = backfill_batch(&missing, 32);
    assert_eq!(ids, (32..40).collect::<Vec<u128>>());
    assert_eq!(texts[7], "n39");
    assert!(backfill_batch(&missing, 40).0.is_empty());
}

#[test]
fn tests_revise_rewrites_in_place() {
    let args = format!(r#"{{"id": "{}", "content": "новое"}}"#, written(9));
    let (id, content) = NoteRevise.arguments(&parsed(&args), &ru()).unwrap();
    assert_eq!((id, content.as_str()), (9, "новое"));
    let out = NoteRevise.outcome(true, 9, Some(0), &ru());
    assert!(out.result.contains("переписана"), "{}", out.result);
}

#[test]
fn tests_revise_bad_and_missing_id() {
    let bad = parsed(r#"{"id": "not-uuid", "content": "x"}"#);
    assert!(NoteRevise.arguments(&bad, &ru()).is_err());
    let out = NoteRevise.outcome(false, 9, None, &ru());
    assert!(out.result.contains("не найдена"), "{}", out.result);
}

#[test]
fn link_then_neighbors() {
    let args = |from: u128, to: u128, relation: &str| {
        parsed(&format!(
            r#"{{"from_id": "{}", "to_id": "{}", "relation": "{relation}"}}"#,
            written(from),
            written(to)
        ))
    };
    let l: LinkArgs = NoteLink.arguments(&args(1, 2, "refines"), &ru()).unwrap();
    assert_eq!((l.from, l.to, l.relation.as_str()), (1, 2, "refines"));
    assert!(NoteLink.outcome(&l, Some(true), &ru()).result.contains("Связь создана"));
    assert!(NoteLink.outcome(&l, Some(false), &ru()).result.contains("уже существовала"));
    assert!(NoteLink.arguments(&args(1, 2, "foo"), &ru()).is_err());
    assert!(NoteLink.arguments(&args(1, 1, "relates"), &ru()).is_err());
    let near = vec![neighbor(note(2, "бета", &[]), "refines", true)];
    let nb = NoteNeighbors.outcome(1, &near, &ru()).result;
    assert!(nb.contains("бета") && nb.contains("refines"), "{nb}");
    let none = NoteNeighbors.outcome(1, &vec![], &ru()).result;
    assert!(!none.contains("бета"));
}

#[test]
fn revise_warns_when_note_has_links() {
    let linked = NoteRevise.outcome(true, 9, Some(1), &ru()).result;
    assert!(linked.contains("переписана") && linked.contains("note_supersede"), "{linked}");
    let lone = NoteRevise.outcome(true, 9, Some(0), &ru()).result;
    assert!(!lone.contains("note_supersede"), "{lone}");
}

#[test]
fn supersede_hides_old_shows_new() {
    let args = format!(r#"{{"old_id": "{}", "content": "вторая версия"}}"#, written(1));
    let (old, content) = NoteSupersede.arguments(&parsed(&args), &ru()).unwrap();
    assert_eq!((old, content.as_str()), (1, "вторая версия"));
    let out = NoteSupersede.outcome(1, 2, &ru()).result;
    assert!(out.contains("замещена"), "{out}");
}

#[test]
fn supersede_preserves_tags() {
    let tags = NoteSupersede.tags(&Some(about_self(1, "версия 1")));
    assert_eq!(tags, vec![SELF_NOTE_TAG.to_string()]);
    assert!(NoteSupersede.tags(&None).is_empty());
}

#[test]
fn merge_consolidates_sources() {
    let args = format!(
        r#"{{"ids": ["{}", "{}"], "content": "единая заметка"}}"#,
        written(1),
        written(2)
    );
    let (content, ids) = NoteMerge.arguments(&parsed(&args), &ru()).unwrap();
    assert_eq!((content.as_str(), ids.as_slice()), ("единая заметка", &[1u128, 2][..]));
    let merged = NoteMerge.sources(&ids, &vec![true, true], &ru()).unwrap();
    assert!(NoteMerge.outcome(merged.len(), 3, &ru()).result.contains("Объединено заметок: 2"));
    assert!(NoteMerge.sources(&ids, &vec![true, false], &ru()).is_err());
}

#[test]
fn merge_unions_tags() {
    let sources = vec![note(1, "aaa", &["x", "z"]), note(2, "bbb", &["y", "x"])];
    let tags = NoteMerge.tags(&sources);
    assert_eq!(tags.len(), 3);
    for t in ["x", "y", "z"] {
        assert!(tags.iter().any(|have| have == t), "{t}");
    }
}

#[test]
fn recall_spreads_to_linked_notes() {
    let found = vec![note(1, "aaaa", &[])];
    let near = vec![vec![neighbor(note(2, "zzzz", &[]), "relates", true)]];
    let out = NoteRecall.outcome(&found, &near, &vec![vec![]], &ru()).result;
    assert!(out.contains("aaaa"));
    assert!(out.contains("Связанные заметки"), "{out}");
    assert!(out.contains("zzzz"));
    let itself = vec![vec![neighbor(note(1, "aaaa", &[]), "relates", true)]];
    assert!(related_block(&found, &itself, &ru()).is_none(), "a hit is no neighbour");
    assert!(format_notes(&found, &ru()).result.contains("aaaa"));
}

#[test]
fn a_recall_without_a_limit_gives_five() {
    let all: Vec<Note> = (1..=6).map(|i| note(i, "заметка", &[])).collect();
    assert_eq!(list_user_notes(&all, false, None).len(), 5);
    assert_eq!(list_user_notes(&all, false, Some(6)).len(), 6);
}

#[test]
fn a_note_is_not_merged_with_itself() {
    let twice = NoteMerge.sources(&vec![1, 1], &vec![true, true], &ru());
    assert_eq!(twice.unwrap_err(), ru().t("tool.note_merge.err.min_two"));
    let three = NoteMerge.sources(&vec![1, 2, 1], &vec![true, true, true], &ru());
    assert_eq!(three.unwrap(), vec![1, 2]);
}

#[test]
fn a_contradiction_about_the_assistant_stays_out_of_the_overview() {
    let notes = vec![note(1, "любит чай", &[]), note(2, "не любит чай", &[])];
    let mut all = vec![about_self(7, "краток"), about_self(8, "многословен")];
    all.extend(notes);
    let link = |from: u128, to: u128| Link { from, to, relation: "contradicts".into() };
    let links = vec![link(7, 8), link(1, 2), link(1, 7)];
    let none: Vec<Note> = vec![];
    let text =
        build_consolidation_overview(&all, &none, &vec![], &threshold(), &links, &ru());
    let title = ru().tf1("notes.overview.contradicts", "n", "1");
    assert!(text.contains(&title), "{text}");
    assert!(!text.contains("00000000-0000-0000-0000-000000000007"), "{text}");
}
