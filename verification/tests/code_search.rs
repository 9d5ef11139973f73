use agent_tools::code_search_probe::{
    cache_name, corpus, too_large, windows, Chunk, CodeSearch, Index, CHUNK_LINES,
    CHUNK_MAX_CHARS, MAX_FILE_BYTES,
};
use agent_tools::json::Json;
use agent_tools::notes::overview::Score;

#[test]
fn windows_overlap_and_cover_every_line() {
    let text: String = (1..=100).map(|i| format!("line {i}\n")).collect();
    let w = windows("a.rs", &text);
    assert!(w.len() > 1, "100 lines must not be one window");
    assert_eq!(w[0].start, 1);
    assert_eq!(w[0].end, CHUNK_LINES, "short lines fill the line budget");
    assert!(w[1].start <= CHUNK_LINES, "no overlap: {:?}", &w[..2]);
    assert_eq!(w.last().unwrap().end, 100, "the tail must be covered");
    assert!(w.iter().all(|w| w.body.starts_with("a.rs\n")));
}

#[test]
fn no_window_exceeds_the_character_cap() {
    let dense: String =
        (1..=200).map(|i| format!("{} // {}\n", "x".repeat(100), i)).collect();
    let w = windows("dense.rs", &dense);
    assert!(w.len() > 1);
    for one in &w {
        assert!(
            one.body.chars().count() <= CHUNK_MAX_CHARS + 120,
            "{}-{} is {} chars",
            one.start,
            one.end,
            one.body.chars().count()
        );
        assert!(one.end > one.start, "an empty window at {}", one.start);
    }
    assert_eq!(w.last().unwrap().end, 200);
}

#[test]
fn a_single_overlong_line_still_advances() {
    let text = format!("{}\nshort\n", "y".repeat(CHUNK_MAX_CHARS * 3));
    let w = windows("min.js", &text);
    assert!(!w.is_empty());
    assert_eq!(w.last().unwrap().end, 2, "the file must be covered");
}

#[test]
fn a_binary_file_has_no_windows() {
    assert!(corpus("a.bin", &vec![0, 1, 2]).is_empty());
    assert_eq!(corpus("a.txt", &b"x\n".to_vec()).len(), 1);
    assert!(too_large(MAX_FILE_BYTES + 1) && !too_large(MAX_FILE_BYTES));
    assert!(cache_name("0a1b").contains("0a1b"));
}

#[test]
fn the_closest_fragments_come_first() {
    let chunk = |path: &str| Chunk { path: path.into(), start: 1, end: 2, text: "body".into() };
    let index = Index { chunks: vec![chunk("far.rs"), chunk("near.rs")] };
    let scores = vec![
        Score { rank: 1, shown: "0.10".into() },
        Score { rank: 9, shown: "0.90".into() },
    ];
    let args = Json::from_text(r#"{"query": "where", "top_k": 1}"#).unwrap();
    let (query, k) = CodeSearch.arguments(true, &args).unwrap();
    assert_eq!((query.as_str(), k), ("where", 1));
    let out = CodeSearch.outcome(&index, &scores, &query, k);
    assert!(out.result.contains("near.rs"), "{}", out.result);
    assert!(!out.result.contains("far.rs"), "{}", out.result);
    assert!(CodeSearch.arguments(false, &args).is_err());
    assert!(CodeSearch.arguments(true, &Json::from_text("{}").unwrap()).is_err());
}
