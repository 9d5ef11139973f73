use agent_tools::code::change::{edit, edit_args, journal_error, write_args, Edit};
use agent_tools::code::command::{
    busy, clip, command_line, command_timeout, command_words, finished_outcome, run_outcome,
    strip_ansi, Ended,
};
use agent_tools::code::file::TextFile;
use agent_tools::code::grep::{clip_hit, filter, grep, grep_args, start, GrepArgs, Search};
use agent_tools::code::look::{
    list, list_args, no_project, path_arg, read, read_args, read_text, searchable, Entry,
    MAX_FILE_BYTES, MAX_GREP_HITS, MAX_GREP_LINE, MAX_LIST_ENTRIES, MAX_READ_CHARS,
};
use agent_tools::code::paths::{display_rel, requested, resolve, strip_verbatim, CanonPath};
use agent_tools::code::{
    is_workspace_tool, offered, CodeTool, CommandSlot, Workspace, WorkspaceCommands, CODE_TEST_ID,
    WORKSPACE_TOOL_IDS,
};
use agent_tools::i18n::{Lang, Locale};
use agent_tools::json::Json;
use agent_tools::outcome::ToolOutcome;
use agent_tools::present::{present, ArgDetail, ToolBlock};

fn en() -> Locale {
    Lang::En.locale()
}

fn parsed(text: &str) -> Json {
    Json::from_text(text).unwrap()
}

fn path(p: &str) -> CanonPath {
    CanonPath {
        anchor: "/".into(),
        parts: p.split('/').filter(|s| !s.is_empty()).map(str::to_string).collect(),
    }
}

fn file(text: &str) -> TextFile {
    TextFile::load(text.as_bytes()).unwrap()
}

fn read_of(text: &str, args: &str) -> Result<ToolOutcome, String> {
    let (offset, limit) = read_args(&parsed(args));
    read(&path("p/a.rs"), &path("p"), &file(text), offset, limit, &en())
}

/// A search over the given files, as the walk meets them.
fn search(files: &[(&str, &str)], args: &str) -> ToolOutcome {
    let g: GrepArgs = grep_args(&parsed(args), &en()).unwrap();
    let m = match start(&g, &en()) {
        Ok(m) => m,
        Err(answer) => return answer,
    };
    let mut s = Search::new();
    for (name, body) in files {
        let shown = display_rel(&path(&format!("p/{name}")), &path("p"));
        if s.add_file(&shown, body, &m) {
            break;
        }
    }
    grep(&s, &g, &en())
}

fn edited(text: &str, args: &str) -> Edit {
    let a = edit_args(&parsed(args), &en()).unwrap();
    edit(&file(text), &a, "a.rs", &en())
}

#[test]
fn read_numbers_lines_and_reports_total() {
    let out = read_of("one\ntwo\nthree\n", "{}").unwrap();
    assert!(out.result.contains("\u{2192}two"), "got: {}", out.result);
    assert!(out.result.contains('3'), "the total must be stated: {}", out.result);
    assert!(out.result.contains("     2\u{2192}two"));
}

#[test]
fn read_windows_a_long_file_and_says_where_to_continue() {
    let body: String = (1..=50).map(|i| format!("line {i}\n")).collect();
    let first = read_of(&body, r#"{"limit": 10}"#).unwrap();
    assert!(first.result.contains("\u{2192}line 10"), "{}", first.result);
    assert!(!first.result.contains("\u{2192}line 11"), "{}", first.result);
    assert!(first.result.contains("offset=11"), "{}", first.result);
    let second = read_of(&body, r#"{"offset": 11, "limit": 10}"#).unwrap();
    assert!(second.result.contains("    11\u{2192}line 11"), "{}", second.result);
    let past = read_of(&body, r#"{"offset": 51}"#).unwrap_err();
    assert_eq!(past, en().tf1("tool.code.err.bad_offset", "total", "50"));
}

#[test]
fn nothing_is_read_with_less_than_one() {
    assert_eq!(read_args(&parsed(r#"{"offset": 0, "limit": 0}"#)), (1, 1));
    assert_eq!(read_args(&parsed("{}")), (1, 400));
}

#[test]
fn grep_locates_matches_and_takes_a_regex() {
    let out = search(
        &[
            ("src/a.rs", "fn mean() {}\nfn median() {}\n"),
            ("src/b.rs", "// nothing here\n"),
        ],
        r#"{"pattern": "fn me(an|dian)"}"#,
    );
    assert!(out.result.contains("src/a.rs:1"), "got: {}", out.result);
    assert!(out.result.contains("src/a.rs:2"), "got: {}", out.result);
    assert!(!out.result.contains("b.rs"), "got: {}", out.result);
}

#[test]
fn grep_is_case_insensitive_until_the_pattern_has_a_capital() {
    let files = [("a.rs", "struct Widget;\n")];
    let lower = search(&files, r#"{"pattern": "widget"}"#);
    assert!(lower.result.contains("a.rs:1"), "got: {}", lower.result);
    let upper = search(&files, r#"{"pattern": "WIDGET"}"#);
    assert!(!upper.result.contains("a.rs:1"), "got: {}", upper.result);
}

#[test]
fn grep_names_a_broken_pattern() {
    let out = search(&[("a.rs", "x\n")], r#"{"pattern": "fn ("}"#);
    assert!(out.result.contains("fn ("), "got: {}", out.result);
}

#[test]
fn grep_filters_by_glob() {
    let args = |glob: &str| {
        let text = format!(r#"{{"pattern": "target", "glob": "{glob}"}}"#);
        grep_args(&parsed(&text), &en()).unwrap()
    };
    let f = filter(&args("**/*.rs"), "/p", &en()).unwrap().unwrap();
    assert!(f.over.matched("/p/src/a.rs", false).is_whitelist());
    assert!(f.over.matched("/p/notes.md", false).is_ignore());
    let answer = filter(&args("[a"), "/p", &en()).unwrap_err();
    assert!(answer.result.contains("[a"), "{}", answer.result);
    let none = grep_args(&parsed(r#"{"pattern": "x"}"#), &en()).unwrap();
    assert!(filter(&none, "/p", &en()).unwrap().is_none());
}

#[test]
fn an_empty_search_says_which_kind_of_empty_it_was() {
    let no_hits = search(&[("a.rs", "needle\n")], r#"{"pattern": "absent"}"#);
    let no_files = search(&[], r#"{"pattern": "needle", "glob": "**/*.py"}"#);
    assert_ne!(no_hits.result, no_files.result, "the two empties must be told apart");
    assert!(no_files.result.contains("*.py"), "{}", no_files.result);
}

#[test]
fn a_search_stops_when_it_is_full() {
    let body = "needle\n".repeat(MAX_GREP_HITS + 5);
    let out = search(&[("a.rs", &body), ("b.rs", "needle\n")], r#"{"pattern": "needle"}"#);
    assert!(out.result.contains("a.rs:100:"), "{}", out.result);
    assert!(!out.result.contains("a.rs:101:") && !out.result.contains("b.rs"));
    assert!(grep_args(&parsed("{}"), &en()).is_err());
}

#[test]
fn list_shows_the_tree_and_marks_directories() {
    let entry = |depth: usize, is_dir: bool, p: &str| Entry { depth, is_dir, path: path(p) };
    let walk = vec![
        entry(0, true, "p"),
        entry(1, true, "p/src"),
        entry(2, false, "p/src/a.rs"),
        entry(1, false, "p/README.md"),
    ];
    let out = list(&path("p"), &path("p"), &walk, &en());
    assert_eq!(out.result, ".: 3 entries\nREADME.md\nsrc/\nsrc/a.rs");
    let inner = vec![entry(0, true, "p/src"), entry(1, false, "p/src/a.rs")];
    let out = list(&path("p/src"), &path("p"), &inner, &en());
    assert_eq!(out.result, "src: 1 entries\nsrc/a.rs");
    let empty = list(&path("p/src"), &path("p"), &vec![], &en());
    assert_eq!(empty.result, en().tf1("tool.code.list.empty", "path", "src"));
    let many: Vec<Entry> =
        (0..MAX_LIST_ENTRIES + 1).map(|i| entry(1, false, &format!("p/f{i}"))).collect();
    let out = list(&path("p"), &path("p"), &many, &en());
    let max = MAX_LIST_ENTRIES.to_string();
    assert!(out.result.ends_with(&en().tf1("tool.code.list.truncated", "max", &max)));
}

#[test]
fn list_respects_depth() {
    assert_eq!(list_args(&parsed("{}")), (None, 2));
    assert_eq!(list_args(&parsed(r#"{"path": "src", "depth": 3}"#)), (Some("src".into()), 3));
    assert_eq!(list_args(&parsed(r#"{"depth": 0}"#)).1, 1);
    assert_eq!(list_args(&parsed(r#"{"depth": 99}"#)).1, 16);
}

#[test]
fn paths_outside_the_root_are_refused() {
    let root = path("home/p");
    let none: Vec<String> = vec![];
    let inside = resolve(&root, Some(path("home/p/a.rs")), &none, "/home/p", &en()).unwrap();
    assert_eq!(display_rel(&inside, &root), "a.rs");
    for outside in ["home/secrets.txt", "home", "home/px", ""] {
        let e = resolve(&root, Some(path(outside)), &none, "/home/p", &en()).unwrap_err();
        assert_eq!(e, en().tf1("tool.code.err.outside", "root", "/home/p"));
    }
    assert!(requested("  ", &en()).is_err());
    assert_eq!(requested(" a.rs ", &en()).unwrap(), "a.rs");
    assert_eq!(strip_verbatim(r"\\?\C:\x"), r"C:\x");
}

#[test]
fn a_missing_chain_cannot_be_used_to_escape() {
    let root = path("home/p");
    let tail = |parts: &[&str]| parts.iter().map(|s| s.to_string()).collect::<Vec<_>>();
    for dotted in [tail(&["escaped.rs", "..", "..", "new_dir"]), tail(&["..", "a"])] {
        let e = resolve(&root, Some(path("home/p")), &dotted, "/home/p", &en()).unwrap_err();
        assert_eq!(e, en().t("tool.code.err.path_required"));
    }
    let ok = resolve(
        &root,
        Some(path("home/p")),
        &tail(&["ok.rs", "nested", "deep"]),
        "/home/p",
        &en(),
    )
    .unwrap();
    assert_eq!(display_rel(&ok, &root), "deep/nested/ok.rs");
    assert!(resolve(&root, None, &vec![], "/home/p", &en()).is_err());
}

#[test]
fn without_a_workspace_every_tool_refuses() {
    let err = no_project(&en());
    assert!(err.contains("/project"), "got: {err}");
    let none = WorkspaceCommands { build: false, run: false, test: false };
    for id in WORKSPACE_TOOL_IDS {
        assert_eq!(offered(id, false, none), Some(false), "{id}");
    }
    assert_eq!(offered("code_read", true, none), Some(true));
    assert_eq!(offered("code_build", true, none), Some(false));
    assert_eq!(offered("fs_read", true, none), None);
}

#[test]
fn a_binary_file_is_refused_rather_than_mangled() {
    let e = read_text(3, &[0x00, 0x01, 0x02], &en()).unwrap_err();
    assert_eq!(e, en().t("tool.code.err.binary"));
    let e = read_text(MAX_FILE_BYTES + 1, b"x", &en()).unwrap_err();
    assert_eq!(e, en().tf1("tool.code.err.too_large", "max", "2048"));
    assert!(searchable(false, Some(1), Some(b"x".to_vec())).is_none());
    assert!(searchable(true, Some(MAX_FILE_BYTES + 1), Some(b"x".to_vec())).is_none());
    assert_eq!(searchable(true, Some(1), Some(b"x".to_vec())).unwrap().text, "x");
    assert!(path_arg(&parsed("{}"), &en()).is_err());
}

#[test]
fn crlf_and_bom_are_normalized_for_reading_and_restored_for_writing() {
    let mut bytes = vec![0xEF, 0xBB, 0xBF];
    bytes.extend_from_slice(b"let x = 1;\r\nlet y = 2;\r\n");
    let file = TextFile::load(&bytes).unwrap();
    assert_eq!(file.text, "let x = 1;\nlet y = 2;\n");
    assert!(file.crlf && file.bom);
    assert_eq!(file.encode(&file.text), bytes);
}

#[test]
fn bytes_that_are_no_text_are_replaced() {
    let file = TextFile::load(&[b'a', 0xFF, b'b']).unwrap();
    assert_eq!(file.text, "a\u{FFFD}b");
    assert!(!file.crlf && !file.bom);
}

#[test]
fn edit_replaces_a_unique_fragment() {
    let done = edited(
        "let x = 1;\nlet y = 2;\n",
        r#"{"old_string": "let y = 2;", "new_string": "let y = 3;"}"#,
    );
    match done {
        Edit::Apply { bytes, outcome } => {
            assert_eq!(bytes, b"let x = 1;\nlet y = 3;\n");
            assert!(outcome.result.contains("\u{2192}let y = 3;"), "got: {}", outcome.result);
        }
        Edit::Refused(o) => panic!("refused: {}", o.result),
    }
}

#[test]
fn edit_refuses_a_missing_or_ambiguous_fragment_without_writing() {
    let miss = match edited("dup\ndup\n", r#"{"old_string": "absent", "new_string": "x"}"#) {
        Edit::Refused(o) => o.result,
        Edit::Apply { .. } => panic!("nothing to apply"),
    };
    let ambiguous = match edited("dup\ndup\n", r#"{"old_string": "dup", "new_string": "x"}"#) {
        Edit::Refused(o) => o.result,
        Edit::Apply { .. } => panic!("which one?"),
    };
    assert_ne!(miss, ambiguous, "the two must be told apart");
    assert!(ambiguous.contains('2'), "the count is what makes it actionable: {ambiguous}");
    let all = edited(
        "dup\ndup\n",
        r#"{"old_string": "dup", "new_string": "x", "replace_all": true}"#,
    );
    assert!(matches!(all, Edit::Apply { bytes, .. } if bytes == b"x\nx\n"));
    assert!(edit_args(&parsed(r#"{"new_string": "x"}"#), &en()).is_err());
    assert!(edit_args(&parsed(r#"{"old_string": "", "new_string": "x"}"#), &en()).is_err());
}

#[test]
fn edit_preserves_crlf_and_bom() {
    let mut bytes = vec![0xEF, 0xBB, 0xBF];
    bytes.extend_from_slice(b"let x = 1;\r\nlet y = 2;\r\n");
    let a = edit_args(
        &parsed(r#"{"old_string": "let y = 2;", "new_string": "let y = 3;"}"#),
        &en(),
    )
    .unwrap();
    let mut want = vec![0xEF, 0xBB, 0xBF];
    want.extend_from_slice(b"let x = 1;\r\nlet y = 3;\r\n");
    match edit(&TextFile::load(&bytes).unwrap(), &a, "a.rs", &en()) {
        Edit::Apply { bytes, .. } => assert_eq!(bytes, want),
        Edit::Refused(o) => panic!("refused: {}", o.result),
    }
}

#[test]
fn without_a_journal_editing_refuses() {
    assert_eq!(journal_error(None, &en()), en().t("tool.code.err.no_journal"));
    assert_eq!(
        journal_error(Some("disk full"), &en()),
        en().tf1("tool.code.err.journal_failed", "err", "disk full")
    );
}

#[test]
fn write_keeps_an_existing_file_s_line_endings() {
    let (bytes, out) = agent_tools::code::change::write(&Some(b"old\r\n".to_vec()), "new\nlines\n", "a.rs", &en());
    assert_eq!(bytes, b"new\r\nlines\r\n");
    assert!(out.result.contains("a.rs"));
    let (bytes, out) = agent_tools::code::change::write(&None, "fn main() {}\n", "src/deep/new.rs", &en());
    assert_eq!(bytes, b"fn main() {}\n");
    assert!(out.result.contains("src/deep/new.rs"), "got: {}", out.result);
    assert!(write_args(&parsed("{}"), &en()).is_err());
}

#[test]
fn only_the_writing_tools_are_dangerous_and_none_spend_a_round() {
    assert!(CodeTool::Edit.danger() && CodeTool::Write.danger());
    assert!(!CodeTool::Read.danger() && !CodeTool::Grep.danger() && !CodeTool::List.danger());
    for exempt in [
        CodeTool::Edit.counts_toward_round_limit(),
        CodeTool::Write.counts_toward_round_limit(),
        CodeTool::Read.counts_toward_round_limit(),
        CodeTool::Grep.counts_toward_round_limit(),
        CodeTool::List.counts_toward_round_limit(),
    ] {
        assert!(!exempt, "the workspace family does not spend the budget");
    }
}

#[test]
fn the_family_list_matches_the_predicate() {
    for id in WORKSPACE_TOOL_IDS {
        assert!(is_workspace_tool(id), "{id}");
        assert_eq!(CodeTool::from_id(id).unwrap().id(), id);
    }
    assert!(!is_workspace_tool("fs_read"));
}

fn project(test: Option<&str>) -> Option<Workspace> {
    Some(Workspace {
        root: "/home/p".into(),
        build: None,
        run: None,
        test: test.map(str::to_string),
    })
}

#[test]
fn a_slot_with_no_line_names_the_command_that_fills_it() {
    for slot in [CommandSlot::Build, CommandSlot::Run, CommandSlot::Test] {
        let msg = command_line(&project(None), slot, &en()).unwrap_err();
        assert!(msg.contains(&format!("/project {}-cmd", slot.key())), "{slot:?}: {msg}");
    }
    assert_eq!(
        command_line(&project(Some("cargo test")), CommandSlot::Test, &en()).unwrap(),
        "cargo test"
    );
    assert_eq!(command_line(&None, CommandSlot::Test, &en()).unwrap_err(), no_project(&en()));
}

#[test]
fn a_pipeline_that_reached_the_tool_is_refused_by_name() {
    let line = "cargo build 2>&1 | tee log.txt";
    let words: Vec<String> = line.split(' ').map(str::to_string).collect();
    let msg = command_words(line, CommandSlot::Build, Some('|'), &words, &en()).unwrap_err();
    assert!(msg.contains('|'), "{msg}");
    assert!(msg.contains(line), "the line the user typed must be quoted back: {msg}");
    let plain: Vec<String> = vec!["cargo".into(), "build".into()];
    assert_eq!(
        command_words("cargo build", CommandSlot::Build, None, &plain, &en()).unwrap(),
        ("cargo".to_string(), vec!["build".to_string()])
    );
    assert!(command_words("", CommandSlot::Build, None, &vec![], &en()).is_err());
}

#[test]
fn a_command_reports_its_output_and_its_exit_code() {
    let out = run_outcome(
        "make test",
        Ended::Exited { success: false, code: Some(3) },
        "0.1",
        60,
        4000,
        "out\n",
        "err",
        &en(),
    )
    .result;
    assert!(out.contains("command:"), "{out}");
    assert!(out.contains("out"), "stdout is missing: {out}");
    assert!(out.contains("err"), "stderr is missing: {out}");
    assert!(out.contains('3'), "the exit code is missing: {out}");
    let console = present(CODE_TEST_ID, "{}", &out, ArgDetail::Compact);
    assert!(
        console.result.iter().any(|b| matches!(b, ToolBlock::Console(_))),
        "the result must render as a console: {console:?}"
    );
}

#[test]
fn a_timed_out_command_keeps_what_it_printed() {
    let out = run_outcome("make", Ended::TimedOut, "1.0", 1, 4000, "early\n", "", &en()).result;
    assert!(out.contains("early"), "partial output was discarded: {out}");
    assert!(out.contains(&en().tf1("tool.code.cmd.timed_out", "secs", "1")), "{out}");
    assert!(!out.contains("-1"), "a fabricated exit code for a killed command: {out}");
    let out = run_outcome("make", Ended::Cancelled, "1.0", 1, 4000, "early\n", "", &en()).result;
    assert!(out.contains(en().t("tool.code.cmd.cancelled")), "{out}");
}

#[test]
fn a_second_command_is_refused_while_one_runs() {
    assert_eq!(busy(&en()), en().t("tool.code.cmd.busy"));
    assert_eq!(command_timeout(0), 1);
    assert_eq!(command_timeout(90), 90);
}

#[test]
fn clipping_keeps_both_ends() {
    let body: String = (1..=200).map(|i| format!("line {i}\n")).collect();
    let clipped = clip(&body, 300, &en());
    assert!(clipped.contains("line 1\n"), "the head is gone: {clipped}");
    assert!(clipped.contains("line 200"), "the tail is gone: {clipped}");
    assert!(
        !clipped.contains("line 100\n"),
        "the middle should have gone instead: {clipped}"
    );
    assert_eq!(clip("short", 300, &en()), "short");
}

#[test]
fn ansi_escapes_are_stripped() {
    assert_eq!(strip_ansi("\u{1b}[31merror\u{1b}[0m: x"), "error: x");
    assert_eq!(strip_ansi("\u{1b}]0;title\u{7}ok"), "ok");
    assert_eq!(strip_ansi("plain"), "plain");
}

#[test]
fn ansi_stripping_covers_the_less_common_terminators() {
    assert_eq!(strip_ansi("\u{1b}]0;title\u{1b}\\ok"), "ok");
    assert_eq!(strip_ansi("a\u{1b}cb"), "ab");
    assert_eq!(strip_ansi("a\u{1b}[31"), "a");
    assert_eq!(strip_ansi("a\u{1b}]0;title"), "a");
    assert_eq!(strip_ansi("a\u{1b}"), "a");
}

#[test]
fn a_grep_hit_is_clipped_by_characters() {
    assert_eq!(clip_hit("short"), "short");
    let long = "п".repeat(MAX_GREP_LINE + 50);
    let clipped = clip_hit(&long);
    assert_eq!(clipped.chars().count(), MAX_GREP_LINE + 1, "the … is extra");
    assert!(clipped.ends_with('…'));
}

#[test]
fn every_project_tool_is_found_by_its_id_and_described() {
    for id in WORKSPACE_TOOL_IDS {
        let tool = CodeTool::from_id(id).expect("a project tool");
        assert_eq!(tool.id(), id);
        assert_eq!(tool.description_key(), format!("tool.{id}.desc"));
        assert_eq!(
            tool.gloss_key(),
            format!("prompt.workspace.tool.{}", id.trim_start_matches("code_"))
        );
        assert_ne!(en().t(tool.description_key()), tool.description_key());
    }
    assert!(CodeTool::from_id("fs_read").is_none());
}

#[test]
fn walking_by_the_named_offsets_shows_every_line_once() {
    let long = "x".repeat(50_000);
    let some = "y".repeat(15_000);
    let lines = [some.as_str(), &some, &some, &long, "short", &some, "end"];
    let body = lines.join("\n");
    let mut seen: Vec<String> = vec![];
    let mut offset = 1;
    loop {
        let args = format!(r#"{{"offset": {offset}, "limit": 5}}"#);
        let out = read_of(&body, &args).unwrap().result;
        let rows: Vec<&str> = out.lines().filter(|l| l.contains('\u{2192}')).collect();
        for row in &rows {
            let (number, line) = row.split_once('\u{2192}').unwrap();
            assert_eq!(number.trim().parse::<usize>().unwrap(), seen.len() + 1);
            seen.push(line.to_string());
        }
        assert_eq!(out.contains("40000"), rows.len() == 1 && offset == 4);
        let next = offset + rows.len();
        if next > lines.len() {
            break;
        }
        assert!(out.contains(&format!("offset={next}")));
        offset = next;
    }
    assert_eq!(seen[3], "x".repeat(MAX_READ_CHARS - "     4\u{2192}".chars().count()));
    seen[3] = long.clone();
    assert_eq!(seen, lines);
}

#[test]
fn a_line_over_the_ceiling_is_cut_and_said_to_be() {
    let out = read_of(&"x".repeat(50_000), "{}").unwrap().result;
    let (head, rest) = out.split_once('\n').unwrap();
    assert_eq!(head, "a.rs, lines 1-1 of 1");
    let (row, note) = rest.split_once('\n').unwrap();
    assert_eq!(row.chars().count(), MAX_READ_CHARS);
    assert_eq!(note, "Line 1 is longer than 40000 characters: only its beginning is shown.\n");
    let just = MAX_READ_CHARS - "     1\u{2192}\n".chars().count();
    let out = read_of(&"x".repeat(just), "{}").unwrap().result;
    assert!(out.contains(&"x".repeat(just)) && !out.contains("40000"));
}

#[test]
fn writing_outside_the_root_is_refused() {
    let args = parsed(r#"{"path": "../escaped.rs", "content": "x"}"#);
    assert_eq!(path_arg(&args, &en()).unwrap(), "../escaped.rs");
    assert_eq!(write_args(&args, &en()).unwrap(), "x");
    let root = path("home/p");
    let existing = Some(path("home"));
    assert!(resolve(&root, existing, &vec!["escaped.rs".into()], "/home/p", &en()).is_err());
}

#[test]
fn what_a_command_prints_need_not_be_text() {
    let ended = Ended::Exited { success: true, code: Some(0) };
    let out = finished_outcome("make", ended, "0.1", 60, 4000, b"ok \xff\n", b"", &en());
    assert!(out.result.contains("ok \u{fffd}"), "{}", out.result);
    let same = run_outcome("make", ended, "0.1", 60, 4000, "ok \u{fffd}\n", "", &en());
    assert_eq!(out.result, same.result);
}
