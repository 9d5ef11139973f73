use agent_tools::console::{format_console, parse_console, Console};
use agent_tools::i18n::Lang;
use agent_tools::present;
use agent_tools::present::{
    present_with, AddedLanguage, ArgDetail, ToolBlock, ToolPresentation, FIELD_ORDER,
    HEADER_MAX_CHARS,
};
use agent_tools::registry::{standard_registry, ToolConfig};
use agent_tools::schema::Parameters;

fn compact(name: &str, arguments: &str, result: &str) -> ToolPresentation {
    present::present(name, arguments, result, ArgDetail::Compact)
}

fn full(name: &str, arguments: &str, result: &str) -> ToolPresentation {
    present::present(name, arguments, result, ArgDetail::Full)
}

fn arg_text(p: &ToolPresentation) -> String {
    p.args
        .iter()
        .map(|b| match b {
            ToolBlock::Code { text, .. } | ToolBlock::Plain(text) | ToolBlock::Markdown(text) => {
                text.clone()
            }
            ToolBlock::Console(_) => String::new(),
        })
        .collect::<Vec<_>>()
        .join("\n")
}

fn plain(s: &str) -> ToolBlock {
    ToolBlock::Plain(s.to_string())
}

#[test]
fn full_detail_puts_the_name_alone_in_the_header_and_lists_the_arguments() {
    let args = r#"{"url":"http://x/y","summarize":true}"#;
    let c = compact("fetch_url", args, "ok");
    assert_eq!(
        c.header_suffix.as_deref(),
        Some("url=http://x/y, summarize=true"),
        "collapsed folds them into the header"
    );
    assert!(c.args.is_empty());
    let f = full("fetch_url", args, "ok");
    assert_eq!(f.header_suffix, None, "the name alone");
    assert_eq!(
        arg_text(&f),
        "url: http://x/y\nsummarize: true",
        "one line per argument, in the tool's own field order"
    );
}

#[test]
fn full_detail_shows_a_value_the_header_would_truncate() {
    let url = "http://example.org/a/fairly/long/path/that/still/fits/on/its/own";
    let focus = "memory management modes and their pitfalls";
    let args = format!(r#"{{"url":"{url}","focus":"{focus}","summarize":true}}"#);
    assert!(
        compact("fetch_url", &args, "").header_suffix.unwrap().ends_with('…'),
        "the premise: this one truncates"
    );
    let text = arg_text(&full("fetch_url", &args, ""));
    assert!(text.contains(&format!("url: {url}")), "whole: {text}");
    assert!(text.contains(&format!("focus: {focus}")), "whole: {text}");
}

#[test]
fn full_detail_shows_arguments_the_header_cannot_carry() {
    let args = r#"{"temperature":0.8,"samplers":["top_k","min_p"],"nested":{"a":1}}"#;
    let c = compact("set_sampling", args, "ok");
    assert_eq!(c.header_suffix.as_deref(), Some("0.8"));
    assert!(c.args.is_empty());
    let f = full("set_sampling", args, "ok");
    assert_eq!(f.header_suffix, None);
    let text = arg_text(&f);
    assert!(text.contains(r#"samplers: ["top_k","min_p"]"#), "{text}");
    assert!(text.contains(r#"nested: {"a":1}"#), "{text}");
    assert!(text.contains("temperature: 0.8"), "{text}");
}

#[test]
fn full_detail_labels_a_code_argument_and_keeps_its_highlighting() {
    let f = full("python_exec", r#"{"code":"print(1)","timeout":30}"#, "");
    assert_eq!(
        f.args,
        vec![
            plain("code:"),
            ToolBlock::Code { lang: "python".into(), text: "print(1)".into() },
            plain("timeout: 30"),
        ]
    );
}

#[test]
fn full_detail_labels_a_large_string_argument() {
    let long = "текст ".repeat(40);
    let args = format!(r#"{{"content":"{long}","tags":"a"}}"#);
    let f = full("note_save", &args, "");
    assert_eq!(f.args, vec![plain("content:"), plain(&long), plain("tags: a")]);
}

#[test]
fn full_detail_covers_arguments_that_are_not_a_json_object() {
    let long = "x".repeat(HEADER_MAX_CHARS + 40);
    assert!(compact("t", &long, "").args.is_empty());
    let f = full("t", &long, "");
    assert_eq!(f.header_suffix, None);
    assert_eq!(arg_text(&f), long, "the raw arguments, whole");
    assert!(full("t", "", "").args.is_empty());
}

#[test]
fn full_detail_shows_an_empty_value_as_json() {
    let f = full("t", r#"{"focus":"","n":1}"#, "");
    assert_eq!(arg_text(&f), "focus: \"\"\nn: 1");
}

#[test]
fn python_shows_code_block_and_console() {
    let p = compact("python_exec", r#"{"code":"print(1)\nx = 2"}"#, "stdout:\nhello\nworld");
    assert_eq!(p.header_suffix, None, "the code goes into a block, the header is empty");
    assert_eq!(
        p.args,
        vec![ToolBlock::Code { lang: "python".into(), text: "print(1)\nx = 2".into() }]
    );
    assert_eq!(
        p.result,
        vec![ToolBlock::Console(Console {
            command: String::new(),
            stdout: "hello\nworld".into(),
            stderr: String::new(),
            exit: None,
            files: String::new(),
        })]
    );
}

#[test]
fn python_console_parses_all_sections() {
    let out = "stdout:\nok line\n\nstderr:\nTraceback\n\nкод возврата: 1";
    let c = parse_console(out).unwrap();
    assert_eq!(c.stdout, "ok line");
    assert_eq!(c.stderr, "Traceback");
    assert_eq!(c.exit, Some(1));
}

#[test]
fn python_non_console_result_is_plain() {
    let p = compact("python_exec", r#"{"code":"pass"}"#, "(пустой вывод, успех)");
    assert_eq!(p.result, vec![plain("(пустой вывод, успех)")]);
    assert!(parse_console("Не удалось запустить Python (python): нет").is_none());
}

#[test]
fn python_console_parses_localized_exit_label() {
    let en = Lang::En.locale();
    let out = format!("stdout:\nok\n\n{} 1", en.t("python.console.exit"));
    let c = parse_console(&out).unwrap();
    assert_eq!(c.stdout, "ok");
    assert_eq!(c.exit, Some(1));
}

#[test]
fn python_console_preserves_blank_lines_inside_stdout() {
    let out = "stdout:\na\n\nb\n\nстрока";
    let c = parse_console(out).unwrap();
    assert_eq!(c.stdout, "a\n\nb\n\nстрока");
}

#[test]
fn python_console_keeps_the_files_section() {
    let out = "stdout:\nok\n\nкод возврата: 3\n\nfiles:\nSaved to this chat's files, in /d:\n\
               - totals.csv — 9 B, text/csv\n  | stdout:\n- a.png — 1 B, image/png — shown";
    let c = parse_console(out).unwrap();
    assert_eq!(c.stdout, "ok");
    assert_eq!(c.exit, Some(3));
    assert_eq!(
        c.files,
        "Saved to this chat's files, in /d:\n- totals.csv — 9 B, text/csv\n  | stdout:\n\
         - a.png — 1 B, image/png — shown"
    );
    let only = parse_console("files:\n- a.txt — 2 B, text/plain").unwrap();
    assert_eq!(only.files, "- a.txt — 2 B, text/plain");
    assert!(only.stdout.is_empty() && only.exit.is_none());
}

#[test]
fn a_written_console_reads_back() {
    for lang in [Lang::Ru, Lang::En] {
        let loc = lang.locale();
        let text = format_console(Some("make"), "built", "one warning", false, Some(-2), &loc);
        let c = parse_console(&text).unwrap();
        assert_eq!(c.stdout, "built");
        assert_eq!(c.stderr, "one warning");
        assert_eq!(c.exit, Some(-2));
        assert_eq!(c.command, "make");
    }
}

#[test]
fn fs_write_content_is_code_by_extension() {
    let p = compact(
        "fs_write",
        r#"{"path":"src/main.rs","content":"fn main() {}"}"#,
        "Записано в src/main.rs (12 символов).",
    );
    assert_eq!(p.header_suffix.as_deref(), Some("src/main.rs"));
    assert_eq!(
        p.args,
        vec![ToolBlock::Code { lang: "rs".into(), text: "fn main() {}".into() }]
    );
    assert_eq!(p.result, vec![plain("Записано в src/main.rs (12 символов).")]);
}

#[test]
fn fs_read_result_is_highlighted_by_path() {
    let p = compact("fs_read", r#"{"path":"a.py"}"#, "print('hi')");
    assert_eq!(p.header_suffix.as_deref(), Some("a.py"));
    assert!(p.args.is_empty());
    assert_eq!(
        p.result,
        vec![ToolBlock::Code { lang: "py".into(), text: "print('hi')".into() }]
    );
}

#[test]
fn fs_read_error_stays_plain() {
    let p = compact("fs_read", r#"{"path":"a.py"}"#, "Не удалось прочитать a.py: нет");
    assert!(matches!(p.result.as_slice(), [ToolBlock::Plain(_)]));
}

#[test]
fn fs_read_error_stays_plain_for_localized_prefix() {
    let en = Lang::En.locale();
    let msg = en.tf2("tool.fs_read.result.read_failed", "path", "a.py", "err", "not found");
    let p = compact("fs_read", r#"{"path":"a.py"}"#, &msg);
    assert!(matches!(p.result.as_slice(), [ToolBlock::Plain(_)]));
}

#[test]
fn single_scalar_arg_becomes_header_value() {
    let p = compact("web_search", r#"{"query":"погода в Москве"}"#, "результаты");
    assert_eq!(p.header_suffix.as_deref(), Some("погода в Москве"));
    assert!(p.args.is_empty());
    assert_eq!(p.result, vec![ToolBlock::Markdown("результаты".into())]);
}

#[test]
fn file_fragment_results_are_not_parsed_as_markdown() {
    for tool in ["rag_search", "attachment_search"] {
        let p = compact(tool, r#"{"query":"x"}"#, "1. [notes.md]\n## Раздел\nтекст");
        assert!(
            matches!(p.result.as_slice(), [ToolBlock::Plain(_)]),
            "{tool} must render its fragments verbatim, got {:?}",
            p.result
        );
    }
    for tool in ["web_search", "fetch_url", "note_recall"] {
        let p = compact(tool, r#"{"query":"x"}"#, "**итог**");
        assert!(
            matches!(p.result.as_slice(), [ToolBlock::Markdown(_)]),
            "{tool} should stay markdown, got {:?}",
            p.result
        );
    }
}

#[test]
fn multi_scalar_args_become_key_value_header() {
    let p = compact(
        "note_link",
        r#"{"from_id":"a","to_id":"b","relation":"supports"}"#,
        "Связь создана",
    );
    assert_eq!(
        p.header_suffix.as_deref(),
        Some("from_id=a, to_id=b, relation=supports")
    );
    assert_eq!(p.result, vec![plain("Связь создана")]);
}

#[test]
fn big_text_field_goes_to_block_short_fields_to_header() {
    let long = "слово ".repeat(40);
    let args = format!(r#"{{"content":"{long}","tags":"заметки"}}"#);
    let p = compact("note_save", &args, "Заметка сохранена");
    assert_eq!(p.header_suffix.as_deref(), Some("заметки"));
    assert_eq!(p.args, vec![plain(&long)]);
}

#[test]
fn invalid_json_args_fall_back_to_inline() {
    let p = compact("whatever", "не json", "результат");
    assert_eq!(p.header_suffix.as_deref(), Some("не json"));
    assert!(p.args.is_empty());
    assert_eq!(p.result, vec![plain("результат")]);
}

#[test]
fn empty_args_and_result_give_bare_name() {
    let p = compact("current_time", "{}", "");
    assert_eq!(p.header_suffix, None);
    assert!(p.args.is_empty());
    assert!(p.result.is_empty());
}

#[test]
fn long_header_value_is_truncated() {
    let raw = "a".repeat(HEADER_MAX_CHARS + 50);
    let p = compact("whatever", &raw, "");
    let h = p.header_suffix.unwrap();
    assert!(h.ends_with('…'));
    assert_eq!(h.chars().count(), HEADER_MAX_CHARS + 1);
}

#[test]
fn long_single_line_arg_becomes_block_not_truncated() {
    let long = "a".repeat(HEADER_MAX_CHARS + 50);
    let args = format!(r#"{{"content":"{long}"}}"#);
    let p = compact("note_save", &args, "ок");
    assert_eq!(p.header_suffix, None);
    assert_eq!(p.args, vec![plain(&long)]);
}

#[test]
fn field_order_follows_the_tools_own_schema() {
    let args = format!(
        r#"{{"system_message":"{}","message":"{}"}}"#,
        "Ты рецензент. ".repeat(10),
        "Проверь этот вывод. ".repeat(10)
    );
    let f = full("call_subagent", &args, "");
    let labels: Vec<&str> = f
        .args
        .iter()
        .filter_map(|b| match b {
            ToolBlock::Plain(t) if t.ends_with(':') => Some(t.as_str()),
            _ => None,
        })
        .collect();
    assert_eq!(
        labels,
        vec!["system_message:", "message:"],
        "the schema's order, not the alphabetical one"
    );
}

#[test]
fn field_order_keeps_an_unlisted_argument() {
    let args = r#"{"replace_all":true,"new_string":"b","old_string":"a","path":"src/x.rs","dry_run":true}"#;
    let f = full("code_edit", args, "");
    assert_eq!(
        arg_text(&f),
        "path: src/x.rs\nold_string: a\nnew_string: b\nreplace_all: true\ndry_run: true"
    );
}

#[test]
fn unlisted_tool_keeps_the_alphabetical_order() {
    let f = full("mcp__server__whatever", r#"{"zeta":1,"alpha":2}"#, "");
    assert_eq!(arg_text(&f), "alpha: 2\nzeta: 1");
}

#[test]
fn field_order_matches_the_registry_schemas() {
    let reg = standard_registry(&ToolConfig::default());
    let loc = Lang::En.locale();
    let mut tools: Vec<&str> = FIELD_ORDER.iter().map(|(t, _)| *t).collect();
    tools.dedup();
    for tool in &tools {
        let entry = reg.get(tool).unwrap_or_else(|| panic!("{tool} not registered"));
        let schema = entry.schema(&loc);
        let props: Vec<String> = match schema.parameters {
            Parameters::Fields(f) => f.into_iter().map(|p| p.name).collect(),
            Parameters::Given(_) => panic!("{tool}: no properties in the schema"),
        };
        let fields: Vec<&str> =
            FIELD_ORDER.iter().filter(|(t, _)| t == tool).map(|(_, f)| *f).collect();
        for field in &fields {
            assert!(props.iter().any(|p| p == field), "{tool}: no such argument {field}");
        }
        assert_eq!(fields.len(), props.len(), "{tool}: {fields:?} against {props:?}");
    }
    let mut names = tools.clone();
    names.sort_unstable();
    names.dedup();
    assert_eq!(names.len(), tools.len(), "a tool listed twice");
}

#[test]
fn a_dot_in_a_folder_s_name_is_no_extension() {
    let shown = |path: &str| {
        let args = format!("{{\"path\":\"{path}\"}}");
        compact("fs_read", &args, "all:").result
    };
    let code = |lang: &str| vec![ToolBlock::Code { lang: lang.into(), text: "all:".into() }];
    assert_eq!(shown("conf.d/Makefile"), code(""));
    assert_eq!(shown("conf.d/a.RS"), code("rs"));
    assert_eq!(shown(r"conf.d\\Makefile"), code(""));
}

#[test]
fn results_in_an_added_language_are_recognized() {
    let added = vec![AddedLanguage {
        exit_label: "Exitcode:".into(),
        read_failed: "Kann {path} nicht lesen: {err}".into(),
    }];
    let out = "stdout:\nhallo\n\nExitcode: 3";
    let shown = present_with("python_exec", "{}", out, ArgDetail::Compact, &added);
    match &shown.result[0] {
        ToolBlock::Console(c) => assert_eq!((c.stdout.as_str(), c.exit), ("hallo", Some(3))),
        other => panic!("{other:?}"),
    }
    let failed = "Kann a.rs nicht lesen: nein";
    let shown = present_with("fs_read", r#"{"path":"a.rs"}"#, failed, ArgDetail::Compact, &added);
    assert_eq!(shown.result, vec![ToolBlock::Plain(failed.into())]);
    let unknown = present::present("fs_read", r#"{"path":"a.rs"}"#, failed, ArgDetail::Compact);
    assert!(matches!(unknown.result[0], ToolBlock::Code { .. }));
}

#[test]
fn a_number_is_shown_as_it_was_read_once() {
    let args = r#"{"x":31.2452701914394380}"#;
    let read: serde_json::Value = serde_json::from_str(args).unwrap();
    let once = read["x"].to_string();
    assert_eq!(compact("tool", args, "").header_suffix, Some(once.clone()));
    assert!(arg_text(&full("tool", args, "")).contains(&format!("x: {once}")));
}
