use agent_tools::code::paths::CanonPath;
use agent_tools::fs::{
    arg_path, truncate_chars, DirEntry, FileRead, FsList, FsRead, FsRoot, FsWrite, RootState,
    Target, WriteArgs, MAX_LIST_ENTRIES, MAX_READ_CHARS,
};
use agent_tools::i18n::{Lang, Locale};
use agent_tools::json::Json;

fn ru() -> Locale {
    Lang::Ru.locale()
}

fn parsed(text: &str) -> Json {
    Json::from_text(text).unwrap()
}

fn path(p: &str) -> CanonPath {
    CanonPath {
        anchor: "/".into(),
        parts: p.split('/').filter(|s| !s.is_empty()).map(str::to_string).collect(),
    }
}

fn root() -> FsRoot {
    FsRoot::new(Some("/home/u".into()))
}

fn resolve(target: Target, app: &[&str]) -> Result<CanonPath, String> {
    let dirs: Vec<CanonPath> = app.iter().map(|p| path(p)).collect();
    root().resolve("/home/u", &RootState::Found(path("home/u")), target, &dirs, &ru())
}

#[test]
fn write_then_read_roundtrip() {
    let write = FsWrite::new(Some("/home/u".into()));
    let a = write.arguments(&parsed(r#"{"content": "привет"}"#), &ru()).unwrap();
    assert_eq!(a.content, "привет");
    assert!(!a.append && write.danger());
    let read = FileRead::Text { text: a.content, encoding: None };
    let out = FsRead::new(Some("/home/u".into())).outcome("note.txt", &read, &ru());
    assert_eq!(out.result, "привет");
}

#[test]
fn read_decodes_a_legacy_file_and_refuses_a_binary() {
    let tool = FsRead::new(Some("/home/u".into()));
    let prose = "Выручка за март составила сто двадцать тысяч, за апрель немного больше.";
    let read =
        FileRead::Text { text: prose.into(), encoding: Some("windows-1251".into()) };
    let out = tool.outcome("report.txt", &read, &ru()).result;
    assert!(out.contains(prose) && out.contains("windows-1251"), "{out}");
    let out = tool.outcome("blob.bin", &FileRead::Binary, &ru()).result;
    assert!(!out.contains('\0') && out.contains("blob.bin"), "{out}");
}

#[test]
fn append_adds_to_end() {
    let w = FsWrite::new(Some("/home/u".into()));
    let a: WriteArgs =
        w.arguments(&parsed(r#"{"content": "b", "append": true}"#), &ru()).unwrap();
    assert!(a.append);
    let out = w.outcome("log.txt", &a, &Ok(()), &ru());
    let want = ru().tf2("tool.fs_write.result.appended", "path", "log.txt", "n", "1");
    assert_eq!(out.result, want);
    assert!(w.arguments(&parsed("{}"), &ru()).is_err());
}

#[test]
fn list_shows_entries() {
    let entry = |name: &str, is_dir: bool| DirEntry { name: name.into(), is_dir };
    let tool = FsList::new(Some("/home/u".into()));
    let out = tool.outcome("d", &Ok(vec![entry("sub", true), entry("a.txt", false)]), &ru());
    assert!(out.result.contains("a.txt"), "got: {}", out.result);
    assert!(out.result.contains("sub/"), "got: {}", out.result);
    assert!(out.result.find("a.txt") < out.result.find("sub/"));
    let many: Vec<DirEntry> =
        (0..MAX_LIST_ENTRIES + 1).map(|i| entry(&format!("f{i}"), false)).collect();
    let out = tool.outcome("d", &Ok(many), &ru());
    assert!(out.result.ends_with(&ru().tf1("tool.fs_list.truncated", "max", "500")));
    let out = tool.outcome("d", &Ok(vec![]), &ru());
    assert_eq!(out.result, ru().tf1("tool.fs_list.result.empty", "path", "d"));
    let out = tool.outcome("d", &Err("gone".into()), &ru());
    assert!(out.result.contains("gone"));
}

#[test]
fn read_missing_file_reports_error_not_panic() {
    let out = FsRead::new(Some("/home/u".into())).outcome(
        "definitely-not-a-real-file-xyz.txt",
        &FileRead::Failed("not found".into()),
        &ru(),
    );
    assert!(out.result.contains("Не удалось прочитать"), "got: {}", out.result);
}

#[test]
fn sandbox_blocks_outside_paths() {
    let inside = resolve(Target::Exists(path("home/u/inside.txt")), &[]).unwrap();
    assert_eq!(inside.parts, vec!["home", "u", "inside.txt"]);
    for outside in ["etc/passwd", "home", "home/user"] {
        let e = resolve(Target::Exists(path(outside)), &[]).unwrap_err();
        assert_eq!(e, ru().tf1("tool.fs.err.outside_sandbox", "root", "/home/u"));
    }
}

#[test]
fn sandbox_allows_writing_new_file_inside() {
    let fresh = Target::Fresh { parent: path("home/u"), name: "new.txt".into() };
    assert_eq!(resolve(fresh, &[]).unwrap().parts, vec!["home", "u", "new.txt"]);
    let w = FsWrite::new(Some("/home/u".into()));
    let a = WriteArgs { content: "data".into(), append: false };
    let out = w.outcome("new.txt", &a, &Ok(()), &ru());
    assert!(out.result.contains("Записано"), "got: {}", out.result);
    let out = w.outcome("new.txt", &a, &Err("disk full".into()), &ru());
    assert!(out.result.contains("disk full"));
}

#[test]
fn rejects_empty_path() {
    assert!(arg_path(&parsed(r#"{"path": "  "}"#), &ru()).is_err());
    assert_eq!(
        root().requested("  ", &ru()).unwrap_err(),
        ru().t("tool.fs.err.empty_path")
    );
}

#[test]
fn an_empty_root_refuses_every_call() {
    let refusal = ru().t("tool.fs.err.no_root").to_string();
    for none in [None, Some("   ".to_string())] {
        assert_eq!(
            FsRoot::new(none).requested("/tmp/note.txt", &ru()).unwrap_err(),
            refusal
        );
    }
    assert_eq!(
        root().requested(" a.txt ", &ru()).unwrap(),
        ("a.txt".to_string(), "/home/u".to_string())
    );
}

#[test]
fn the_data_root_is_out_of_reach_even_inside_the_root() {
    let refusal = ru().t("tool.fs.err.app_dir");
    let app = ["home/u/data"];
    for p in ["home/u/data/settings.json", "home/u/data"] {
        assert_eq!(resolve(Target::Exists(path(p)), &app).unwrap_err(), refusal);
    }
    let fresh = Target::Fresh { parent: path("home/u/data"), name: "new.json".into() };
    assert_eq!(resolve(fresh, &app).unwrap_err(), refusal);
    assert!(resolve(Target::Exists(path("home/u/beside/ok.txt")), &app).is_ok());
}

#[test]
fn a_dangling_link_inside_the_root_is_not_written_through() {
    assert_eq!(
        resolve(Target::DanglingLink, &[]).unwrap_err(),
        ru().t("tool.fs.err.dangling_link")
    );
}

#[test]
fn every_other_refusal_has_its_text() {
    let loc = ru();
    assert_eq!(resolve(Target::NoParent, &[]).unwrap_err(), loc.t("tool.fs.err.no_parent"));
    assert_eq!(resolve(Target::NoFileName, &[]).unwrap_err(), loc.t("tool.fs.err.no_filename"));
    assert_eq!(
        resolve(Target::ParentUnavailable("/x".into()), &[]).unwrap_err(),
        loc.tf1("tool.fs.err.parent_unavailable", "path", "/x")
    );
    assert_eq!(
        root()
            .resolve("/home/u", &RootState::Unavailable, Target::NoParent, &vec![], &loc)
            .unwrap_err(),
        loc.tf1("tool.fs.err.sandbox_unavailable", "path", "/home/u")
    );
}

#[test]
fn a_long_text_is_cut_by_characters() {
    assert_eq!(truncate_chars("привет", 6, &ru()), "привет");
    let note = ru().tf1("tool.fs.truncated_read", "max", "3");
    assert_eq!(truncate_chars("привет", 3, &ru()), format!("при\n{note}"));
    let long = FileRead::Text { text: "я".repeat(MAX_READ_CHARS + 1), encoding: None };
    let out = FsRead::new(None).outcome("a", &long, &ru()).result;
    assert!(out.starts_with(&"я".repeat(MAX_READ_CHARS)) && !out.ends_with('я'));
}
