use agent_tools::i18n::{Lang, Locale};
use agent_tools::mcp::{
    catalog_hash, clip_result, mcp_tool_id, show_hex, tool_id_with, LabelPool, McpCallResult,
    McpTool, McpToolInfo,
};
use agent_tools::meta::{ToolGate, ToolGroup};
use agent_tools::outcome::ToolImage;
use agent_tools::registry::{Entry, ToolRegistry};
use agent_tools::schema::Parameters;

fn ru() -> Locale {
    Lang::Ru.locale()
}

fn info(name: &str, description: &str) -> McpToolInfo {
    McpToolInfo {
        name: name.into(),
        description: description.into(),
        input_schema: r#"{"type":"object"}"#.into(),
    }
}

#[test]
fn tool_id_sanitizes_and_keeps_short_names() {
    assert_eq!(mcp_tool_id("fs", "read_text_file"), "mcp__fs__read_text_file");
    assert_eq!(mcp_tool_id("srv", "a.b/c d"), "mcp__srv__a_b_c_d");
}

#[test]
fn tool_id_truncates_long_names_with_stable_hash_tail() {
    let long = "x".repeat(100);
    let id1 = mcp_tool_id("server-with-long-id", &long);
    assert_eq!(id1.len(), 64);
    let id2 = mcp_tool_id("server-with-long-id", &format!("{long}y"));
    assert_eq!(id1, mcp_tool_id("server-with-long-id", &long));
    assert_ne!(id1, id2);
    assert!(id1.starts_with("mcp__server-with-long-id__"));
}

#[test]
fn a_long_name_ends_with_its_hash() {
    let raw = "a".repeat(65);
    let id = tool_id_with(&raw, 0xFEDC_BA98_0000_00FF);
    assert_eq!(id, format!("{}_000000ff", "a".repeat(55)));
}

#[test]
fn clip_result_is_char_exact_and_localized() {
    assert_eq!(clip_result("привет", 10, &ru()), "привет");
    let clipped = clip_result(&"я".repeat(30), 5, &ru());
    assert!(clipped.starts_with("яяяяя"));
    assert!(clipped.contains("усеч"), "{clipped}");
    let en = clip_result(&"a".repeat(30), 5, &Lang::En.locale());
    assert!(en.contains("truncated"), "{en}");
}

#[test]
fn intern_dedups() {
    let mut pool = LabelPool::new();
    let a = pool.intern("read_file");
    let other = pool.intern("write_file");
    let b = pool.intern("read_file");
    assert_eq!(a, b);
    assert_ne!(a, other);
    assert_eq!(pool.labels.len(), 2);
}

#[test]
fn invoke_calls_server_and_clips_result() {
    let tool = McpTool::new("test", &info("echo", "Echo test tool"), 5, 20);
    assert_eq!(tool.id, "mcp__test__echo");
    let shown = tool.info();
    assert_eq!(shown.group, ToolGroup::Plugins);
    assert_eq!(shown.gate, Some(ToolGate::Mcp));
    assert!(!shown.enabled_by_default);
    let reply =
        McpCallResult { is_error: false, text: "0123456789".repeat(10), images: vec![] };
    let out = tool.outcome(reply, true, &ru());
    assert!(out.effects.is_empty());
    assert!(out.result.starts_with("01234567890123456789"));
    assert!(out.result.contains("усеч"), "{}", out.result);
}

fn screenshot(text: &str) -> McpCallResult {
    McpCallResult {
        is_error: false,
        text: text.into(),
        images: vec![ToolImage { mime: "image/png".into(), data: "QUJD".into() }],
    }
}

#[test]
fn the_switch_decides_whether_a_server_image_reaches_the_model() {
    let tool = McpTool::new("test", &info("screenshot", "Take a screenshot"), 5, 1000);
    let out = tool.outcome(screenshot("Screenshot taken."), true, &ru());
    assert_eq!(out.images.len(), 1);
    assert_eq!((out.images[0].mime.as_str(), out.images[0].data.as_str()), ("image/png", "QUJD"));
    assert_eq!(out.result, "Screenshot taken.");
    let out = tool.outcome(screenshot("Screenshot taken."), false, &ru());
    assert!(out.images.is_empty());
    assert!(out.result.starts_with("Screenshot taken."), "{}", out.result);
    let said = ru().tf1("tool.mcp.images_off", "n", "1");
    assert!(out.result.ends_with(&said), "{}", out.result);
}

#[test]
fn a_withheld_image_is_still_stated_when_the_text_is_truncated() {
    let tool = McpTool::new("test", &info("screenshot", "Take a screenshot"), 5, 4);
    let out = tool.outcome(screenshot("Screenshot taken."), false, &ru());
    assert!(out.result.contains(ru().t("tool.mcp.result_truncated")), "{}", out.result);
    let said = ru().tf1("tool.mcp.images_off", "n", "1");
    assert!(out.result.ends_with(&said), "{}", out.result);
}

#[test]
fn the_catalog_hash_knows_nothing_of_order() {
    let ab = catalog_hash(&vec![info("a", "one"), info("b", "two")]);
    assert_eq!(ab, catalog_hash(&vec![info("b", "two"), info("a", "one")]));
    assert_ne!(ab, catalog_hash(&vec![info("a", "one"), info("b", "three")]));
    assert_eq!(ab.len(), 64);
    assert_eq!(
        catalog_hash(&vec![]),
        "e3b0c44298fc1c149afbf4c8996fb92427ae41e4649b934ca495991b7852b855"
    );
    assert_eq!(show_hex(&vec![0, 0x1f, 0xff]), "001fff");
}

#[test]
fn a_plugin_is_registered_under_its_own_schema() {
    let tool = McpTool::new("test", &info("echo", "Echo test tool"), 5, 20);
    let mut reg = ToolRegistry::new();
    reg.register(Entry::plugin(&tool));
    let entry = reg.get("mcp__test__echo").unwrap();
    assert_eq!(entry.description(&ru()), "Echo test tool");
    assert_eq!(entry.danger, tool.danger());
    match entry.schema(&ru()).parameters {
        Parameters::Given(text) => assert_eq!(text, r#"{"type":"object"}"#),
        Parameters::Fields(_) => panic!("the server's own schema"),
    }
}

#[test]
fn a_zero_character_does_not_move_a_field_s_end() {
    let a = catalog_hash(&vec![info("a\0b", "c")]);
    let b = catalog_hash(&vec![info("a", "b\0c")]);
    assert_ne!(a, b);
    assert_ne!(catalog_hash(&vec![info("ab", "")]), catalog_hash(&vec![info("a", "b")]));
    let long = "d".repeat(300);
    assert_ne!(catalog_hash(&vec![info("a", &long)]), catalog_hash(&vec![info("a", &long[1..])]));
}
