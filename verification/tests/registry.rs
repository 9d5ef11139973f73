use agent_tools::chats::{CHAT_READ_ID, CHAT_SEARCH_ID};
use agent_tools::code::WorkspaceCommands;
use agent_tools::control::{
    control_permission_text, is_control_tool, REWRITE_CURRENT_ID, SEND_FOLLOWUP_ID,
};
use agent_tools::fetch::FETCH_URL_ID;
use agent_tools::fs::{FS_LIST_ID, FS_READ_ID, FS_WRITE_ID};
use agent_tools::i18n::{Lang, LANGS};
use agent_tools::introspection::{GET_SAMPLING_ID, SET_SAMPLING_ID};
use agent_tools::llm::{GET_LLM_HISTORY_ID, GET_LLM_NAME_ID};
use agent_tools::mcp::MCP_TOOL_PREFIX;
use agent_tools::meta::{group_titles, ToolGate, ToolGroup, GROUPS};
use agent_tools::notes::NOTE_REVISE_ID;
use agent_tools::registry::{
    all_tool_ids, default_tool_ids, effective_tool_ids, offered_tool_ids, standard_registry,
    tool_catalog, turn_tool_ids, unknown_tool, ChatState, Entry, Source, Switches, ToolConfig, ToolRegistry, Words,
    ADD_INSIGHT_ID, GET_SELF_MODEL_ID, PYTHON_EXEC_ID, REFLECT_ID, UPDATE_SELF_MODEL_ID,
    UPDATE_USER_MODEL_ID, WEB_SEARCH_ID, YOUTUBE_WATCH_ID,
};
use agent_tools::sampling::CloudProvider;
use agent_tools::schema::Parameters;

fn no_cyrillic(s: &str) -> bool {
    !s.chars().any(|c| ('\u{0400}'..='\u{04FF}').contains(&c))
}

fn echo(label: &str) -> Entry {
    Entry {
        id: "echo".into(),
        group: ToolGroup::Utils,
        label: label.into(),
        gate: None,
        enabled_by_default: true,
        danger: false,
        counts_toward_round_limit: true,
        concurrent: false,
        words: Words::Given("Возвращает аргумент text".into()),
        source: Source::Given(r#"{"type":"object"}"#.into()),
    }
}

#[test]
fn standard_registry_has_all_default_tools() {
    let reg = standard_registry(&ToolConfig::default());
    for id in all_tool_ids() {
        assert!(reg.get(&id).is_some(), "tool {id} not registered");
    }
    assert_eq!(
        reg.schemas_for(&all_tool_ids(), &Lang::Ru.locale()).len(),
        all_tool_ids().len()
    );
}

#[test]
fn all_tool_descriptions_localized_to_en() {
    let reg = standard_registry(&ToolConfig::default());
    let (ru, en) = (Lang::Ru.locale(), Lang::En.locale());
    for id in all_tool_ids() {
        let t = reg.get(&id).expect("tool in registry");
        let d_en = t.description(&en);
        assert!(no_cyrillic(&d_en), "{id}: Cyrillic in en description: {d_en}");
        assert_ne!(t.description(&ru), d_en, "{id}: description not localized");
    }
}

#[test]
fn note_tool_descriptions_are_localized() {
    let reg = standard_registry(&ToolConfig::default());
    let (ru, en) = (Lang::Ru.locale(), Lang::En.locale());
    for id in [
        "note_save",
        "note_recall",
        "note_revise",
        "note_supersede",
        "note_merge",
        "note_link",
        "note_neighbors",
        "consolidate_notes",
        "note_cite_source",
    ] {
        let t = reg.get(id).unwrap();
        let (r, e) = (t.description(&ru), t.description(&en));
        assert_ne!(r, e, "description not localized: {r}");
        assert!(no_cyrillic(&e), "Cyrillic in en description: {e}");
    }
}

#[test]
fn llm_descriptions_are_localized() {
    let reg = standard_registry(&ToolConfig::default());
    let (ru, en) = (Lang::Ru.locale(), Lang::En.locale());
    for id in [GET_LLM_NAME_ID, GET_LLM_HISTORY_ID] {
        let t = reg.get(id).unwrap();
        let (d_ru, d_en) = (t.description(&ru), t.description(&en));
        assert_ne!(d_ru, d_en, "{id} description is not localized");
        assert!(no_cyrillic(&d_en), "{id} en description contains Cyrillic");
    }
}

fn plain_in_every_language(ids: [&str; 2]) {
    let reg = standard_registry(&ToolConfig::default());
    for lang in LANGS {
        for id in ids {
            let desc = reg.get(id).unwrap().description(&lang.locale());
            assert!(!desc.contains('{') && !desc.contains('}'), "{lang:?}: {desc}");
            if lang == Lang::En {
                assert!(no_cyrillic(&desc), "Cyrillic leaked into the en description: {desc}");
            }
        }
    }
}

#[test]
fn chats_descriptions_are_localized() {
    plain_in_every_language(["chat_search", "chat_read"]);
}

#[test]
fn history_descriptions_are_localized() {
    plain_in_every_language(["history_read", "history_search"]);
}

#[test]
fn description_and_results_are_localized() {
    plain_in_every_language(["attachment_read", "attachment_search"]);
}

#[test]
fn note_revise_is_default_tool() {
    assert!(default_tool_ids().iter().any(|t| t == NOTE_REVISE_ID));
}

#[test]
fn control_tools_optional_not_in_defaults() {
    assert!(!default_tool_ids().iter().any(|t| t == SEND_FOLLOWUP_ID));
    assert!(!default_tool_ids().iter().any(|t| t == REWRITE_CURRENT_ID));
    assert!(all_tool_ids().iter().any(|t| t == SEND_FOLLOWUP_ID));
    assert!(all_tool_ids().iter().any(|t| t == REWRITE_CURRENT_ID));
}

#[test]
fn self_model_tools_optional_not_in_defaults() {
    for id in [
        GET_SELF_MODEL_ID,
        REFLECT_ID,
        UPDATE_SELF_MODEL_ID,
        UPDATE_USER_MODEL_ID,
        ADD_INSIGHT_ID,
    ] {
        assert!(!default_tool_ids().iter().any(|t| t == id), "{id} in defaults");
        assert!(all_tool_ids().iter().any(|t| t == id), "{id} not in catalog");
    }
    let eff = effective_tool_ids(&all_tool_ids(), false, false, false, false, None);
    assert!(eff.iter().any(|t| t == GET_SELF_MODEL_ID));
    assert!(eff.iter().any(|t| t == UPDATE_SELF_MODEL_ID));
}

#[test]
fn the_pair_is_optional_and_catalogued() {
    let all = all_tool_ids();
    let default = default_tool_ids();
    for id in [CHAT_SEARCH_ID, CHAT_READ_ID] {
        assert!(all.iter().any(|t| t == id), "{id} missing from the catalog");
        assert!(!default.iter().any(|t| t == id), "{id} must not be enabled by default");
    }
}

#[test]
fn llm_tools_are_in_catalog_and_defaults() {
    let all = all_tool_ids();
    let defaults = default_tool_ids();
    for id in [GET_LLM_NAME_ID, GET_LLM_HISTORY_ID] {
        assert!(all.iter().any(|t| t == id), "{id} missing from catalog");
        assert!(defaults.iter().any(|t| t == id), "{id} not in defaults");
    }
}

#[test]
fn effective_tool_ids_gates_external_tools() {
    let enabled = default_tool_ids();
    let eff = effective_tool_ids(&enabled, true, false, false, false, None);
    assert!(eff.iter().any(|t| t == WEB_SEARCH_ID));
    assert!(eff.iter().any(|t| t == FETCH_URL_ID));
    assert!(eff.iter().any(|t| t == YOUTUBE_WATCH_ID));
    assert!(!eff.iter().any(|t| t == PYTHON_EXEC_ID));
    assert!(!eff.iter().any(|t| t == FS_READ_ID));
    let eff = effective_tool_ids(&enabled, false, false, false, false, None);
    assert!(!eff.iter().any(|t| t == WEB_SEARCH_ID || t == FETCH_URL_ID));
    assert!(!eff.iter().any(|t| t == FS_READ_ID || t == FS_WRITE_ID || t == FS_LIST_ID));
    assert!(eff.iter().any(|t| t == "note_save"));
    assert!(eff.iter().any(|t| t == "calculate"));
    assert!(eff.iter().any(|t| t == "current_time"));
    let eff = effective_tool_ids(&enabled, false, false, true, false, None);
    assert!(eff.iter().any(|t| t == FS_READ_ID));
    assert!(eff.iter().any(|t| t == FS_WRITE_ID));
    assert!(eff.iter().any(|t| t == FS_LIST_ID));
}

#[test]
fn effective_tool_ids_keeps_sampling_tools_when_params_available() {
    let enabled = default_tool_ids();
    for provider in [
        None,
        Some(CloudProvider::OpenAi),
        Some(CloudProvider::Gemini),
        Some(CloudProvider::Claude),
    ] {
        let eff = effective_tool_ids(&enabled, false, false, false, false, provider);
        assert!(
            eff.iter().any(|t| t == GET_SAMPLING_ID),
            "get_sampling must be available for {provider:?}"
        );
        assert!(eff.iter().any(|t| t == SET_SAMPLING_ID));
    }
}

#[test]
fn effective_tool_ids_gates_mcp_tools_by_prefix() {
    let enabled: Vec<String> = vec!["note_save".into(), "mcp__fs__read_text_file".into()];
    let eff = effective_tool_ids(&enabled, false, false, false, false, None);
    assert!(!eff.iter().any(|t| t.starts_with(MCP_TOOL_PREFIX)));
    assert!(eff.iter().any(|t| t == "note_save"));
    let eff = effective_tool_ids(&enabled, false, false, false, true, None);
    assert!(eff.iter().any(|t| t == "mcp__fs__read_text_file"));
}

#[test]
fn the_background_switch_brings_the_background_dialogue() {
    let enabled: Vec<String> = vec!["start_dialogue".into(), "run_dialogue".into()];
    let off = Switches { web: false, python: false, fs: false, mcp: false, background: false };
    assert_eq!(offered_tool_ids(&enabled, off, None), vec!["run_dialogue"]);
    let on = Switches { background: true, ..off };
    assert_eq!(offered_tool_ids(&enabled, on, None), vec!["start_dialogue", "run_dialogue"]);
}

#[test]
fn schemas_for_filters_and_orders() {
    let mut reg = ToolRegistry::new();
    reg.register(echo("echo"));
    let schemas = reg.schemas_for(&vec!["echo".into(), "missing".into()], &Lang::Ru.locale());
    assert_eq!(schemas.len(), 1);
    assert_eq!(schemas[0].name, "echo");
    assert_eq!(schemas[0].description, "Возвращает аргумент text");
    assert!(reg.schemas_for(&vec![], &Lang::Ru.locale()).is_empty());
}

#[test]
fn registering_again_takes_the_place() {
    let mut reg = standard_registry(&ToolConfig::default());
    let before = reg.infos().len();
    reg.register(echo("first"));
    reg.register(echo("second"));
    assert_eq!(reg.infos().len(), before + 1);
    assert_eq!(reg.get("echo").unwrap().label, "second");
    assert_eq!(reg.get("note_save").unwrap().label, "save note");
    let ids: Vec<String> = reg.infos().into_iter().map(|i| i.id).collect();
    let mut sorted = ids.clone();
    sorted.sort();
    assert_eq!(ids, sorted);
}

#[test]
fn registry_unknown_tool_errors() {
    let reg = ToolRegistry::new();
    assert!(reg.get("nope").is_none());
    assert_eq!(unknown_tool("nope"), "unknown tool: nope");
}

#[test]
fn the_two_dialogues_share_their_fields() {
    let reg = standard_registry(&ToolConfig::default());
    let names = |id: &str| match reg.get(id).unwrap().schema(&Lang::En.locale()).parameters {
        Parameters::Fields(f) => f.into_iter().map(|p| (p.parent, p.name)).collect::<Vec<_>>(),
        Parameters::Given(_) => panic!("fields expected"),
    };
    assert_eq!(names("run_dialogue"), names("start_dialogue"));
    assert_eq!(names("run_dialogue").len(), 13);
    assert!(names("code_build").is_empty());
}

#[test]
fn every_tool_has_group_and_label() {
    let titles = group_titles();
    for info in tool_catalog() {
        assert!(!info.label.is_empty(), "no description for {}", info.id);
        assert!(titles.contains(&info.group.title()), "foreign group for {}", info.id);
    }
}

#[test]
fn ui_label_and_group_keys_exist_in_all_bundles() {
    for lang in LANGS {
        let loc = lang.locale();
        for info in tool_catalog() {
            let k = format!("ui.tool.label.{}", info.id);
            assert!(loc.has_key(&k), "{lang:?}: missing key {k}");
        }
        for g in GROUPS {
            assert!(loc.has_key(g.i18n_key()), "{lang:?}: missing {}", g.i18n_key());
        }
    }
}

#[test]
fn gated_tools_map_to_switches() {
    let catalog = tool_catalog();
    let gate = |id: &str| catalog.iter().find(|i| i.id == id).and_then(|i| i.gate);
    assert_eq!(gate("web_search"), Some(ToolGate::Web));
    assert_eq!(gate("fetch_url"), Some(ToolGate::Web));
    assert_eq!(gate("python_exec"), Some(ToolGate::Python));
    assert_eq!(gate("fs_write"), Some(ToolGate::Fs));
    assert_eq!(gate("note_save"), None);
}

#[test]
fn control_tool_names_recognized() {
    assert!(is_control_tool(SEND_FOLLOWUP_ID));
    assert!(is_control_tool(REWRITE_CURRENT_ID));
    assert!(!is_control_tool("note_save"));
}

#[test]
fn permission_text_per_tool() {
    let ru = Lang::Ru.locale();
    assert!(!control_permission_text(SEND_FOLLOWUP_ID, &ru).is_empty());
    assert!(!control_permission_text(REWRITE_CURRENT_ID, &ru).is_empty());
    assert!(control_permission_text("note_save", &ru).is_empty());
}

#[test]
fn a_text_without_a_key_is_the_key() {
    let en = Lang::En.locale();
    assert_eq!(en.t("no.such.key"), "no.such.key");
    assert!(!en.has_key("no.such.key"));
    assert_eq!(
        en.tf2("tool.code.list.header", "path", "src", "n", "3"),
        "src: 3 entries"
    );
}

#[test]
fn a_turn_offers_project_and_history_tools_only_with_their_matter() {
    let on = Switches { web: true, python: true, fs: true, mcp: true, background: true };
    let enabled: Vec<String> = ["code_read", "code_build", "calculate", "history_read"]
        .iter()
        .map(|s| s.to_string())
        .collect();
    let none = WorkspaceCommands { build: false, run: false, test: false };
    let bare = ChatState { attached: false, commands: none, folded: false };
    assert_eq!(turn_tool_ids(&enabled, on, None, bare), vec!["calculate"]);
    let project = ChatState { attached: true, ..bare };
    assert_eq!(turn_tool_ids(&enabled, on, None, project), vec!["code_read", "calculate"]);
    let all = ChatState {
        attached: true,
        commands: WorkspaceCommands { build: true, ..none },
        folded: true,
    };
    assert_eq!(turn_tool_ids(&enabled, on, None, all), enabled);
}

#[test]
fn switching_twice_and_in_parts_is_switching_once() {
    let on = Switches { web: false, python: true, fs: false, mcp: true, background: false };
    let ids = all_tool_ids();
    let once = offered_tool_ids(&ids, on, None);
    assert_eq!(offered_tool_ids(&once, on, None), once);
    let (a, b) = ids.split_at(20);
    let mut parts = offered_tool_ids(&a.to_vec(), on, None);
    parts.extend(offered_tool_ids(&b.to_vec(), on, None));
    assert_eq!(parts, once);
    let more = Switches { web: true, fs: true, background: true, ..on };
    assert_eq!(offered_tool_ids(&ids, more, None), ids);
}

#[test]
fn the_catalog_is_in_the_order_of_the_names() {
    let catalog = tool_catalog();
    let ids: Vec<String> = catalog.iter().map(|i| i.id.clone()).collect();
    assert!(ids.windows(2).all(|w| w[0] < w[1]));
    assert_eq!(ids, all_tool_ids());
    assert!(catalog.iter().all(|i| !i.label.is_empty() && i.description.is_none()));
    let defaults: Vec<String> =
        catalog.iter().filter(|i| i.enabled_by_default).map(|i| i.id.clone()).collect();
    assert_eq!(defaults, default_tool_ids());
    assert!(defaults.contains(&NOTE_REVISE_ID.to_string()));
    for id in [SEND_FOLLOWUP_ID, REWRITE_CURRENT_ID] {
        assert!(ids.contains(&id.to_string()) && !defaults.contains(&id.to_string()));
    }
}
