use agent_tools::context::{
    AppConfig, AttachmentSettings, NotesSettings, ToolContext, ToolParams, TurnInfo,
};
use agent_tools::i18n::{Lang, Locale};
use agent_tools::introspection::{
    field_schemas, humanize, GetLastUserMessageTime, GetSampling, GetSystemMessage, SetSampling,
    SetSystemMessage,
};
use agent_tools::json::Json;
use agent_tools::outcome::ChatEffect;
use agent_tools::sampling::{
    merge_sampling, takes, supported_sampling_fields, CloudProvider, FieldKind, SamplingConfig, FIELDS,
    SETTABLE_COUNT,
};
use agent_tools::schema::sampling_parameters;
use agent_tools::times::Moment;

fn ru() -> Locale {
    Lang::Ru.locale()
}

fn at(name: &str) -> usize {
    FIELDS.iter().position(|f| f.0 == name).unwrap_or_else(|| panic!("no field {name}"))
}

fn config(values: &[(&str, &str)]) -> SamplingConfig {
    let mut cfg = SamplingConfig::new();
    for (name, text) in values {
        cfg = cfg.with(at(name), Some(text.to_string()));
    }
    cfg
}

/// What `set_sampling` is asked for, read field by field.
fn patch(tool: &SetSampling, args: &str) -> (SamplingConfig, Vec<String>) {
    let json = Json::from_text(args).unwrap();
    let (kept, dropped) = tool.arguments(&json, args, &ru()).unwrap();
    (tool.patch(&kept, &ru()).unwrap(), dropped)
}

fn set_to(effect: &ChatEffect) -> &SamplingConfig {
    match effect {
        ChatEffect::SetSamplingOverride(s) => s,
        other => panic!("{other:?}"),
    }
}

#[test]
fn get_sampling_returns_effective() {
    let out = GetSampling::new(None).outcome(&config(&[("temperature", "0.7")]));
    let v = Json::from_text(&out.result).unwrap();
    assert!(matches!(v.get("temperature"), Some(Json::Num(n)) if n.text == "0.7"));
    assert!(out.effects.is_empty());
}

#[test]
fn set_sampling_merges_and_emits_effect() {
    let base = config(&[("temperature", "0.1"), ("max_tokens", "512")]);
    let tool = SetSampling::new(None);
    let (wanted, dropped) = patch(
        &tool,
        r#"{"temperature": 0.9, "reasoning_effort": "high", "min_p": 0.03,
            "dry_multiplier": 0.8, "dynatemp_range": 0.4,
            "samplers": ["penalties", "temperature"], "seed": -1}"#,
    );
    assert!(dropped.is_empty());
    let out = tool.outcome(&base, &wanted, &dropped, &ru());
    assert_eq!(out.effects.len(), 1);
    let s = set_to(&out.effects[0]);
    let value = |name: &str| s.value(at(name));
    assert_eq!(value("temperature").as_deref(), Some("0.9"));
    assert_eq!(value("max_tokens").as_deref(), Some("512"));
    assert_eq!(value("reasoning_effort").as_deref(), Some("\"high\""));
    assert_eq!(value("min_p").as_deref(), Some("0.03"));
    assert_eq!(value("dry_multiplier").as_deref(), Some("0.8"));
    assert_eq!(value("dynatemp_range").as_deref(), Some("0.4"));
    assert_eq!(value("samplers").as_deref(), Some(r#"["penalties","temperature"]"#));
    assert_eq!(value("seed").as_deref(), Some("-1"));
}

#[test]
fn get_sampling_cloud_hides_unsupported_fields() {
    let cfg = config(&[
        ("temperature", "0.7"),
        ("top_k", "40"),
        ("min_p", "0.05"),
        ("max_tokens", "256"),
    ]);
    let out = GetSampling::new(Some(CloudProvider::Gemini)).outcome(&cfg);
    let v = Json::from_text(&out.result).unwrap();
    assert!(v.get("temperature").is_some());
    assert!(v.get("max_tokens").is_some());
    assert!(v.get("top_k").is_some());
    assert!(v.get("min_p").is_none());
    let out = GetSampling::new(Some(CloudProvider::OpenAi)).outcome(&cfg);
    let v = Json::from_text(&out.result).unwrap();
    assert!(v.get("max_tokens").is_some());
    assert!(v.get("temperature").is_none());
    assert!(v.get("top_k").is_none());
}

#[test]
fn set_sampling_cloud_drops_unsupported_fields() {
    let tool = SetSampling::new(Some(CloudProvider::Claude));
    let (wanted, dropped) =
        patch(&tool, r#"{"max_tokens": 1024, "temperature": 0.9, "top_k": 40}"#);
    let out = tool.outcome(&SamplingConfig::new(), &wanted, &dropped, &ru());
    let s = set_to(&out.effects[0]);
    assert_eq!(s.value(at("max_tokens")).as_deref(), Some("1024"));
    assert_eq!(s.value(at("temperature")), None);
    assert_eq!(s.value(at("top_k")), None);
    assert!(out.result.contains("temperature"));
    assert!(out.result.contains("top_k"));
    assert!(!out.result.contains("dynatemp_range"));
    assert!(!out.result.contains("reasoning_budget"));
    assert!(out.result.contains("max_tokens"));
}

#[test]
fn set_sampling_schema_reflects_mode() {
    let local = sampling_parameters(None);
    assert_eq!(local.len(), SETTABLE_COUNT);
    assert!(local.iter().any(|p| p.name == "top_k"));
    let claude = sampling_parameters(Some(CloudProvider::Claude));
    let has = |name: &str| claude.iter().any(|p| p.name == name);
    assert!(has("max_tokens"));
    assert!(has("thinking"));
    assert!(has("reasoning_effort"));
    assert!(!has("top_k"));
}

#[test]
fn field_schemas_cover_all_settable_fields() {
    let names: Vec<&str> = field_schemas().into_iter().map(|(n, _)| n).collect();
    let settable: Vec<&str> = FIELDS[..SETTABLE_COUNT].iter().map(|f| f.0).collect();
    assert_eq!(names, settable);
    assert_eq!(supported_sampling_fields(None).len(), SETTABLE_COUNT);
}

#[test]
fn set_system_message_emits_effect() {
    let args = Json::from_text(r#"{"system_message": "новое"}"#).unwrap();
    let out = SetSystemMessage.outcome(&args, &ru()).unwrap();
    assert_eq!(out.effects.len(), 1);
    assert!(matches!(&out.effects[0], ChatEffect::SetSystemMessage(s) if s == "новое"));
    assert!(SetSystemMessage.outcome(&Json::from_text("{}").unwrap(), &ru()).is_err());
}

#[test]
fn get_system_message_returns_snapshot() {
    assert_eq!(GetSystemMessage.outcome("системное сообщение").result, "системное сообщение");
}

#[test]
fn last_user_message_time_handles_none_and_some() {
    let now = Moment { secs: 1_782_217_800, nanos: 0, offset: 0 };
    let none = GetLastUserMessageTime.outcome(None, now, &ru());
    assert!(none.result.contains("ещё не отправлял"), "{}", none.result);
    let before = Moment { secs: now.secs - 90, ..now };
    let some = GetLastUserMessageTime.outcome(Some(before), now, &ru());
    assert!(some.result.contains("Последнее сообщение"), "{}", some.result);
    assert!(some.result.contains(&humanize(90, &ru())), "{}", some.result);
    assert_ne!(humanize(90, &ru()), humanize(90 * 60, &ru()));
}

#[test]
fn a_null_sets_nothing() {
    let (cfg, dropped) =
        patch(&SetSampling::new(None), r#"{"top_k": null, "seed": 3, "no_such": 1}"#);
    assert_eq!(cfg.value(at("top_k")), None);
    assert_eq!(cfg.value(at("seed")).as_deref(), Some("3"));
    assert_eq!(dropped, vec!["no_such"]);
}

#[test]
fn the_later_value_wins_and_the_rest_stays() {
    let base = config(&[("temperature", "0.1"), ("seed", "7")]);
    let merged = merge_sampling(&base, &config(&[("temperature", "0.9")]));
    assert_eq!(merged.value(at("temperature")).as_deref(), Some("0.9"));
    assert_eq!(merged.value(at("seed")).as_deref(), Some("7"));
    assert_eq!(merged.value(at("top_k")), None);
}

#[test]
fn the_settings_reach_the_turn() {
    let attachments = AttachmentSettings { max_file_tokens: 6000, page_tokens: 1500 };
    let cfg = AppConfig {
        notes: NotesSettings { recall_includes_self: true },
        attachments,
        mcp_images: false,
    };
    let params = ToolParams::from_config(&cfg);
    assert!(params.recall_includes_self && !params.mcp_images);
    let turn = TurnInfo {
        profile_id: 7,
        chat_id: 8,
        system_message: "be brief".into(),
        effective_sampling: SamplingConfig::new(),
        last_user_message_at: None,
        attachments: Vec::new(),
        lang: Lang::En,
    };
    let seen = ToolContext::new(params, turn);
    assert_eq!((seen.profile_id, seen.chat_id), (7, 8));
    assert_eq!(seen.attachment_cfg, attachments);
    assert_eq!(seen.loc.lang, Lang::En);
    assert_eq!(seen.system_message, "be brief");
}

#[test]
fn a_value_that_does_not_fit_is_named() {
    let tool = SetSampling::new(None);
    let tried = |args: &str| {
        let (kept, _) = tool.arguments(&Json::from_text(args).unwrap(), args, &ru()).unwrap();
        tool.patch(&kept, &ru())
    };
    let said = |why: &str| ru().tf1("tool.set_sampling.err.bad_value", "e", why);
    assert_eq!(tried(r#"{"temperature": "warm"}"#).unwrap_err(), said("temperature: \"warm\""));
    assert_eq!(tried(r#"{"top_k": 1.5}"#).unwrap_err(), said("top_k: 1.5"));
    assert!(tried(r#"{"top_k": -1, "seed": null, "samplers": ["a", "b"]}"#).is_ok());
    assert!(tried(r#"{"samplers": ["a", 1]}"#).is_err());
    assert!(tried(r#"{"reasoning_effort": "low", "verbosity": "medium"}"#).is_ok());
    assert!(tried(r#"{"verbosity": "xhigh"}"#).is_err());
    assert!(takes(FieldKind::Flag, &Json::Bool(true)));
    assert!(!takes(FieldKind::Flag, &Json::Str("true".into())));
}
