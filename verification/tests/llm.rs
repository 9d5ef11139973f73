use agent_tools::i18n::{Lang, Locale};
use agent_tools::llm::{show_change, GetLlmHistory, GetLlmName, LlmChange};

fn ru() -> Locale {
    Lang::Ru.locale()
}

#[test]
fn get_llm_name_reports_the_turn_snapshot() {
    let out = GetLlmName.outcome(&Some("gemma-4-31B".into()), "managed", &ru());
    assert!(out.result.contains("gemma-4-31B"), "{}", out.result);
    assert!(out.result.contains("managed"), "{}", out.result);
}

#[test]
fn get_llm_name_closes_the_door_when_the_engine_does_not_say() {
    let out = GetLlmName.outcome(&None, "external", &ru());
    assert_eq!(out.result, ru().tf1("tool.get_llm_name.unknown", "mode", "external"));
}

#[test]
fn get_llm_history_renders_records_oldest_first() {
    // 2026-01-01 and 2026-02-01, both at 12:00 UTC.
    let record = |changed_at: i64, model: &str, mode: &str| LlmChange {
        changed_at,
        model: model.into(),
        mode: mode.into(),
    };
    let records = vec![
        record(1_767_268_800, "gemma-4", "managed"),
        record(1_769_947_200, "qwen-3.6", "external"),
    ];
    let out = GetLlmHistory.outcome(&records, &None, "managed", &ru()).result;
    let gemma = out.find("2026-01-01 12:00 UTC — gemma-4 (managed)");
    let qwen = out.find("2026-02-01 12:00 UTC — qwen-3.6 (external)");
    assert!(gemma.is_some() && qwen.is_some(), "{out}");
    assert!(gemma < qwen, "history must render oldest first: {out}");
    let header = ru().tf1("tool.get_llm_history.header", "count", "2");
    assert!(out.starts_with(&header), "{out}");
}

#[test]
fn get_llm_history_empty_names_the_current_model_when_known() {
    let loc = ru();
    let out = GetLlmHistory.outcome(&vec![], &Some("gpt-5.2".into()), "openai", &loc);
    assert_eq!(
        out.result,
        format!(
            "{} {}",
            loc.t("tool.get_llm_history.empty"),
            loc.tf2("tool.get_llm_history.current", "name", "gpt-5.2", "mode", "openai")
        )
    );
    let out = GetLlmHistory.outcome(&vec![], &None, "openai", &loc);
    assert_eq!(out.result, loc.t("tool.get_llm_history.empty"));
}

#[test]
fn history_line_format_is_stable() {
    // 2026-08-29 09:05:00 UTC.
    assert_eq!(
        show_change("2026-08-29 09:05 UTC", "m", "grok"),
        "2026-08-29 09:05 UTC — m (grok)"
    );
    let records =
        vec![LlmChange { changed_at: 1_787_994_300, model: "m".into(), mode: "grok".into() }];
    let out = GetLlmHistory.outcome(&records, &None, "grok", &ru()).result;
    assert!(out.contains("2026-08-29 09:05 UTC — m (grok)"), "{out}");
}
