use agent_tools::dialogue::{
    loop_only, next_speaker_a, parse_verdicts, participant_view, verdict_tools, verdict_turn,
    ApiMessage, ApiRole, ApiToolCall, DialogueArgs, Message, MessageRole, Verdict, ViewText,
    DEFAULT_MAX_MESSAGES, DEFAULT_MODERATE_EVERY, MAX_MESSAGES_CAP,
};
use agent_tools::i18n::{Lang, Locale};
use agent_tools::json::Json;
use agent_tools::schema::Parameters;

fn en() -> Locale {
    Lang::En.locale()
}

fn parsed(text: &str) -> Json {
    Json::from_text(text).unwrap()
}

fn args(text: &str) -> DialogueArgs {
    DialogueArgs::parse(&parsed(text), &en()).unwrap()
}

fn call(name: &str, arguments: &str) -> ApiToolCall {
    ApiToolCall { id: "c1".into(), name: name.into(), arguments: arguments.into() }
}

fn line(by_a: bool, text: &str) -> Message {
    let role = if by_a { MessageRole::Assistant } else { MessageRole::User };
    Message { role, text: text.into() }
}

fn roles(v: &[ApiMessage]) -> Vec<ApiRole> {
    v.iter().map(|m| m.role).collect()
}

#[test]
fn args_parse_reads_the_full_shape() {
    let a = args(
        r#"{
            "a": { "name": "Mara", "system_message": "barista" },
            "b": { "name": "Jonas", "system_message": "customer" },
            "opening": { "speaker": "b", "text": "Wrong drink?" },
            "scene": "A café.",
            "direction": "Stop at the goodbye.",
            "max_messages": 10,
            "moderate_every": 3
        }"#,
    );
    assert_eq!(a.a.name.as_deref(), Some("Mara"));
    assert_eq!(a.b.system_message, "customer");
    assert!(!a.opening_by_a);
    assert_eq!(a.opening, "Wrong drink?");
    assert_eq!(a.scene.as_deref(), Some("A café."));
    assert_eq!(a.max_messages, 10);
    assert_eq!(a.moderate_every, 3);
}

#[test]
fn args_defaults_and_clamps() {
    let a = args(
        r#"{"a":{"system_message":"x"},"b":{"system_message":"y"},"opening":{"text":"hi"},
            "max_messages":1000,"moderate_every":0}"#,
    );
    assert!(a.opening_by_a, "speaker defaults to a");
    assert_eq!(a.max_messages, MAX_MESSAGES_CAP);
    assert_eq!(a.moderate_every, 1);
    assert_eq!(a.scene, None);
    let d = args(
        r#"{"a":{"system_message":"x"},"b":{"system_message":"y"},"opening":{"text":"hi"}}"#,
    );
    assert_eq!(d.max_messages, DEFAULT_MAX_MESSAGES);
    assert_eq!(d.moderate_every, DEFAULT_MODERATE_EVERY);
}

#[test]
fn args_reject_missing_personas_and_empty_opening() {
    assert!(DialogueArgs::parse(
        &parsed(r#"{"a":{"system_message":"x"},"opening":{"text":"hi"}}"#),
        &en()
    )
    .is_err());
    assert!(DialogueArgs::parse(
        &parsed(
            r#"{"a":{"system_message":"x"},"b":{"system_message":"y"},"opening":{"text":"  "}}"#
        ),
        &en()
    )
    .is_err());
}

#[test]
fn labels_fall_back_localized_and_title_joins_them() {
    let a = args(
        r#"{"a":{"system_message":"x"},"b":{"name":"Bob","system_message":"y"},
            "opening":{"text":"hi"}}"#,
    );
    assert_eq!(a.label(true, &en()), en().t("tool.run_dialogue.fallback_a"));
    assert_eq!(a.label(false, &en()), "Bob");
    assert!(a.initial_title(&en()).contains(" ↔ Bob"));
}

#[test]
fn views_alternate_strictly_from_either_side() {
    let transcript = vec![line(false, "b1"), line(true, "a1"), line(false, "b2")];
    let scene = ViewText { scene: Some("scene"), begins: "(b)", note_prefix: "Note:" };
    let (_, for_a) = participant_view(&transcript, true, "sys", &vec![], None, &scene);
    assert_eq!(roles(&for_a), vec![ApiRole::User, ApiRole::Assistant, ApiRole::User]);
    assert_eq!(for_a[0].content, "scene\n\nb1");
    let (_, for_b) = participant_view(&transcript, false, "sys", &vec![], None, &scene);
    assert_eq!(
        roles(&for_b),
        vec![ApiRole::User, ApiRole::Assistant, ApiRole::User, ApiRole::Assistant]
    );
    assert_eq!(for_b[0].content, "scene");
    assert_eq!(for_b[1].content, "b1");
}

#[test]
fn prologue_only_where_needed_without_a_scene() {
    let transcript = vec![line(false, "b1"), line(true, "a1")];
    let texts = ViewText { scene: None, begins: "(b)", note_prefix: "N:" };
    let (_, for_b) = participant_view(&transcript, false, "sys", &vec![], None, &texts);
    assert_eq!(roles(&for_b), vec![ApiRole::User, ApiRole::Assistant, ApiRole::User]);
    assert_eq!(for_b[0].content, "(b)");
    assert_eq!(for_b[1].content, "b1");
    let (_, for_a) = participant_view(&transcript, true, "sys", &vec![], None, &texts);
    assert_eq!(for_a[0].content, "b1", "no prologue when user-first already");
}

#[test]
fn system_entries_excluded_and_notes_appended() {
    let transcript = vec![
        line(false, "b1"),
        Message { role: MessageRole::System, text: "Director: wrap up".into() },
        line(true, "a1"),
    ];
    let notes = vec!["stay polite".to_string()];
    let (system, messages) = participant_view(
        &transcript,
        true,
        "sys",
        &notes,
        Some("one shot"),
        &ViewText { scene: None, begins: "(b)", note_prefix: "Director's note:" },
    );
    assert!(!messages.iter().any(|m| m.content.contains("wrap up")));
    let polite = system.find("stay polite").unwrap();
    let shot = system.find("one shot").unwrap();
    assert!(system.starts_with("sys"));
    assert!(polite < shot);
}

#[test]
fn next_speaker_alternates_and_skips_interventions() {
    let mut transcript = vec![line(false, "b1")];
    assert_eq!(next_speaker_a(&transcript), Some(true));
    transcript.push(Message { role: MessageRole::System, text: "note".into() });
    assert_eq!(next_speaker_a(&transcript), Some(true), "system has no turn");
    transcript.push(line(true, "a1"));
    assert_eq!(next_speaker_a(&transcript), Some(false));
    assert_eq!(next_speaker_a(&vec![]), None);
}

#[test]
fn verdicts_parse_in_order_and_count_unknowns() {
    let calls = vec![
        call("dialogue_note", r#"{"to":"a","text":"cut it"}"#),
        call("dialogue_continue", "{}"),
        call("made_up", "{}"),
    ];
    let (verdicts, unknown) = parse_verdicts(&calls);
    assert_eq!(unknown, 1);
    assert_eq!(
        verdicts,
        vec![
            Verdict::Note { to_a: true, to_b: false, text: "cut it".into() },
            Verdict::Continue,
        ]
    );
}

#[test]
fn stop_carries_reason_and_optional_summary() {
    let (v, _) =
        parse_verdicts(&vec![call("dialogue_stop", r#"{"reason":"done","summary":"  "}"#)]);
    assert_eq!(v, vec![Verdict::Stop { reason: "done".into(), summary: None }]);
    let (v, _) = parse_verdicts(&vec![call(
        "dialogue_stop",
        r#"{"reason":"done","summary":"they agreed"}"#,
    )]);
    assert!(matches!(&v[0], Verdict::Stop { summary: Some(s), .. } if s == "they agreed"));
}

#[test]
fn empty_note_and_rewrite_are_dropped() {
    let (v, unknown) = parse_verdicts(&vec![
        call("dialogue_note", r#"{"to":"both","text":" "}"#),
        call("dialogue_rewrite", r#"{"text":""}"#),
    ]);
    assert!(v.is_empty());
    assert_eq!(unknown, 0);
}

#[test]
fn verdict_tools_name_the_participants_in_the_note_schema() {
    let tools = verdict_tools(&en(), "Mara", "Jonas");
    assert_eq!(tools.len(), 5);
    let note = tools.iter().find(|t| t.name == "dialogue_note").unwrap();
    let fields = match &note.parameters {
        Parameters::Fields(f) => f,
        Parameters::Given(_) => panic!("the schema is made of fields"),
    };
    let to = fields.iter().find(|p| p.name == "to").unwrap();
    let desc = to.about.as_deref().unwrap();
    assert!(desc.contains("Mara") && desc.contains("Jonas"), "{desc}");
    assert!(fields.iter().all(|p| p.required));
}

#[test]
fn invoke_outside_the_loop_refuses_without_running() {
    let ok = r#"{"a":{"system_message":"x"},"b":{"system_message":"y"},"opening":{"text":"hi"}}"#;
    let out = loop_only(&parsed(ok), &en()).unwrap();
    assert_eq!(out.result, en().t("tool.run_dialogue.result.loop_only"));
    assert!(out.effects.is_empty());
    assert!(loop_only(&parsed(r#"{"opening":{"text":"hi"}}"#), &en()).is_err());
}

#[test]
fn verdict_turn_renders_the_calls_as_the_directors_own_words() {
    assert_eq!(
        verdict_turn("", &vec![call("dialogue_continue", "{}")]),
        "dialogue_continue()"
    );
    assert_eq!(
        verdict_turn(
            "",
            &vec![
                call("dialogue_note", r#"{"to":"a","text":"wrap up"}"#),
                call("dialogue_continue", "{}"),
            ]
        ),
        "dialogue_note({\"to\":\"a\",\"text\":\"wrap up\"})\ndialogue_continue()"
    );
    assert_eq!(
        verdict_turn("Nearly there. ", &vec![call("dialogue_continue", "{}")]),
        "Nearly there.\ndialogue_continue()"
    );
    assert_eq!(verdict_turn("dialogue_continue", &vec![]), "dialogue_continue");
    assert_eq!(verdict_turn("  ", &vec![]), "");
}
