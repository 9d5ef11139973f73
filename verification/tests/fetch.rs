use agent_tools::attachment::Attachment;
use agent_tools::fetch::{
    body_to_text, collect, extract_rich, page_name, summarize_text, summary_result,
    summary_tokens, unique_name, url_segment, ChatChunk, FetchError, FetchUrl, PageText,
    Summarized, SummaryEnd, FETCH_URL_ID, SUMMARY_INPUT_CHARS, SUMMARY_MAX_TOKENS,
};
use agent_tools::i18n::{Lang, Locale};
use agent_tools::json::Json;
use agent_tools::outcome::{ChatEffect, Prefill};
use agent_tools::registry::{standard_registry, ToolConfig, YOUTUBE_WATCH_ID};
use agent_tools::sampling::{SamplingConfig, MAX_TOKENS, REASONING_BUDGET};

fn ru() -> Locale {
    Lang::Ru.locale()
}

fn attached(name: &str, source: &str) -> Attachment {
    let text = "x".to_string();
    Attachment { id: 1, name: name.into(), source: source.into(), text, cuts: vec![] }
}

fn big_page(title: Option<&str>) -> PageText {
    let body = "Абзац с содержательным текстом страницы. ".repeat(2000);
    PageText {
        text: format!("НАЧАЛО\n{body}\nКОНЕЦ"),
        truncated: false,
        title: title.map(str::to_string),
    }
}

fn said(text: &str, tokens: Option<u64>) -> Summarized {
    Summarized {
        text: text.into(),
        prefill: tokens.map(|tokens| Prefill { tokens, ms: 1000 }),
    }
}

#[test]
fn a_page_over_the_budget_is_attached_whole() {
    let page = big_page(Some("Управление памятью в V"));
    let url = "https://docs.vlang.io/x.html";
    assert!(!FetchUrl.fits(40_000, 4_000) && FetchUrl.fits(4_000, 4_000));
    let att = FetchUrl.attachment(url, &page, &vec![], false, &ru());
    assert!(att.text.contains(&page.text), "the extracted text was altered");
    let out = FetchUrl.attached_result(att, 17, false, &None, page.truncated, &ru());
    let [ChatEffect::AddAttachment(att)] = out.effects.as_slice() else {
        panic!("no attachment effect: {:?}", out.effects);
    };
    assert!(att.text.contains("НАЧАЛО") && att.text.contains("КОНЕЦ"));
    assert_eq!(att.name, "Управление памятью в V", "the page title names it");
    assert_eq!(att.source, url);
    assert!(!att.inline);
    assert!(att.text.contains(url), "no source in the header");
    assert!(out.result.contains("attachment_read"), "got: {}", out.result);
    assert!(out.result.contains("attachment_search"), "got: {}", out.result);
    assert!(out.result.contains("17"), "no page count: {}", out.result);
}

#[test]
fn a_titleless_page_is_named_by_its_url() {
    let att = FetchUrl.attachment("https://example.com/a", &big_page(None), &vec![], false, &ru());
    assert_eq!(att.name, "https://example.com/a");
}

#[test]
fn an_attached_page_is_still_summarized_from_its_head() {
    let page = big_page(None);
    let sent = FetchUrl.summary_input(&page, true);
    assert_eq!(sent.chars().count(), SUMMARY_INPUT_CHARS);
    assert!(page.text.starts_with(&sent));
    assert_eq!(FetchUrl.summary_input(&page, false), page.text);
    let att = FetchUrl.attachment("https://example.com", &page, &vec![], false, &ru());
    let summary = Some(said("краткое содержание", None));
    let out = FetchUrl.attached_result(att, 9, true, &summary, false, &ru());
    assert!(out.result.contains("краткое содержание"), "got: {}", out.result);
    assert!(out.result.contains("attachment_read"), "got: {}", out.result);
    assert_eq!(out.effects.len(), 1, "the page is attached as well as summarized");
}

#[test]
fn hitting_the_size_ceiling_is_announced() {
    let loc = ru();
    let marker = loc.t("tool.fetch_url.result.truncated");
    let att = FetchUrl.attachment("https://example.com", &big_page(None), &vec![], false, &loc);
    let out = FetchUrl.attached_result(att, 9, false, &None, true, &loc);
    assert!(out.result.contains(marker), "got: {}", out.result);
    let small = PageText { text: "короткий текст".into(), truncated: true, title: None };
    let inline = FetchUrl.inline_result("https://example.com", false, &None, &small, &loc);
    assert!(inline.result.contains(marker), "got: {}", inline.result);
}

#[test]
fn a_small_page_comes_back_in_the_result() {
    let page = PageText {
        text: "Небольшая страница целиком.".into(),
        truncated: false,
        title: Some("t".into()),
    };
    let out = FetchUrl.inline_result("https://example.com", false, &None, &page, &ru());
    assert!(out.result.contains("Небольшая страница целиком."), "got: {}", out.result);
    assert!(out.effects.is_empty());
    // A summary that could not be had leaves the text.
    let out = FetchUrl.inline_result("https://example.com", true, &None, &page, &ru());
    assert!(out.result.contains("Небольшая страница целиком."), "got: {}", out.result);
}

#[test]
fn the_attachment_is_named_by_h1_then_title() {
    let page = |head: &str, body: &str| {
        body_to_text(
            "text/html",
            &format!(
                "<html><head>{head}</head><body>{body}\
                 <p>Достаточно длинный абзац, чтобы пройти порог отсева фрагментов.</p>\
                 </body></html>"
            ),
        )
        .unwrap()
    };
    let out = page("<title>V Documentation</title>", "<h1>Memory management</h1>");
    assert_eq!(out.title.as_deref(), Some("Memory management"));
    assert!(!out.truncated);
    let out = page("<title>  Memory\n management  </title>", "");
    assert_eq!(out.title.as_deref(), Some("Memory management"));
    assert_eq!(page_name("<p>no name</p>"), None);
}

#[test]
fn a_name_already_taken_by_another_page_gets_the_url_segment() {
    let mine = "https://docs.example.io/memory-management.html";
    let other = attached("V Documentation", "https://docs.example.io/concurrency.html");
    assert_eq!(
        unique_name("V Documentation", mine, &vec![other]),
        "V Documentation — memory-management.html"
    );
    let same = attached("V Documentation", mine);
    assert_eq!(unique_name("V Documentation", mine, &vec![same]), "V Documentation");
    assert_eq!(unique_name("V Documentation", mine, &vec![]), "V Documentation");
}

#[test]
fn url_segment_falls_back_to_the_host() {
    assert_eq!(url_segment("https://a.io/x/y.html?q=1").as_deref(), Some("y.html"));
    assert_eq!(url_segment("https://a.io/").as_deref(), Some("a.io"));
    assert_eq!(url_segment("https://a.io").as_deref(), Some("a.io"));
}

#[test]
fn fetch_url_description_and_summary_system_localized() {
    let reg = standard_registry(&ToolConfig::default());
    let tool = reg.get(FETCH_URL_ID).unwrap();
    let (ru, en) = (Lang::Ru.locale(), Lang::En.locale());
    let no_cyr =
        |s: &str| !s.chars().any(|c| ('а'..='я').contains(&c) || ('А'..='Я').contains(&c));
    assert_ne!(tool.description(&ru), tool.description(&en));
    assert!(no_cyr(&tool.description(&en)));
    assert_ne!(
        ru.t("tool.fetch_url.summarize.system"),
        en.t("tool.fetch_url.summarize.system")
    );
    assert!(no_cyr(en.t("tool.fetch_url.summarize.system")));
}

#[test]
fn rejects_non_http_url() {
    let args = Json::from_text(r#"{"url": "ftp://x/y"}"#).unwrap();
    assert_eq!(
        FetchUrl.arguments(&args, &ru()).unwrap_err(),
        ru().t("tool.fetch_url.err.url_scheme")
    );
}

#[test]
fn rejects_empty_url() {
    let args = Json::from_text(r#"{"url": "  "}"#).unwrap();
    assert_eq!(
        FetchUrl.arguments(&args, &ru()).unwrap_err(),
        ru().t("tool.fetch_url.err.url_empty")
    );
}

#[test]
fn a_summary_is_asked_for_unless_told_otherwise() {
    let args = Json::from_text(r#"{"url": " https://a.io ", "focus": " price "}"#).unwrap();
    let a = FetchUrl.arguments(&args, &ru()).unwrap();
    assert_eq!(a.url, "https://a.io");
    assert_eq!(a.focus.as_deref(), Some("price"));
    assert!(a.summarize);
    let args = Json::from_text(r#"{"url": "http://a.io", "summarize": false}"#).unwrap();
    let a = FetchUrl.arguments(&args, &ru()).unwrap();
    assert!(!a.summarize && a.focus.is_none());
}

#[test]
fn summarize_builds_single_turn_request_with_focus() {
    let effective = SamplingConfig::new();
    let req = summarize_text(
        &effective,
        "https://example.com",
        &Some("какова цена?".into()),
        "Длинный текст страницы про цены и условия.",
        &ru(),
    );
    assert_eq!(req.system, ru().t("tool.fetch_url.summarize.system"));
    let cap: u64 = req.sampling.value(MAX_TOKENS).unwrap().parse().unwrap();
    assert!(cap <= SUMMARY_MAX_TOKENS);
    assert_eq!(req.sampling.value(REASONING_BUDGET).as_deref(), Some("0"));
    assert!(req.task.contains("какова цена"), "focus in the task: {}", req.task);
    assert!(req.task.contains("Длинный текст страницы"));
    let small = SamplingConfig::new().with(MAX_TOKENS, Some("100".into()));
    assert_eq!(summary_tokens(&small), 100);
    assert_eq!(summary_tokens(&effective), SUMMARY_MAX_TOKENS);

    let told = collect(&vec![
        ChatChunk::Text("краткое ".into()),
        ChatChunk::Other,
        ChatChunk::Text("содержание".into()),
        ChatChunk::Finished,
        ChatChunk::Text(" и ещё".into()),
    ]);
    assert_eq!(told.text, "краткое содержание");
    assert!(told.prefill.is_none(), "no usage chunk, no timing");
}

#[test]
fn a_summary_ends_in_one_of_four_ways() {
    let loc = ru();
    assert_eq!(summary_result(SummaryEnd::Done(said("ok", None)), &loc).unwrap().text, "ok");
    assert_eq!(
        summary_result(SummaryEnd::Cancelled, &loc).unwrap_err(),
        loc.t("tool.fetch_url.err.summary_cancelled")
    );
    assert_eq!(
        summary_result(SummaryEnd::TimedOut, &loc).unwrap_err(),
        loc.t("tool.fetch_url.err.summary_timeout")
    );
    assert_eq!(
        summary_result(SummaryEnd::Failed("engine down".into()), &loc).unwrap_err(),
        "engine down"
    );
}

#[test]
fn the_outcome_carries_the_summarys_sample() {
    let small = PageText { text: "A small page.".into(), truncated: false, title: None };
    let told = collect(&vec![
        ChatChunk::Text("summary".into()),
        ChatChunk::Usage {
            prompt_tokens: 50_000,
            prefill: Some(Prefill { tokens: 50_000, ms: 1000 }),
        },
        ChatChunk::Finished,
    ]);
    let some = Some(told);
    let inline = FetchUrl.inline_result("https://example.com", true, &some, &small, &ru());
    assert_eq!(inline.prefill.map(|p| p.tokens), Some(50_000));
    assert!(inline.result.contains("summary"), "{}", inline.result);
    let att = FetchUrl.attachment("https://example.com", &big_page(None), &vec![], false, &ru());
    let attached = FetchUrl.attached_result(att, 9, true, &some, false, &ru());
    assert_eq!(attached.prefill.map(|p| p.tokens), Some(50_000));
    assert_eq!(attached.effects.len(), 1, "the page attached as before");
    let plain = FetchUrl.inline_result("https://example.com", false, &None, &small, &ru());
    assert!(plain.prefill.is_none(), "no summary asked, nothing to report");
    let no_usage = Some(said("summary", None));
    let no_usage = FetchUrl.inline_result("https://example.com", true, &no_usage, &small, &ru());
    assert!(no_usage.prefill.is_none(), "a stream without a usage chunk");
}

#[test]
fn json_body_returned_as_is_not_extracted() {
    let body = r#"{"success":1,"query_summary":{"total_positive":200,"total_negative":30}}"#;
    let out = body_to_text("application/json; charset=utf-8", body).unwrap().text;
    assert!(out.contains("total_positive"), "got: {out}");
}

#[test]
fn json_shaped_body_returned_when_content_type_missing() {
    let out = body_to_text("", r#"  {"a":1}"#).unwrap().text;
    assert!(out.contains("\"a\":1"), "got: {out}");
}

#[test]
fn html_without_readable_text_yields_none() {
    assert!(body_to_text("text/html", "<html><script>var x=1;</script></html>").is_none());
}

#[test]
fn html_with_paragraph_is_extracted() {
    let out = body_to_text(
        "text/html; charset=utf-8",
        "<html><body><p>Реальный читаемый абзац страницы, достаточно длинный, \
         чтобы пройти порог отсева коротких фрагментов.</p></body></html>",
    )
    .unwrap()
    .text;
    assert!(out.contains("читаемый абзац"), "got: {out}");
}

#[test]
fn headings_and_code_are_marked() {
    let tagged = |t: &str, s: &str| (t.to_string(), s.to_string());
    let found = Some(vec![
        tagged("h2", "Control"),
        tagged("p", "Arena allocation is available"),
        tagged("pre", "fn free()"),
    ]);
    let out = extract_rich(&found, 1000);
    assert!(out.contains("## Control"), "{out}");
    assert!(out.contains("```\nfn free()\n```"), "{out}");
    assert!(out.contains("Arena allocation is available"), "{out}");
    assert_eq!(extract_rich(&None, 1000), "");
}

#[test]
fn every_failure_has_its_text() {
    let loc = ru();
    let url = "https://a.io";
    let all = vec![
        FetchError::AddressBlocked,
        FetchError::Request,
        FetchError::Status("404".into()),
        FetchError::Compressed("zstd".into()),
        FetchError::Read,
        FetchError::NoText,
    ];
    let texts: Vec<String> = all.iter().map(|e| e.text(url, &loc)).collect();
    for (i, t) in texts.iter().enumerate() {
        assert!(!t.is_empty() && !texts[..i].contains(t), "{t}");
        assert!(FetchUrl.failed(url, &all[i], &loc).result.contains(t.as_str()));
    }
    assert!(texts[2].contains("404"));
    assert!(FetchUrl.video_result("Title", &loc).result.contains(YOUTUBE_WATCH_ID));
}

#[test]
fn a_longer_name_is_free_of_other_pages() {
    let files = vec![attached("Guide", "https://a/one")];
    let name = unique_name("Guide", "https://a/two", &files);
    assert_eq!(name, "Guide — two");
    assert_eq!(unique_name("Guide", "https://a/one", &files), "Guide");
}

#[test]
fn a_page_gets_more_of_its_address_until_the_name_is_its_own() {
    let url = "http://h/c/i?p=2";
    let names = ["V", "v — I", "V — c/i", "V — h/c/i", "V — http://h/c/i?p=2"];
    let mut files = vec![];
    let wanted = [
        "V",
        "V — i",
        "V — c/i",
        "V — h/c/i",
        "V — http://h/c/i?p=2",
        "V — http://h/c/i?p=2 — http://h/c/i?p=2",
    ];
    for (i, name) in wanted.iter().enumerate() {
        assert_eq!(unique_name("V", url, &files), *name);
        files.push(attached(name, url));
        assert_eq!(unique_name("V", url, &files), *name, "fetched again");
        files.pop();
        if i < names.len() {
            files.push(attached(names[i], "http://h/other"));
        }
    }
    let taken = vec![attached("V", "http://h/other")];
    assert_eq!(unique_name("V", "https://", &taken), "V — https://");
}
