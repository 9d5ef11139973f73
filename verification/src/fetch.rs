//! `fetch_url`: a page from the web, whole or summed up.
//!
//! A page that fits the budget for attachments comes back in the result. A larger one
//! is attached to the chat whole, where it is read page by page and searched; the
//! result then sums up its beginning and says how to reach the rest. Nothing is cut
//! without saying so.

use vstd::prelude::*;
use crate::attachment::Attachment;
use crate::i18n::Locale;
use crate::json;
use crate::json::{Json, JsonView};
use crate::outcome::{ChatEffect, NewAttachment, Prefill, ToolOutcome};
use crate::sampling;
use crate::sampling::SamplingConfig;
use crate::text;

verus! {

broadcast use text::views_push;

pub const FETCH_URL_ID: &'static str = "fetch_url";

/// How many characters of a page are taken at most.
pub const MAX_EXTRACT_CHARS: usize = 400_000;

/// How many characters of a page are summed up where it is attached.
pub const SUMMARY_INPUT_CHARS: usize = 12_000;

/// How many characters of a page's name are kept.
pub const NAME_TITLE_CHARS: usize = 60;

/// How many tokens a summary may have.
pub const SUMMARY_MAX_TOKENS: u64 = 768;

/// `fetch_url`.
pub struct FetchUrl;

// ---------- what a page says ----------

/// The text of a page.
#[derive(Debug)]
pub struct PageText {
    pub text: String,
    /// The page has more than that.
    pub truncated: bool,
    /// The page's name, where it has one.
    pub title: Option<String>,
}

/// What a [`PageText`] holds.
#[verifier::ext_equal]
pub struct PageView {
    pub text: Seq<char>,
    pub truncated: bool,
    pub title: Option<Seq<char>>,
}

impl View for PageText {
    type V = PageView;

    open spec fn view(&self) -> PageView {
        PageView {
            text: self.text@,
            truncated: self.truncated,
            title: json::opt_str(self.title),
        }
    }
}

/// The elements of a page that a CSS selector picks, each by its tag and its text, as
/// the `scraper` crate reads the page; nothing where the selector is none.
pub uninterp spec fn selected(
    body: Seq<char>,
    query: Seq<char>,
) -> Option<Seq<(Seq<char>, Seq<char>)>>;

pub open spec fn opt_pairs(v: Option<Vec<(String, String)>>) -> Option<
    Seq<(Seq<char>, Seq<char>)>,
> {
    match v {
        Some(v) => Some(json::pair_views(v@)),
        None => None,
    }
}

/// `scraper::Html::parse_document`, `scraper::Selector::parse` and
/// `scraper::Html::select`, with the name of each element and its text nodes joined. The
/// result is a function of the page and the selector; of what it is on a given page
/// nothing is said.
#[verifier::external_body]
fn select_texts(body: &str, query: &str) -> (r: Option<Vec<(String, String)>>)
    ensures
        opt_pairs(r) == selected(body@, query@),
{
    let doc = scraper::Html::parse_document(body);
    let picked = scraper::Selector::parse(query).ok()?;
    let found = doc.select(&picked);
    Some(found.map(|e| (e.value().name().to_string(), e.text().collect::<String>())).collect())
}

/// The name that the first of the elements gives: its words, cut to a length.
pub open spec fn name_in(found: Option<Seq<(Seq<char>, Seq<char>)>>) -> Option<Seq<char>> {
    if found is Some && (found->0).len() > 0 {
        let name = text::trimmed(
            text::head_of(text::flattened((found->0)[0].1), NAME_TITLE_CHARS as int),
        );
        if name.len() > 0 {
            Some(name)
        } else {
            None
        }
    } else {
        None
    }
}

/// A page's name: the first heading's, or else the title's. (A site may give all its
/// pages one title.)
pub open spec fn name_from(
    headings: Option<Seq<(Seq<char>, Seq<char>)>>,
    titles: Option<Seq<(Seq<char>, Seq<char>)>>,
) -> Option<Seq<char>> {
    match name_in(headings) {
        Some(n) => Some(n),
        None => name_in(titles),
    }
}

fn first_name(found: &Option<Vec<(String, String)>>) -> (r: Option<String>)
    ensures
        json::opt_str(r) == name_in(opt_pairs(*found)),
{
    match found {
        None => None,
        Some(v) => {
            assert(json::pair_views(v@).len() == v@.len());
            if v.len() == 0 {
                return None;
            }
            assert(json::pair_views(v@)[0].1 == v@[0].1@);
            let flat: String = text::flatten(v[0].1.as_str());
            let cut: String = text::head(flat.as_str(), NAME_TITLE_CHARS);
            let name: String = text::trim(cut.as_str());
            if name.as_str().is_empty() {
                None
            } else {
                Some(name)
            }
        },
    }
}

/// A page's name, by its headings and its titles.
pub fn choose_name(
    headings: &Option<Vec<(String, String)>>,
    titles: &Option<Vec<(String, String)>>,
) -> (r: Option<String>)
    ensures
        json::opt_str(r) == name_from(opt_pairs(*headings), opt_pairs(*titles)),
{
    match first_name(headings) {
        Some(n) => Some(n),
        None => first_name(titles),
    }
}

/// A page's name.
pub fn page_name(body: &str) -> (r: Option<String>)
    ensures
        json::opt_str(r) == name_from(selected(body@, "h1"@), selected(body@, "title"@)),
{
    let headings: Option<Vec<(String, String)>> = select_texts(body, "h1");
    let titles: Option<Vec<(String, String)>> = select_texts(body, "title");
    choose_name(&headings, &titles)
}

/// The elements that hold a page's text: headings, paragraphs, list items, code.
pub const READABLE: &'static str = "h1, h2, h3, h4, h5, h6, p, li, pre";

/// How a heading begins, by its tag; nothing where the tag is none of a heading.
pub open spec fn heading_mark(tag: Seq<char>) -> Option<Seq<char>> {
    if tag == "h1"@ {
        Some("# "@)
    } else if tag == "h2"@ {
        Some("## "@)
    } else if tag == "h3"@ {
        Some("### "@)
    } else if tag == "h4"@ {
        Some("#### "@)
    } else if tag == "h5"@ {
        Some("##### "@)
    } else if tag == "h6"@ {
        Some("###### "@)
    } else {
        None
    }
}

fn mark_heading(tag: &str) -> (r: Option<&'static str>)
    ensures
        match r {
            Some(m) => heading_mark(tag@) == Some(m@),
            None => heading_mark(tag@) is None,
        },
{
    if text::same(tag, "h1") {
        Some("# ")
    } else if text::same(tag, "h2") {
        Some("## ")
    } else if text::same(tag, "h3") {
        Some("### ")
    } else if text::same(tag, "h4") {
        Some("#### ")
    } else if text::same(tag, "h5") {
        Some("##### ")
    } else if text::same(tag, "h6") {
        Some("###### ")
    } else {
        None
    }
}

/// An element as it is read: a heading under its mark, code as it stands between
/// fences, anything else by its words.
pub open spec fn fragment(tag: Seq<char>, said: Seq<char>) -> Seq<char> {
    if tag == "pre"@ {
        "```\n"@ + text::trimmed(said) + "\n```"@
    } else {
        match heading_mark(tag) {
            Some(m) => m + text::flattened(said),
            None => text::flattened(said),
        }
    }
}

fn show_fragment(tag: &str, said: &str) -> (r: String)
    ensures
        r@ == fragment(tag@, said@),
{
    if text::same(tag, "pre") {
        let inner: String = text::trim(said);
        text::cat3("```\n", inner.as_str(), "\n```")
    } else {
        let flat: String = text::flatten(said);
        match mark_heading(tag) {
            Some(m) => text::cat2(m, flat.as_str()),
            None => flat,
        }
    }
}

/// The elements that are not blank, as they are read, among the first `n`.
pub open spec fn filled(found: Seq<(Seq<char>, Seq<char>)>, n: int) -> Seq<Seq<char>>
    decreases n,
{
    if n <= 0 {
        Seq::empty()
    } else if text::trimmed(found[n - 1].1).len() > 0 {
        filled(found, n - 1).push(fragment(found[n - 1].0, found[n - 1].1))
    } else {
        filled(found, n - 1)
    }
}

/// The text that the readable elements of a page make, cut to a length.
pub open spec fn rich_from(found: Option<Seq<(Seq<char>, Seq<char>)>>, max: int) -> Seq<char> {
    match found {
        Some(v) => text::head_of(text::joined(filled(v, v.len() as int), "\n"@), max),
        None => Seq::empty(),
    }
}

/// The text that the readable elements of a page make.
pub fn extract_rich(found: &Option<Vec<(String, String)>>, max: usize) -> (r: String)
    ensures
        r@ == rich_from(opt_pairs(*found), max as int),
{
    match found {
        None => {
            let none: String = String::new();
            assert(none@ =~= Seq::<char>::empty());
            none
        },
        Some(v) => {
            let ghost all = json::pair_views(v@);
            let mut kept: Vec<String> = Vec::new();
            let mut i: usize = 0;
            assert(text::views(kept@) =~= Seq::<Seq<char>>::empty());
            while i < v.len()
                invariant
                    i <= v.len(),
                    all == json::pair_views(v@),
                    text::views(kept@) == filled(all, i as int),
                decreases v.len() - i,
            {
                assert(all[i as int] == (v@[i as int].0@, v@[i as int].1@));
                let t: String = text::trim(v[i].1.as_str());
                if !t.as_str().is_empty() {
                    kept.push(show_fragment(v[i].0.as_str(), v[i].1.as_str()));
                }
                i = i + 1;
            }
            let whole: String = text::join(&kept, "\n");
            text::head(whole.as_str(), max)
        },
    }
}

/// The response is text that is no page: by its type, or by the shape of its body
/// where the type does not say that it is a page.
pub open spec fn is_plain(content_type: Seq<char>, body: Seq<char>) -> bool {
    let ct = text::ascii_lowered(content_type);
    let is_html = text::occurs(ct, "html"@) || text::occurs(ct, "xml"@);
    let is_texty = text::occurs(ct, "json"@) || text::occurs(ct, "text/plain"@) || text::occurs(
        ct,
        "javascript"@,
    ) || text::occurs(ct, "csv"@);
    let inner = text::trimmed(body);
    let looks_json = inner.len() > 0 && (inner[0] == '{' || inner[0] == '[');
    is_texty || (looks_json && !is_html)
}

fn plain(content_type: &str, body: &str) -> (r: bool)
    ensures
        r == is_plain(content_type@, body@),
{
    let ct: String = text::to_ascii_lower(content_type);
    let is_html: bool = text::contains(ct.as_str(), "html") || text::contains(ct.as_str(), "xml");
    let is_texty: bool = text::contains(ct.as_str(), "json") || text::contains(
        ct.as_str(),
        "text/plain",
    ) || text::contains(ct.as_str(), "javascript") || text::contains(ct.as_str(), "csv");
    let inner: Vec<char> = text::chars_of(text::trim(body).as_str());
    let looks_json: bool = inner.len() > 0 && (inner[0] == '{' || inner[0] == '[');
    is_texty || (looks_json && !is_html)
}

/// What a response says: text that is no page as it stands, a page by its readable
/// elements; nothing where there is nothing to read.
pub open spec fn page_in(
    content_type: Seq<char>,
    body: Seq<char>,
    rich: Seq<char>,
    name: Option<Seq<char>>,
) -> Option<PageView> {
    let inner = text::trimmed(body);
    if is_plain(content_type, body) && inner.len() > 0 {
        Some(
            PageView {
                text: text::head_of(inner, MAX_EXTRACT_CHARS as int),
                truncated: inner.len() > MAX_EXTRACT_CHARS,
                title: None,
            },
        )
    } else if rich.len() > 0 {
        Some(
            PageView { text: rich, truncated: rich.len() >= MAX_EXTRACT_CHARS, title: name },
        )
    } else {
        None
    }
}

pub open spec fn opt_page(p: Option<PageText>) -> Option<PageView> {
    match p {
        Some(p) => Some(p@),
        None => None,
    }
}

/// What a response says, by the readable elements of its body and their name.
pub fn read_body(
    content_type: &str,
    body: &str,
    rich: String,
    name: Option<String>,
) -> (r: Option<PageText>)
    ensures
        opt_page(r) == page_in(content_type@, body@, rich@, json::opt_str(name)),
{
    let inner: String = text::trim(body);
    if plain(content_type, body) && !inner.as_str().is_empty() {
        let whole: usize = text::length(inner.as_str());
        return Some(
            PageText {
                text: text::head(inner.as_str(), MAX_EXTRACT_CHARS),
                truncated: whole > MAX_EXTRACT_CHARS,
                title: None,
            },
        );
    }
    if rich.as_str().is_empty() {
        return None;
    }
    let n: usize = text::length(rich.as_str());
    Some(PageText { truncated: n >= MAX_EXTRACT_CHARS, text: rich, title: name })
}

/// What a response says.
pub fn body_to_text(content_type: &str, body: &str) -> (r: Option<PageText>)
    ensures
        opt_page(r) == page_in(
            content_type@,
            body@,
            rich_from(selected(body@, READABLE@), MAX_EXTRACT_CHARS as int),
            name_from(selected(body@, "h1"@), selected(body@, "title"@)),
        ),
{
    let found: Option<Vec<(String, String)>> = select_texts(body, READABLE);
    let rich: String = extract_rich(&found, MAX_EXTRACT_CHARS);
    read_body(content_type, body, rich, page_name(body))
}

/// No response puts more than a bounded text into the chat; where something was left
/// out, that is known; and a page is named only by what it names itself.
pub proof fn a_page_is_bounded(
    content_type: Seq<char>,
    body: Seq<char>,
    found: Option<Seq<(Seq<char>, Seq<char>)>>,
    name: Option<Seq<char>>,
)
    ensures
        page_in(
            content_type,
            body,
            rich_from(found, MAX_EXTRACT_CHARS as int),
            name,
        ) matches Some(p) ==> {
            &&& 0 < p.text.len() <= MAX_EXTRACT_CHARS
            &&& is_plain(content_type, body) && text::trimmed(body).len() > 0 && !p.truncated
                ==> p.text == text::trimmed(body)
            &&& p.title is Some ==> p.title == name
        },
{
}

// ---------- the name of the attachment ----------

/// Two texts are the same, ASCII letter case apart.
pub open spec fn same_word(a: Seq<char>, b: Seq<char>) -> bool {
    text::ascii_lowered(a) == text::ascii_lowered(b)
}

fn equal_words(a: &str, b: &str) -> (r: bool)
    ensures
        r == same_word(a@, b@),
{
    text::same(text::to_ascii_lower(a).as_str(), text::to_ascii_lower(b).as_str())
}

/// Another page has the name already.
pub open spec fn is_taken(base: Seq<char>, url: Seq<char>, files: Seq<Attachment>) -> bool {
    exists|i: int|
        0 <= i < files.len() && same_word((#[trigger] files[i]).name@, base) && !same_word(
            files[i].source@,
            url,
        )
}

fn taken(base: &str, url: &str, files: &Vec<Attachment>) -> (r: bool)
    ensures
        r == is_taken(base@, url@, files@),
{
    let mut i: usize = 0;
    while i < files.len()
        invariant
            i <= files.len(),
            forall|j: int|
                0 <= j < i ==> !(same_word((#[trigger] files@[j]).name@, base@) && !same_word(
                    files@[j].source@,
                    url@,
                )),
        decreases files.len() - i,
    {
        if equal_words(files[i].name.as_str(), base) && !equal_words(
            files[i].source.as_str(),
            url,
        ) {
            assert(same_word(files@[i as int].name@, base@));
            return true;
        }
        i = i + 1;
    }
    false
}

/// What stands behind the scheme of an address.
pub open spec fn without_scheme(url: Seq<char>) -> Seq<char> {
    let i = text::find_from(url, "://"@, 0);
    if i < 0 {
        url
    } else {
        url.skip(i + "://"@.len())
    }
}

/// Where the query or the fragment of an address begins.
pub open spec fn path_end(s: Seq<char>, i: int) -> int
    decreases s.len() - i,
{
    if 0 <= i < s.len() && s[i] != '?' && s[i] != '#' {
        path_end(s, i + 1)
    } else {
        i
    }
}

/// Those of the first `n` parts that are not empty.
pub open spec fn filled_parts(parts: Seq<Seq<char>>, n: int) -> Seq<Seq<char>>
    decreases n,
{
    if n <= 0 {
        Seq::empty()
    } else if parts[n - 1].len() > 0 {
        filled_parts(parts, n - 1).push(parts[n - 1])
    } else {
        filled_parts(parts, n - 1)
    }
}

/// The host of an address and the segments of its path.
pub open spec fn segments_of(url: Seq<char>) -> Seq<Seq<char>> {
    let rest = without_scheme(url);
    let parts = text::split(rest.take(path_end(rest, 0)), '/');
    filled_parts(parts, parts.len() as int)
}

/// The last segment of an address's path, or else its host.
pub open spec fn segment_of(url: Seq<char>) -> Option<Seq<char>> {
    let segments = segments_of(url);
    if segments.len() == 0 {
        None
    } else {
        Some(segments.last())
    }
}

fn cut_scheme(url: &str) -> (r: String)
    ensures
        r@ == without_scheme(url@),
{
    let v: Vec<char> = text::chars_of(url);
    let mark: Vec<char> = text::chars_of("://");
    proof {
        text::find_is_first(url@, "://"@, 0);
    }
    match text::find(&v, &mark, 0) {
        Some(i) => {
            assert(i + mark.len() <= v.len());
            let from: usize = i + mark.len();
            assert(v@.subrange(from as int, v.len() as int) =~= url@.skip(from as int));
            text::slice(&v, from, v.len())
        },
        None => text::owned(url),
    }
}

fn list_segments(url: &str) -> (r: Vec<String>)
    ensures
        text::views(r@) == segments_of(url@),
{
    let rest: String = cut_scheme(url);
    let v: Vec<char> = text::chars_of(rest.as_str());
    let mut end: usize = 0;
    while end < v.len() && v[end] != '?' && v[end] != '#'
        invariant
            end <= v.len(),
            path_end(v@, end as int) == path_end(v@, 0),
        decreases v.len() - end,
    {
        end = end + 1;
    }
    let path: String = text::slice(&v, 0, end);
    assert(path@ =~= rest@.take(path_end(rest@, 0)));
    let parts: Vec<String> = text::split_on(path.as_str(), '/');
    let ghost all = text::views(parts@);
    let mut r: Vec<String> = Vec::new();
    let mut i: usize = 0;
    assert(text::views(r@) =~= Seq::<Seq<char>>::empty());
    while i < parts.len()
        invariant
            i <= parts.len(),
            all == text::views(parts@),
            text::views(r@) == filled_parts(all, i as int),
        decreases parts.len() - i,
    {
        assert(all[i as int] == parts@[i as int]@);
        if !parts[i].as_str().is_empty() {
            r.push(parts[i].clone());
        }
        i = i + 1;
    }
    r
}

/// The last segment of an address's path, or else its host: the least that tells two
/// pages of a site apart.
pub fn url_segment(url: &str) -> (r: Option<String>)
    ensures
        json::opt_str(r) == segment_of(url@),
{
    let segments: Vec<String> = list_segments(url);
    assert(text::views(segments@).len() == segments@.len());
    if segments.len() == 0 {
        None
    } else {
        let last: usize = segments.len() - 1;
        assert(text::views(segments@)[last as int] == segments@[last as int]@);
        Some(segments[last].clone())
    }
}

/// The last `k` segments of an address with slashes between them.
pub open spec fn last_segments(segments: Seq<Seq<char>>, k: int) -> Seq<char>
    decreases k,
{
    if k <= 1 {
        segments[segments.len() - 1]
    } else {
        segments[segments.len() - k] + "/"@ + last_segments(segments, k - 1)
    }
}

/// A text followed by an address `k` times.
pub open spec fn with_address(s: Seq<char>, url: Seq<char>, k: int) -> Seq<char>
    decreases k,
{
    if k <= 0 {
        s
    } else {
        with_address(s, url, k - 1) + " — "@ + url
    }
}

/// The names that a page may have, from the first choice on: its own; with the last
/// segment of its address, with one segment more each time; with the whole address, as
/// often as it takes.
pub open spec fn candidate(base: Seq<char>, url: Seq<char>, k: int) -> Seq<char> {
    let segments = segments_of(url);
    if k <= 0 {
        base
    } else if k <= segments.len() {
        base + " — "@ + last_segments(segments, k)
    } else {
        with_address(base, url, k - segments.len())
    }
}

/// The length of the longest name.
pub open spec fn longest_name(files: Seq<Attachment>) -> int
    decreases files.len(),
{
    if files.len() == 0 {
        0
    } else {
        let before = longest_name(files.drop_last());
        let n = files.last().name@.len() as int;
        if n > before {
            n
        } else {
            before
        }
    }
}

proof fn names_are_no_longer(files: Seq<Attachment>, i: int)
    requires
        0 <= i < files.len(),
    ensures
        files[i].name@.len() <= longest_name(files),
    decreases files.len(),
{
    if i < files.len() - 1 {
        assert(files.drop_last()[i] == files[i]);
        names_are_no_longer(files.drop_last(), i);
    }
}

proof fn addresses_add_up(s: Seq<char>, url: Seq<char>, k: int)
    requires
        0 <= k,
    ensures
        with_address(s, url, k).len() >= k,
    decreases k,
{
    reveal_strlit(" — ");
    if k > 0 {
        addresses_add_up(s, url, k - 1);
    }
}

proof fn a_taken_candidate_is_short(
    base: Seq<char>,
    url: Seq<char>,
    files: Seq<Attachment>,
    k: int,
)
    requires
        0 <= k,
        is_taken(candidate(base, url, k), url, files),
    ensures
        k <= segments_of(url).len() + longest_name(files),
{
    let name = candidate(base, url, k);
    let n = segments_of(url).len() as int;
    let i = choose|i: int|
        0 <= i < files.len() && same_word((#[trigger] files[i]).name@, name) && !same_word(
            files[i].source@,
            url,
        );
    names_are_no_longer(files, i);
    assert(text::ascii_lowered(files[i].name@).len() == files[i].name@.len());
    assert(text::ascii_lowered(name).len() == name.len());
    if k > n {
        addresses_add_up(base, url, k - n);
    }
}

/// The first of the names that no other page has, from the one with index `k` on.
pub open spec fn first_free(
    base: Seq<char>,
    url: Seq<char>,
    files: Seq<Attachment>,
    k: int,
) -> Seq<char>
    decreases segments_of(url).len() + longest_name(files) + 1 - k,
    when 0 <= k
    via looking_on_comes_to_an_end
{
    if is_taken(candidate(base, url, k), url, files) {
        first_free(base, url, files, k + 1)
    } else {
        candidate(base, url, k)
    }
}

#[via_fn]
proof fn looking_on_comes_to_an_end(
    base: Seq<char>,
    url: Seq<char>,
    files: Seq<Attachment>,
    k: int,
) {
    if is_taken(candidate(base, url, k), url, files) {
        a_taken_candidate_is_short(base, url, files, k);
    }
}

/// The name under which a page is attached: the first that no other page has.
pub open spec fn name_for(base: Seq<char>, url: Seq<char>, files: Seq<Attachment>) -> Seq<char> {
    first_free(base, url, files, 0)
}

proof fn the_first_free_is_free(base: Seq<char>, url: Seq<char>, files: Seq<Attachment>, k: int)
    requires
        0 <= k,
    ensures
        !is_taken(first_free(base, url, files, k), url, files),
    decreases segments_of(url).len() + longest_name(files) + 1 - k,
{
    if is_taken(candidate(base, url, k), url, files) {
        a_taken_candidate_is_short(base, url, files, k);
        the_first_free_is_free(base, url, files, k + 1);
    }
}

/// No other page bears the name under which a page is attached.
pub proof fn a_page_has_its_own_name(base: Seq<char>, url: Seq<char>, files: Seq<Attachment>)
    ensures
        !is_taken(name_for(base, url, files), url, files),
{
    the_first_free_is_free(base, url, files, 0);
}

/// The attachments of other pages that were there are there still.
pub open spec fn others_stay(
    url: Seq<char>,
    before: Seq<Attachment>,
    now: Seq<Attachment>,
) -> bool {
    forall|i: int|
        0 <= i < before.len() ==> same_word((#[trigger] before[i]).source@, url) || now.contains(
            before[i],
        )
}

proof fn first_free_stays(
    base: Seq<char>,
    url: Seq<char>,
    before: Seq<Attachment>,
    now: Seq<Attachment>,
    k: int,
)
    requires
        0 <= k,
        others_stay(url, before, now),
        !is_taken(first_free(base, url, before, k), url, now),
    ensures
        first_free(base, url, now, k) == first_free(base, url, before, k),
    decreases segments_of(url).len() + longest_name(before) + 1 - k,
{
    let name = candidate(base, url, k);
    if is_taken(name, url, before) {
        a_taken_candidate_is_short(base, url, before, k);
        let i = choose|i: int|
            0 <= i < before.len() && same_word((#[trigger] before[i]).name@, name) && !same_word(
                before[i].source@,
                url,
            );
        let j = choose|j: int| 0 <= j < now.len() && now[j] == before[i];
        assert(same_word(now[j].name@, name));
        assert(is_taken(name, url, now));
        first_free_stays(base, url, before, now, k + 1);
    }
}

/// A page that is fetched again keeps its name, whatever its own attachment has become:
/// as long as the other pages keep theirs, and no page has come to bear this one's.
pub proof fn a_page_fetched_again_keeps_its_name(
    base: Seq<char>,
    url: Seq<char>,
    before: Seq<Attachment>,
    now: Seq<Attachment>,
)
    requires
        others_stay(url, before, now),
        !is_taken(name_for(base, url, before), url, now),
    ensures
        name_for(base, url, now) == name_for(base, url, before),
{
    first_free_stays(base, url, before, now, 0);
}

/// The attachments of other pages, among the first `n`.
pub open spec fn of_other_pages(files: Seq<Attachment>, url: Seq<char>, n: int) -> Seq<Attachment>
    decreases n,
{
    if n <= 0 {
        Seq::empty()
    } else if same_word(files[n - 1].source@, url) {
        of_other_pages(files, url, n - 1)
    } else {
        of_other_pages(files, url, n - 1).push(files[n - 1])
    }
}

proof fn others_are_of_others(files: Seq<Attachment>, url: Seq<char>, n: int)
    requires
        0 <= n <= files.len(),
    ensures
        forall|i: int|
            0 <= i < n ==> same_word((#[trigger] files[i]).source@, url) || of_other_pages(
                files,
                url,
                n,
            ).contains(files[i]),
        forall|j: int|
            0 <= j < of_other_pages(files, url, n).len() ==> files.contains(
                #[trigger] of_other_pages(files, url, n)[j],
            ),
    decreases n,
{
    if n > 0 {
        others_are_of_others(files, url, n - 1);
        let before = of_other_pages(files, url, n - 1);
        let now = of_other_pages(files, url, n);
        assert forall|i: int| 0 <= i < n implies same_word((#[trigger] files[i]).source@, url)
            || now.contains(files[i]) by {
            if i == n - 1 {
                if !same_word(files[i].source@, url) {
                    assert(now[before.len() as int] == files[i]);
                }
            } else if !same_word(files[i].source@, url) {
                let j = choose|j: int| 0 <= j < before.len() && before[j] == files[i];
                assert(now[j] == files[i]);
            }
        }
        assert forall|j: int| 0 <= j < now.len() implies files.contains(#[trigger] now[j]) by {
            if j < before.len() {
                assert(now[j] == before[j]);
            } else {
                assert(files[n - 1] == now[j]);
            }
        }
    }
}

proof fn only_others_matter(base: Seq<char>, url: Seq<char>, files: Seq<Attachment>)
    ensures
        name_for(base, url, files) == name_for(
            base,
            url,
            of_other_pages(files, url, files.len() as int),
        ),
{
    let others = of_other_pages(files, url, files.len() as int);
    others_are_of_others(files, url, files.len() as int);
    a_page_has_its_own_name(base, url, files);
    let name = name_for(base, url, files);
    assert(!is_taken(name, url, others)) by {
        if is_taken(name, url, others) {
            let j = choose|j: int|
                0 <= j < others.len() && same_word((#[trigger] others[j]).name@, name)
                    && !same_word(others[j].source@, url);
            assert(files.contains(others[j]));
            let i = choose|i: int| 0 <= i < files.len() && files[i] == others[j];
            assert(same_word(files[i].name@, name));
        }
    }
    a_page_fetched_again_keeps_its_name(base, url, files, others);
}

/// The name under which a page is attached: the first that no other page has. What the
/// page itself has attached before makes no difference.
pub fn unique_name(base: &str, url: &str, files: &Vec<Attachment>) -> (r: String)
    ensures
        r@ == name_for(base@, url@, files@),
        !is_taken(r@, url@, files@),
        r@ == name_for(base@, url@, of_other_pages(files@, url@, files@.len() as int)),
{
    proof {
        a_page_has_its_own_name(base@, url@, files@);
        only_others_matter(base@, url@, files@);
    }
    if !taken(base, url, files) {
        return text::owned(base);
    }
    let segments: Vec<String> = list_segments(url);
    let ghost all = text::views(segments@);
    assert(all.len() == segments@.len());
    let mut tail: String = String::new();
    let mut n: usize = segments.len();
    while n > 0
        invariant
            n <= segments.len(),
            all == text::views(segments@),
            all == segments_of(url@),
            all.len() == segments@.len(),
            n < segments.len() ==> tail@ == last_segments(all, all.len() - n),
            first_free(base@, url@, files@, all.len() - n + 1) == name_for(base@, url@, files@),
            name_for(base@, url@, files@) == name_for(
                base@,
                url@,
                of_other_pages(files@, url@, files@.len() as int),
            ),
        decreases n,
    {
        n = n - 1;
        assert(all[n as int] == segments@[n as int]@);
        tail = if n + 1 == segments.len() {
            segments[n].clone()
        } else {
            text::cat3(segments[n].as_str(), "/", tail.as_str())
        };
        let name: String = text::cat3(base, " — ", tail.as_str());
        assert(name@ == candidate(base@, url@, all.len() - n));
        if !taken(name.as_str(), url, files) {
            return name;
        }
    }
    let mut name: String = text::cat3(base, " — ", url);
    let ghost mut k: int = 1;
    assert(with_address(base@, url@, 0) == base@);
    assert(name@ == with_address(base@, url@, 1));
    while taken(name.as_str(), url, files)
        invariant
            1 <= k,
            name@ == with_address(base@, url@, k),
            first_free(base@, url@, files@, segments_of(url@).len() + k) == name_for(
                base@,
                url@,
                files@,
            ),
        decreases longest_name(files@) + 1 - k,
    {
        proof {
            let at = segments_of(url@).len() + k;
            assert(candidate(base@, url@, at) == name@);
            a_taken_candidate_is_short(base@, url@, files@, at);
            k = k + 1;
        }
        name.push_str(" — ");
        name.push_str(url);
    }
    assert(candidate(base@, url@, segments_of(url@).len() + k) == name@);
    name
}

// ---------- a call ----------

/// The arguments of a call.
#[derive(Debug)]
pub struct FetchArgs {
    pub url: String,
    pub focus: Option<String>,
    pub summarize: bool,
}

/// A text argument without its margins; nothing where that is empty.
pub open spec fn filled_arg(args: JsonView, key: Seq<char>) -> Option<Seq<char>> {
    match args.str_at(key) {
        Some(s) => if text::trimmed(s).len() > 0 {
            Some(text::trimmed(s))
        } else {
            None
        },
        None => None,
    }
}

fn get_filled(args: &Json, key: &str) -> (r: Option<String>)
    ensures
        json::opt_str(r) == filled_arg(args@, key@),
{
    match args.get_str(key) {
        Some(s) => {
            let t: String = text::trim(s.as_str());
            if t.as_str().is_empty() {
                None
            } else {
                Some(t)
            }
        },
        None => None,
    }
}

/// The address is one of the web.
pub open spec fn is_web(url: Seq<char>) -> bool {
    text::stands_at(url, "http://"@, 0) || text::stands_at(url, "https://"@, 0)
}

/// Why a page did not come.
#[derive(Debug)]
pub enum FetchError {
    /// The address may not be reached.
    AddressBlocked,
    /// The request failed.
    Request,
    /// The server answered with this status.
    Status(String),
    /// The body is compressed in a way that is not read.
    Compressed(String),
    /// The body could not be read.
    Read,
    /// There is nothing to read in it.
    NoText,
}

/// What is said of a page that did not come.
pub open spec fn fetch_error_text(e: FetchError, url: Seq<char>, loc: Locale) -> Seq<char> {
    match e {
        FetchError::AddressBlocked => loc.text("tool.fetch_url.err.address_blocked"@),
        FetchError::Request => loc.text1("tool.fetch_url.err.request"@, "url"@, url),
        FetchError::Status(s) => loc.text1("tool.fetch_url.err.status"@, "status"@, s@),
        FetchError::Compressed(c) => loc.text1("tool.fetch_url.err.compressed"@, "coding"@, c@),
        FetchError::Read => loc.text1("tool.fetch_url.err.read"@, "url"@, url),
        FetchError::NoText => loc.text("tool.fetch_url.err.no_text"@),
    }
}

impl FetchError {
    /// What is said of a page that did not come.
    pub fn text(&self, url: &str, loc: &Locale) -> (r: String)
        ensures
            r@ == fetch_error_text(*self, url@, *loc),
    {
        match self {
            FetchError::AddressBlocked => text::owned(loc.t("tool.fetch_url.err.address_blocked")),
            FetchError::Request => loc.tf1("tool.fetch_url.err.request", "url", url),
            FetchError::Status(s) => loc.tf1("tool.fetch_url.err.status", "status", s.as_str()),
            FetchError::Compressed(c) => loc.tf1(
                "tool.fetch_url.err.compressed",
                "coding",
                c.as_str(),
            ),
            FetchError::Read => loc.tf1("tool.fetch_url.err.read", "url", url),
            FetchError::NoText => text::owned(loc.t("tool.fetch_url.err.no_text")),
        }
    }
}

/// The text with a note behind it where the page has more.
pub open spec fn noted(out: Seq<char>, truncated: bool, loc: Locale) -> Seq<char> {
    if truncated {
        out + "\n"@ + loc.text("tool.fetch_url.result.truncated"@)
    } else {
        out
    }
}

fn note(out: String, truncated: bool, loc: &Locale) -> (r: String)
    ensures
        r@ == noted(out@, truncated, *loc),
{
    let mut r: String = out;
    if truncated {
        r.push_str("\n");
        r.push_str(loc.t("tool.fetch_url.result.truncated"));
    }
    r
}

/// A summary that says something.
pub open spec fn has_words(summary: Option<Summarized>) -> bool {
    summary is Some && text::trimmed(summary->0.text@).len() > 0
}

/// What a page that fits is answered with: its summary, or the page itself where none
/// was asked for or none came.
pub open spec fn inline_text(
    url: Seq<char>,
    summarize: bool,
    summary: Option<Summarized>,
    page: PageView,
    loc: Locale,
) -> Seq<char> {
    let out = if summarize && has_words(summary) {
        summary->0.text@
    } else if summarize {
        loc.text1("tool.fetch_url.result.content_no_summary"@, "url"@, url) + "\n"@ + page.text
    } else {
        loc.text1("tool.fetch_url.result.content"@, "url"@, url) + "\n"@ + page.text
    };
    noted(out, page.truncated, loc)
}

/// The text of an attached page: the whole page under a heading that says where it
/// came from.
pub open spec fn attached_text(
    name: Seq<char>,
    url: Seq<char>,
    page: PageView,
    loc: Locale,
) -> Seq<char> {
    loc.text2("tool.fetch_url.attachment.header"@, "name"@, name, "url"@, url) + "\n\n"@ + page.text
}

/// The name of a page, or else its address.
pub open spec fn base_name(page: PageView, url: Seq<char>) -> Seq<char> {
    match page.title {
        Some(t) => t,
        None => url,
    }
}

/// What a page that is attached is answered with: the summary of its beginning, and
/// where the rest is.
pub open spec fn attached_answer(
    name: Seq<char>,
    pages: nat,
    summarize: bool,
    summary: Option<Summarized>,
    truncated: bool,
    loc: Locale,
) -> Seq<char> {
    let said = if summarize && has_words(summary) {
        text::trimmed(summary->0.text@) + "\n"@
    } else {
        Seq::empty()
    };
    noted(
        said + loc.text2(
            "tool.fetch_url.result.attached"@,
            "name"@,
            name,
            "pages"@,
            text::decimal(pages),
        ),
        truncated,
        loc,
    )
}

fn summary_prefill(summary: &Option<Summarized>) -> (r: Option<Prefill>)
    ensures
        r == (match *summary {
            Some(s) => s.prefill,
            None => None,
        }),
{
    match summary {
        Some(s) => s.prefill,
        None => None,
    }
}

fn spoken(summary: &Option<Summarized>) -> (r: bool)
    ensures
        r == has_words(*summary),
{
    match summary {
        Some(s) => {
            let t: String = text::trim(s.text.as_str());
            !t.as_str().is_empty()
        },
        None => false,
    }
}

impl FetchUrl {
    /// Reads the arguments of a call. Without an address, or with one that is not of
    /// the web, the call is wrong.
    pub fn arguments(&self, args: &Json, loc: &Locale) -> (r: Result<FetchArgs, String>)
        ensures
            ({
                let url = filled_arg(args@, "url"@);
                match r {
                    Ok(a) => {
                        &&& url == Some(a.url@) && is_web(a.url@)
                        &&& json::opt_str(a.focus) == filled_arg(args@, "focus"@)
                        &&& a.summarize == (match args@.bool_at("summarize"@) {
                            Some(b) => b,
                            None => true,
                        })
                    },
                    Err(e) => if url is None {
                        e@ == loc.text("tool.fetch_url.err.url_empty"@)
                    } else {
                        !is_web(url->0) && e@ == loc.text("tool.fetch_url.err.url_scheme"@)
                    },
                }
            }),
    {
        let url: String = match get_filled(args, "url") {
            Some(u) => u,
            None => {
                return Err(text::owned(loc.t("tool.fetch_url.err.url_empty")));
            },
        };
        if !(text::starts_with(url.as_str(), "http://") || text::starts_with(
            url.as_str(),
            "https://",
        )) {
            return Err(text::owned(loc.t("tool.fetch_url.err.url_scheme")));
        }
        let summarize: bool = match args.get_bool("summarize") {
            Some(b) => b,
            None => true,
        };
        Ok(FetchArgs { url, focus: get_filled(args, "focus"), summarize })
    }

    /// The answer for a video page, which has no text of its own: what is known of the
    /// video, and which tool can watch it.
    pub fn video_result(&self, known: &str, loc: &Locale) -> (r: ToolOutcome)
        ensures
            r.says(known@ + "\n"@ + loc.text("tool.fetch_url.result.youtube"@)),
    {
        ToolOutcome::text(text::cat3(known, "\n", loc.t("tool.fetch_url.result.youtube")))
    }

    /// The answer where the page did not come.
    pub fn failed(&self, url: &str, why: &FetchError, loc: &Locale) -> (r: ToolOutcome)
        ensures
            r.says(
                loc.text2(
                    "tool.fetch_url.result.fetch_failed"@,
                    "url"@,
                    url@,
                    "err"@,
                    fetch_error_text(*why, url@, *loc),
                ),
            ),
    {
        let why: String = why.text(url, loc);
        ToolOutcome::text(
            loc.tf2("tool.fetch_url.result.fetch_failed", "url", url, "err", why.as_str()),
        )
    }

    /// The page comes back in the result: it is within the budget for attachments.
    pub fn fits(&self, estimate: u64, max_file_tokens: u64) -> (r: bool)
        ensures
            r == (estimate <= max_file_tokens),
    {
        estimate <= max_file_tokens
    }

    /// The part of a page that is summed up: the whole of one that fits, and the
    /// beginning of one that is attached.
    pub fn summary_input(&self, page: &PageText, attached: bool) -> (r: String)
        ensures
            r@ == (if attached {
                text::head_of(page.text@, SUMMARY_INPUT_CHARS as int)
            } else {
                page.text@
            }),
    {
        if attached {
            text::head(page.text.as_str(), SUMMARY_INPUT_CHARS)
        } else {
            page.text.clone()
        }
    }

    /// The answer for a page that fits.
    pub fn inline_result(
        &self,
        url: &str,
        summarize: bool,
        summary: &Option<Summarized>,
        page: &PageText,
        loc: &Locale,
    ) -> (r: ToolOutcome)
        ensures
            r.result@ == inline_text(url@, summarize, *summary, page@, *loc),
            r.effects@.len() == 0,
            !r.wrote,
            r.prefill == (match *summary {
                Some(s) => s.prefill,
                None => None,
            }),
            r.images@.len() == 0,
    {
        let out: String = if summarize && spoken(summary) {
            match summary {
                Some(s) => s.text.clone(),
                None => String::new(),
            }
        } else if summarize {
            let head: String = loc.tf1("tool.fetch_url.result.content_no_summary", "url", url);
            text::cat3(head.as_str(), "\n", page.text.as_str())
        } else {
            let head: String = loc.tf1("tool.fetch_url.result.content", "url", url);
            text::cat3(head.as_str(), "\n", page.text.as_str())
        };
        ToolOutcome::text(note(out, page.truncated, loc)).with_prefill(summary_prefill(summary))
    }

    /// The attachment that holds a page. Whether it stands in the context whole is for
    /// the budget to say.
    pub fn attachment(
        &self,
        url: &str,
        page: &PageText,
        files: &Vec<Attachment>,
        inline: bool,
        loc: &Locale,
    ) -> (r: NewAttachment)
        ensures
            r.name@ == name_for(base_name(page@, url@), url@, files@),
            !is_taken(r.name@, url@, files@),
            r.source@ == url@,
            r.text@ == attached_text(r.name@, url@, page@, *loc),
            r.inline == inline,
    {
        let base: String = match &page.title {
            Some(t) => t.clone(),
            None => text::owned(url),
        };
        let name: String = unique_name(base.as_str(), url, files);
        let head: String = loc.tf2(
            "tool.fetch_url.attachment.header",
            "name",
            name.as_str(),
            "url",
            url,
        );
        let body: String = text::cat3(head.as_str(), "\n\n", page.text.as_str());
        NewAttachment { name, source: text::owned(url), text: body, inline }
    }

    /// The answer for a page that is attached, which has so many pages.
    pub fn attached_result(
        &self,
        attachment: NewAttachment,
        pages: u64,
        summarize: bool,
        summary: &Option<Summarized>,
        truncated: bool,
        loc: &Locale,
    ) -> (r: ToolOutcome)
        ensures
            r.result@ == attached_answer(
                attachment.name@,
                pages as nat,
                summarize,
                *summary,
                truncated,
                *loc,
            ),
            r.effects@.len() == 1,
            r.effects@[0] matches ChatEffect::AddAttachment(a) && *a == attachment,
            !r.wrote,
            r.prefill == (match *summary {
                Some(s) => s.prefill,
                None => None,
            }),
            r.images@.len() == 0,
    {
        let mut out: String = String::new();
        if summarize && spoken(summary) {
            match summary {
                Some(s) => {
                    out.push_str(text::trim(s.text.as_str()).as_str());
                    out.push_str("\n");
                },
                None => {},
            }
        }
        let n: String = text::dec(pages);
        let place: String = loc.tf2(
            "tool.fetch_url.result.attached",
            "name",
            attachment.name.as_str(),
            "pages",
            n.as_str(),
        );
        let ghost said = if summarize && has_words(*summary) {
            text::trimmed(summary->0.text@) + "\n"@
        } else {
            Seq::empty()
        };
        assert(out@ =~= said);
        out.push_str(place.as_str());
        let mut effects: Vec<ChatEffect> = Vec::new();
        effects.push(ChatEffect::AddAttachment(Box::new(attachment)));
        ToolOutcome::with_effects(note(out, truncated, loc), effects).with_prefill(
            summary_prefill(summary),
        )
    }
}

/// An attached page is there whole: its text ends with everything that was taken from
/// the page, whatever was said in the result.
pub proof fn nothing_of_a_page_is_lost(
    name: Seq<char>,
    url: Seq<char>,
    page: PageView,
    loc: Locale,
)
    ensures
        ({
            let all = attached_text(name, url, page, loc);
            all.skip(all.len() - page.text.len()) == page.text
        }),
{
    let all = attached_text(name, url, page, loc);
    assert(all.skip(all.len() - page.text.len()) =~= page.text);
}

// ---------- the summary ----------

/// A request to sum a page up: one turn, no tools.
#[derive(Debug)]
pub struct SummaryRequest {
    pub system: String,
    pub task: String,
    pub sampling: SamplingConfig,
}

/// How many tokens the summary may have: what is set, and never more than the cap.
pub open spec fn summary_cap(cfg: Seq<Option<Seq<char>>>) -> u64 {
    match cfg[sampling::MAX_TOKENS as int] {
        Some(t) => match text::uint_of(t) {
            Some(m) => if m < SUMMARY_MAX_TOKENS {
                m
            } else {
                SUMMARY_MAX_TOKENS
            },
            None => SUMMARY_MAX_TOKENS,
        },
        None => SUMMARY_MAX_TOKENS,
    }
}

/// The parameters of a summary: those in force, with the cap and without reasoning.
pub open spec fn summary_sampling(cfg: Seq<Option<Seq<char>>>) -> Seq<Option<Seq<char>>> {
    cfg.update(
        sampling::MAX_TOKENS as int,
        Some(text::decimal(summary_cap(cfg) as nat)),
    ).update(sampling::REASONING_BUDGET as int, Some("0"@))
}

/// What a summary is asked for.
pub open spec fn summary_task(
    url: Seq<char>,
    focus: Option<Seq<char>>,
    page: Seq<char>,
    loc: Locale,
) -> Seq<char> {
    match focus {
        Some(f) => loc.text3(
            "tool.fetch_url.summarize.task_focus"@,
            "url"@,
            url,
            "f"@,
            f,
            "text"@,
            page,
        ),
        None => loc.text2("tool.fetch_url.summarize.task"@, "url"@, url, "text"@, page),
    }
}

/// How many tokens the summary may have.
pub fn summary_tokens(effective: &SamplingConfig) -> (r: u64)
    ensures
        r == summary_cap(effective@),
        r <= SUMMARY_MAX_TOKENS,
{
    match effective.value(sampling::MAX_TOKENS) {
        Some(t) => match text::parse_uint(t.as_str()) {
            Some(m) => if m < SUMMARY_MAX_TOKENS {
                m
            } else {
                SUMMARY_MAX_TOKENS
            },
            None => SUMMARY_MAX_TOKENS,
        },
        None => SUMMARY_MAX_TOKENS,
    }
}

/// The request that sums a page up.
pub fn summarize_text(
    effective: &SamplingConfig,
    url: &str,
    focus: &Option<String>,
    page: &str,
    loc: &Locale,
) -> (r: SummaryRequest)
    ensures
        r.system@ == loc.text("tool.fetch_url.summarize.system"@),
        r.task@ == summary_task(url@, json::opt_str(*focus), page@, *loc),
        r.sampling@ == summary_sampling(effective@),
{
    let task: String = match focus {
        Some(f) => loc.tf3(
            "tool.fetch_url.summarize.task_focus",
            "url",
            url,
            "f",
            f.as_str(),
            "text",
            page,
        ),
        None => loc.tf2("tool.fetch_url.summarize.task", "url", url, "text", page),
    };
    let cap: String = text::dec(summary_tokens(effective));
    let sampling: SamplingConfig = effective.with(sampling::MAX_TOKENS, Some(cap)).with(
        sampling::REASONING_BUDGET,
        Some(text::owned("0")),
    );
    SummaryRequest { system: text::owned(loc.t("tool.fetch_url.summarize.system")), task, sampling }
}

/// A piece of an engine's reply.
#[derive(Debug)]
pub enum ChatChunk {
    Text(String),
    /// How many tokens the prompt had, and how long the engine took over it.
    Usage { prompt_tokens: u64, prefill: Option<Prefill> },
    /// The reply is at an end.
    Finished,
    /// A retry, an error, a thought, a tool call: nothing of the summary.
    Other,
}

/// What has come of a reply.
#[derive(Debug)]
pub struct Summarized {
    pub text: String,
    pub prefill: Option<Prefill>,
}

/// The pieces up to the end of the reply, among the first `n`, and whether the end is
/// among them.
pub open spec fn heard(chunks: Seq<ChatChunk>, n: int) -> (Seq<char>, Option<Prefill>, bool)
    decreases n,
{
    if n <= 0 {
        (Seq::empty(), None, false)
    } else {
        let before = heard(chunks, n - 1);
        if before.2 {
            before
        } else {
            match chunks[n - 1] {
                ChatChunk::Text(t) => (before.0 + t@, before.1, false),
                ChatChunk::Usage { prompt_tokens, prefill } => (before.0, prefill, false),
                ChatChunk::Finished => (before.0, before.1, true),
                ChatChunk::Other => before,
            }
        }
    }
}

impl Summarized {
    /// Nothing has come yet.
    pub fn new() -> (r: Summarized)
        ensures
            r.text@.len() == 0,
            r.prefill is None,
    {
        Summarized { text: String::new(), prefill: None }
    }

    /// Takes the next piece of a reply; says whether more is to be waited for.
    pub fn take(&mut self, chunk: &ChatChunk) -> (more: bool)
        ensures
            match *chunk {
                ChatChunk::Text(t) => {
                    &&& final(self).text@ == old(self).text@ + t@
                    &&& final(self).prefill == old(self).prefill
                    &&& more
                },
                ChatChunk::Usage { prompt_tokens, prefill } => {
                    &&& final(self).text@ == old(self).text@
                    &&& final(self).prefill == prefill
                    &&& more
                },
                ChatChunk::Finished => {
                    &&& final(self).text@ == old(self).text@
                    &&& final(self).prefill == old(self).prefill
                    &&& !more
                },
                ChatChunk::Other => {
                    &&& final(self).text@ == old(self).text@
                    &&& final(self).prefill == old(self).prefill
                    &&& more
                },
            },
    {
        match chunk {
            ChatChunk::Text(t) => {
                self.text.push_str(t.as_str());
                true
            },
            ChatChunk::Usage { prompt_tokens: _, prefill } => {
                self.prefill = *prefill;
                true
            },
            ChatChunk::Finished => false,
            ChatChunk::Other => true,
        }
    }
}

/// What comes of a whole reply.
pub fn collect(chunks: &Vec<ChatChunk>) -> (r: Summarized)
    ensures
        ({
            let all = heard(chunks@, chunks@.len() as int);
            r.text@ == all.0 && r.prefill == all.1
        }),
{
    let mut r: Summarized = Summarized::new();
    assert(r.text@ =~= Seq::<char>::empty());
    let mut i: usize = 0;
    let mut more: bool = true;
    while i < chunks.len() && more
        invariant
            i <= chunks.len(),
            ({
                let all = heard(chunks@, i as int);
                r.text@ == all.0 && r.prefill == all.1 && more == !all.2
            }),
        decreases chunks.len() - i,
    {
        more = r.take(&chunks[i]);
        i = i + 1;
    }
    proof {
        nothing_is_heard_after_the_end(chunks@, i as int, chunks@.len() as int);
    }
    r
}

/// What comes after the end of a reply changes nothing.
pub proof fn nothing_is_heard_after_the_end(chunks: Seq<ChatChunk>, n: int, m: int)
    requires
        0 <= n <= m,
        n == m || heard(chunks, n).2,
    ensures
        heard(chunks, m) == heard(chunks, n),
    decreases m,
{
    if n < m {
        nothing_is_heard_after_the_end(chunks, n, m - 1);
    }
}

/// How the attempt to sum a page up ended.
#[derive(Debug)]
pub enum SummaryEnd {
    Done(Summarized),
    /// The call was cancelled while it waited for its turn.
    Cancelled,
    TimedOut,
    /// The engine gave no reply.
    Failed(String),
}

/// What has come of an attempt to sum a page up, or why nothing has.
pub fn summary_result(end: SummaryEnd, loc: &Locale) -> (r: Result<Summarized, String>)
    ensures
        match end {
            SummaryEnd::Done(s) => r == Ok::<Summarized, String>(s),
            SummaryEnd::Cancelled => r matches Err(e) && e@ == loc.text(
                "tool.fetch_url.err.summary_cancelled"@,
            ),
            SummaryEnd::TimedOut => r matches Err(e) && e@ == loc.text(
                "tool.fetch_url.err.summary_timeout"@,
            ),
            SummaryEnd::Failed(why) => r matches Err(e) && e@ == why@,
        },
{
    match end {
        SummaryEnd::Done(s) => Ok(s),
        SummaryEnd::Cancelled => Err(text::owned(loc.t("tool.fetch_url.err.summary_cancelled"))),
        SummaryEnd::TimedOut => Err(text::owned(loc.t("tool.fetch_url.err.summary_timeout"))),
        SummaryEnd::Failed(why) => Err(why),
    }
}

} // verus!
