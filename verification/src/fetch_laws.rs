//! What is read of a page and what is answered, said of the response itself.

use vstd::prelude::*;
use crate::attachment::Attachment;
use crate::fetch;
use crate::fetch::{ChatChunk, PageView, Summarized};
use crate::i18n::Locale;
use crate::sampling;
use crate::text;
use crate::text_laws;

verus! {

// ---------- plain text or a page ----------

/// `c` is the small letter or sign `w`, or the capital of it.
pub open spec fn any_case(c: char, w: char) -> bool {
    c == w || 'a' <= w <= 'z' && c as int == w as int - 32
}

/// A word stands somewhere in a content type, in any letter case.
pub open spec fn mentions(content_type: Seq<char>, word: Seq<char>) -> bool {
    exists|i: int| #[trigger] mentions_at(content_type, word, i)
}

pub open spec fn mentions_at(content_type: Seq<char>, word: Seq<char>, i: int) -> bool {
    0 <= i && i + word.len() <= content_type.len() && forall|j: int|
        0 <= j < word.len() ==> any_case(content_type[i + j], #[trigger] word[j])
}

spec fn has_no_capital(w: Seq<char>) -> bool {
    forall|j: int| 0 <= j < w.len() ==> !('A' <= #[trigger] w[j] <= 'Z')
}

proof fn mentioned_is_found(content_type: Seq<char>, word: Seq<char>)
    requires
        has_no_capital(word),
    ensures
        mentions(content_type, word) <==> text::occurs(text::ascii_lowered(content_type), word),
{
    let low = text::ascii_lowered(content_type);
    if mentions(content_type, word) {
        let i = choose|i: int| #[trigger] mentions_at(content_type, word, i);
        assert(low.subrange(i, i + word.len()) =~= word) by {
            assert forall|j: int| 0 <= j < word.len() implies low.subrange(i, i + word.len())[j]
                == word[j] by {
                assert(any_case(content_type[i + j], word[j]));
                assert(!('A' <= word[j] <= 'Z'));
                assert(low[i + j] == text::ascii_lower(content_type[i + j]));
            }
        }
        assert(text::stands_at(low, word, i));
    }
    if text::occurs(low, word) {
        let i = choose|i: int| text::stands_at(low, word, i);
        assert forall|j: int| 0 <= j < word.len() implies any_case(
            content_type[i + j],
            #[trigger] word[j],
        ) by {
            assert(low.subrange(i, i + word.len())[j] == word[j]);
            assert(low[i + j] == text::ascii_lower(content_type[i + j]));
        }
        assert(mentions_at(content_type, word, i));
    }
}

proof fn type_words_are_small()
    ensures
        has_no_capital("text/plain"@),
        has_no_capital("json"@),
        has_no_capital("javascript"@),
        has_no_capital("csv"@),
        has_no_capital("html"@),
        has_no_capital("xml"@),
{
    reveal_strlit("text/plain");
    reveal_strlit("json");
    reveal_strlit("javascript");
    reveal_strlit("csv");
    reveal_strlit("html");
    reveal_strlit("xml");
    assert("text/plain"@[0] == 't' && "text/plain"@[1] == 'e' && "text/plain"@[2] == 'x' && "text/plain"@[3] == 't' && "text/plain"@[4] == '/' && "text/plain"@[5] == 'p' && "text/plain"@[6] == 'l' && "text/plain"@[7] == 'a' && "text/plain"@[8] == 'i' && "text/plain"@[9] == 'n' && "text/plain"@.len() == 10);
    assert("json"@[0] == 'j' && "json"@[1] == 's' && "json"@[2] == 'o' && "json"@[3] == 'n' && "json"@.len() == 4);
    assert("javascript"@[0] == 'j' && "javascript"@[1] == 'a' && "javascript"@[2] == 'v' && "javascript"@[3] == 'a' && "javascript"@[4] == 's' && "javascript"@[5] == 'c' && "javascript"@[6] == 'r' && "javascript"@[7] == 'i' && "javascript"@[8] == 'p' && "javascript"@[9] == 't' && "javascript"@.len() == 10);
    assert("csv"@[0] == 'c' && "csv"@[1] == 's' && "csv"@[2] == 'v' && "csv"@.len() == 3);
    assert("html"@[0] == 'h' && "html"@[1] == 't' && "html"@[2] == 'm' && "html"@[3] == 'l' && "html"@.len() == 4);
    assert("xml"@[0] == 'x' && "xml"@[1] == 'm' && "xml"@[2] == 'l' && "xml"@.len() == 3);
}

proof fn types_are_found(content_type: Seq<char>)
    ensures
        mentions(content_type, "text/plain"@) <==> text::occurs(
            text::ascii_lowered(content_type),
            "text/plain"@,
        ),
        mentions(content_type, "json"@) <==> text::occurs(
            text::ascii_lowered(content_type),
            "json"@,
        ),
        mentions(content_type, "javascript"@) <==> text::occurs(
            text::ascii_lowered(content_type),
            "javascript"@,
        ),
        mentions(content_type, "csv"@) <==> text::occurs(text::ascii_lowered(content_type), "csv"@),
        mentions(content_type, "html"@) <==> text::occurs(
            text::ascii_lowered(content_type),
            "html"@,
        ),
        mentions(content_type, "xml"@) <==> text::occurs(text::ascii_lowered(content_type), "xml"@),
{
    type_words_are_small();
    mentioned_is_found(content_type, "text/plain"@);
    mentioned_is_found(content_type, "json"@);
    mentioned_is_found(content_type, "javascript"@);
    mentioned_is_found(content_type, "csv"@);
    mentioned_is_found(content_type, "html"@);
    mentioned_is_found(content_type, "xml"@);
}

/// A text as it stands: without its margins, up to the most that is taken, and known to
/// be cut where there is more.
pub open spec fn as_it_stands(p: PageView, body: Seq<char>) -> bool {
    let inner = text::trimmed(body);
    &&& p.title is None
    &&& inner.len() <= 400_000 ==> p.text == inner && !p.truncated
    &&& inner.len() > 400_000 ==> p.text == inner.subrange(0, 400_000) && p.truncated
}

/// A response of plain text, JSON, JavaScript or CSV, by its content type in any letter
/// case, is given back as it stands: there is a text, it is the body's own, and it has no
/// title. So it is with every body that is not blank.
pub proof fn plain_text_is_given_back(
    content_type: Seq<char>,
    body: Seq<char>,
    rich: Seq<char>,
    name: Option<Seq<char>>,
    at: int,
)
    requires
        mentions(content_type, "text/plain"@) || mentions(content_type, "json"@) || mentions(
            content_type,
            "javascript"@,
        ) || mentions(content_type, "csv"@),
        0 <= at < body.len() && !text::is_white(body[at]),
    ensures
        fetch::page_in(content_type, body, rich, name) matches Some(p) && as_it_stands(p, body)
            && p.text.len() > 0,
{
    types_are_found(content_type);
    text_laws::only_blank_texts_vanish(body);
    let inner = text::trimmed(body);
    if inner.len() > 400_000 {
        assert(inner.take(400_000) =~= inner.subrange(0, 400_000));
    }
}

/// A body that begins with an opening brace or bracket is given back as it stands too,
/// unless its content type says that it is a page.
pub proof fn json_is_given_back(
    content_type: Seq<char>,
    margin: Seq<char>,
    rest: Seq<char>,
    c: char,
    rich: Seq<char>,
    name: Option<Seq<char>>,
)
    requires
        c == '{' || c == '[',
        forall|i: int| 0 <= i < margin.len() ==> text::is_white(#[trigger] margin[i]),
        !mentions(content_type, "html"@) && !mentions(content_type, "xml"@),
    ensures
        fetch::page_in(content_type, margin.push(c) + rest, rich, name) matches Some(p)
            && as_it_stands(p, margin.push(c) + rest) && p.text[0] == c,
{
    types_are_found(content_type);
    let body = margin.push(c) + rest;
    let n = text_laws::only_margins_are_trimmed(body);
    assert(body[margin.len() as int] == c);
    assert(!text::is_white(c));
    assert(n.0 <= margin.len()) by {
        if n.0 > margin.len() {
            assert(text::is_white(body[margin.len() as int]));
        }
    }
    if n.0 < margin.len() {
        assert(body[n.0] == margin[n.0]);
        assert(n.0 < n.1) by {
            if n.1 <= n.0 {
                assert(text::is_white(body[margin.len() as int]));
            }
        }
    }
    assert(n.0 == margin.len());
    assert(n.1 > n.0) by {
        if n.1 <= n.0 {
            assert(text::is_white(body[n.0]));
        }
    }
    let inner = text::trimmed(body);
    assert(inner[0] == c);
    if inner.len() > 400_000 {
        assert(inner.take(400_000) =~= inner.subrange(0, 400_000));
    }
}

/// Anything else is read as a page: by its readable elements, under its own name, and
/// known to be cut where they fill all that is taken. Where they say nothing there is
/// nothing to read.
pub proof fn a_page_is_read_by_its_elements(
    content_type: Seq<char>,
    body: Seq<char>,
    rich: Seq<char>,
    name: Option<Seq<char>>,
)
    requires
        !mentions(content_type, "text/plain"@) && !mentions(content_type, "json"@) && !mentions(
            content_type,
            "javascript"@,
        ) && !mentions(content_type, "csv"@),
        mentions(content_type, "html"@) || mentions(content_type, "xml"@) || text::trimmed(
            body,
        ).len() == 0 || text::trimmed(body)[0] != '{' && text::trimmed(body)[0] != '[',
    ensures
        rich.len() == 0 ==> fetch::page_in(content_type, body, rich, name) is None,
        rich.len() > 0 ==> fetch::page_in(content_type, body, rich, name) == Some(
            PageView { text: rich, truncated: rich.len() >= 400_000, title: name },
        ),
{
    types_are_found(content_type);
}

/// The elements that are read are headings, paragraphs, list items and code.
pub proof fn the_readable_elements()
    ensures
        fetch::READABLE@ == "h1, h2, h3, h4, h5, h6, p, li, pre"@,
{
}

proof fn tags_differ()
    ensures
        "h1"@ != "h2"@ && "h1"@ != "h3"@ && "h1"@ != "h4"@ && "h1"@ != "h5"@ && "h1"@ != "h6"@,
        "h2"@ != "h3"@ && "h2"@ != "h4"@ && "h2"@ != "h5"@ && "h2"@ != "h6"@,
        "h3"@ != "h4"@ && "h3"@ != "h5"@ && "h3"@ != "h6"@,
        "h4"@ != "h5"@ && "h4"@ != "h6"@ && "h5"@ != "h6"@,
        "h1"@ != "pre"@ && "h2"@ != "pre"@ && "h3"@ != "pre"@,
        "h4"@ != "pre"@ && "h5"@ != "pre"@ && "h6"@ != "pre"@,
{
    reveal_strlit("h1");
    reveal_strlit("h2");
    reveal_strlit("h3");
    reveal_strlit("h4");
    reveal_strlit("h5");
    reveal_strlit("h6");
    reveal_strlit("pre");
    assert("h1"@[1] == '1' && "h2"@[1] == '2' && "h3"@[1] == '3');
    assert("h4"@[1] == '4' && "h5"@[1] == '5' && "h6"@[1] == '6' && "pre"@[1] == 'r');
}

/// A heading is read under as many marks as its level, code between fences as it stands,
/// and any other element by its words.
pub proof fn each_element_is_read_in_its_way(tag: Seq<char>, said: Seq<char>)
    ensures
        fetch::fragment("h1"@, said) == "# "@ + text::flattened(said),
        fetch::fragment("h2"@, said) == "## "@ + text::flattened(said),
        fetch::fragment("h3"@, said) == "### "@ + text::flattened(said),
        fetch::fragment("h4"@, said) == "#### "@ + text::flattened(said),
        fetch::fragment("h5"@, said) == "##### "@ + text::flattened(said),
        fetch::fragment("h6"@, said) == "###### "@ + text::flattened(said),
        fetch::fragment("pre"@, said) == "```\n"@ + text::trimmed(said) + "\n```"@,
        tag != "h1"@ && tag != "h2"@ && tag != "h3"@ && tag != "h4"@ && tag != "h5"@ && tag != "h6"@
            && tag != "pre"@ ==> fetch::fragment(tag, said) == text::flattened(said),
{
    tags_differ();
}

/// The elements come in their order, each that is not blank on lines of its own; what
/// comes of them is cut at its end.
pub proof fn one_element_more(
    found: Seq<(Seq<char>, Seq<char>)>,
    tag: Seq<char>,
    said: Seq<char>,
    max: int,
)
    requires
        max >= 0,
    ensures
        ({
            let n = found.len() as int;
            let more = found.push((tag, said));
            let before = fetch::filled(found, n);
            &&& fetch::filled(more, n + 1) == if (forall|i: int|
                0 <= i < said.len() ==> text::is_white(#[trigger] said[i])) {
                before
            } else {
                before.push(fetch::fragment(tag, said))
            }
            &&& fetch::filled(found, 0) == Seq::<Seq<char>>::empty()
            &&& fetch::rich_from(Some(found), max).is_prefix_of(text::joined(before, "\n"@))
            &&& fetch::rich_from(Some(found), max).len() == if text::joined(before, "\n"@).len()
                <= max {
                text::joined(before, "\n"@).len() as int
            } else {
                max
            }
            &&& fetch::rich_from(None, max).len() == 0
        }),
{
    let n = found.len() as int;
    same_filled(found, found.push((tag, said)), n);
    text_laws::only_blank_texts_vanish(said);
}

proof fn same_filled(
    a: Seq<(Seq<char>, Seq<char>)>,
    b: Seq<(Seq<char>, Seq<char>)>,
    n: int,
)
    requires
        n <= a.len(),
        n <= b.len(),
        forall|i: int| 0 <= i < n ==> a[i] == b[i],
    ensures
        fetch::filled(a, n) == fetch::filled(b, n),
    decreases n,
{
    if n > 0 {
        same_filled(a, b, n - 1);
    }
}

/// A page goes by its first heading; by its title where that heading says nothing, or
/// there is none; and by nothing else. A name is on one line, and of 60 characters at
/// most.
pub proof fn a_page_goes_by_its_heading(
    headings: Seq<(Seq<char>, Seq<char>)>,
    titles: Seq<(Seq<char>, Seq<char>)>,
)
    ensures
        headings.len() > 0 && text::words_of(headings[0].1).len() > 0 ==> fetch::name_from(
            Some(headings),
            Some(titles),
        ) == Some(
            text::trimmed(text::head_of(text::joined(text::words_of(headings[0].1), " "@), 60)),
        ),
        (headings.len() == 0 || text::words_of(headings[0].1).len() == 0) && titles.len() > 0
            && text::words_of(titles[0].1).len() > 0 ==> fetch::name_from(
            Some(headings),
            Some(titles),
        ) == Some(
            text::trimmed(text::head_of(text::joined(text::words_of(titles[0].1), " "@), 60)),
        ),
        (headings.len() == 0 || text::words_of(headings[0].1).len() == 0) && (titles.len() == 0
            || text::words_of(titles[0].1).len() == 0) ==> fetch::name_from(
            Some(headings),
            Some(titles),
        ) is None,
        fetch::name_from(Some(headings), Some(titles)) matches Some(name) ==> 0 < name.len() <= 60,
{
    if headings.len() > 0 {
        words_make_a_name(headings[0].1);
    }
    if titles.len() > 0 {
        words_make_a_name(titles[0].1);
    }
}

proof fn words_make_a_name(said: Seq<char>)
    ensures
        ({
            let name = text::trimmed(text::head_of(text::flattened(said), 60));
            name.len() <= 60 && (name.len() > 0 <==> text::words_of(said).len() > 0)
        }),
{
    let words = text::words_of(said);
    let flat = text::flattened(said);
    let cut = text::head_of(flat, 60);
    let n = text_laws::only_margins_are_trimmed(cut);
    text_laws::words_are_not_white(said);
    text_laws::only_blank_texts_vanish(cut);
    if words.len() > 0 {
        first_word_leads(words);
        assert(words[0].len() > 0);
        assert(!text::is_white(words[0][0]));
        assert(flat[0] == words[0][0]);
        assert(cut[0] == flat[0]);
        assert(!text::is_white(cut[0]));
    }
}

proof fn first_word_leads(words: Seq<Seq<char>>)
    requires
        words.len() > 0,
        words[0].len() > 0,
    ensures
        text::joined(words, " "@).len() > 0,
        text::joined(words, " "@)[0] == words[0][0],
    decreases words.len(),
{
    if words.len() > 1 {
        first_word_leads(words.drop_last());
    }
}

// ---------- addresses ----------

/// The segments of an address are what stands between its slashes behind the scheme, in
/// their order: with one more at its end there is one more of them. A query or a
/// fragment behind it changes nothing.
pub proof fn one_segment_more(
    scheme: Seq<char>,
    path: Seq<char>,
    segment: Seq<char>,
    tail: Seq<char>,
)
    requires
        forall|i: int| !text::stands_at(scheme + "://"@, "://"@, i) || i == scheme.len(),
        forall|i: int| 0 <= i < path.len() ==> #[trigger] path[i] != '?' && path[i] != '#',
        segment.len() > 0,
        forall|i: int|
            0 <= i < segment.len() ==> #[trigger] segment[i] != '?' && segment[i] != '#'
                && segment[i] != '/',
        tail.len() > 0 && (tail[0] == '?' || tail[0] == '#'),
    ensures
        fetch::segments_of(scheme + "://"@ + segment) == seq![segment],
        fetch::segments_of(scheme + "://"@ + path.push('/') + segment) == fetch::segments_of(
            scheme + "://"@ + path,
        ).push(segment),
        fetch::segments_of(scheme + "://"@ + path + tail) == fetch::segments_of(
            scheme + "://"@ + path,
        ),
{
    let e = Seq::<char>::empty();
    path_of_address(scheme, segment, e);
    path_of_address(scheme, path, e);
    path_of_address(scheme, path, tail);
    let longer = path.push('/') + segment;
    path_of_address(scheme, longer, e);
    assert(scheme + "://"@ + path.push('/') + segment =~= scheme + "://"@ + longer);
    assert(scheme + "://"@ + path + e =~= scheme + "://"@ + path);
    assert(scheme + "://"@ + longer + e =~= scheme + "://"@ + longer);
    assert(scheme + "://"@ + segment + e =~= scheme + "://"@ + segment);
    assert(!segment.contains('/'));
    text::split_without_separator(segment, '/');
    text::split_at_separator(path, '/', segment);
    let parts = text::split(path, '/');
    assert(text::split(longer, '/') =~= parts.push(segment));
    let n = parts.len() as int;
    same_parts(parts, parts.push(segment), n);
    reveal_with_fuel(fetch::filled_parts, 2);
    assert(fetch::filled_parts(seq![segment], 1) =~= seq![segment]);
}

proof fn same_parts(a: Seq<Seq<char>>, b: Seq<Seq<char>>, n: int)
    requires
        n <= a.len(),
        n <= b.len(),
        forall|i: int| 0 <= i < n ==> a[i] == b[i],
    ensures
        fetch::filled_parts(a, n) == fetch::filled_parts(b, n),
    decreases n,
{
    if n > 0 {
        same_parts(a, b, n - 1);
    }
}

proof fn path_of_address(scheme: Seq<char>, path: Seq<char>, tail: Seq<char>)
    requires
        forall|i: int| !text::stands_at(scheme + "://"@, "://"@, i) || i == scheme.len(),
        forall|i: int| 0 <= i < path.len() ==> #[trigger] path[i] != '?' && path[i] != '#',
        tail.len() == 0 || tail[0] == '?' || tail[0] == '#',
    ensures
        ({
            let parts = text::split(path, '/');
            fetch::segments_of(scheme + "://"@ + path + tail) == fetch::filled_parts(
                parts,
                parts.len() as int,
            )
        }),
{
    let mark = "://"@;
    reveal_strlit("://");
    let head = scheme + mark;
    let url = head + path + tail;
    text::find_is_first(url, mark, 0);
    assert(url.subrange(scheme.len() as int, scheme.len() as int + 3) =~= mark);
    assert(text::stands_at(url, mark, scheme.len() as int));
    let at = text::find_from(url, mark, 0);
    assert(at <= scheme.len());
    if at < scheme.len() {
        assert(head.subrange(at, at + 3) =~= url.subrange(at, at + 3));
        assert(text::stands_at(head, mark, at));
    }
    let rest = url.skip(at + 3);
    assert(rest =~= path + tail);
    path_ends_there(rest, 0, path.len() as int);
    assert(rest.take(path.len() as int) =~= path);
}

proof fn path_ends_there(s: Seq<char>, i: int, end: int)
    requires
        0 <= i <= end <= s.len(),
        forall|k: int| i <= k < end ==> #[trigger] s[k] != '?' && s[k] != '#',
        end == s.len() || s[end] == '?' || s[end] == '#',
    ensures
        fetch::path_end(s, i) == end,
    decreases end - i,
{
    if i < end {
        path_ends_there(s, i + 1, end);
    }
}

/// A page keeps the name that is its own as long as no other page bears it; where one
/// does, and its address has segments, the last of them is tried behind it.
pub proof fn a_free_name_is_kept(base: Seq<char>, url: Seq<char>, files: Seq<Attachment>)
    ensures
        (forall|i: int|
            0 <= i < files.len() ==> text::ascii_lowered((#[trigger] files[i]).name@)
                != text::ascii_lowered(base) || text::ascii_lowered(files[i].source@)
                == text::ascii_lowered(url)) ==> fetch::name_for(base, url, files) == base,
        (exists|i: int|
            0 <= i < files.len() && text::ascii_lowered((#[trigger] files[i]).name@)
                == text::ascii_lowered(base) && text::ascii_lowered(files[i].source@)
                != text::ascii_lowered(url)) && fetch::segments_of(url).len() > 0 ==> {
            let next = base + " — "@ + fetch::segments_of(url).last();
            !fetch::is_taken(next, url, files) ==> fetch::name_for(base, url, files) == next
        },
{
    assert(fetch::candidate(base, url, 0) == base);
    if exists|i: int|
        0 <= i < files.len() && text::ascii_lowered((#[trigger] files[i]).name@)
            == text::ascii_lowered(base) && text::ascii_lowered(files[i].source@)
            != text::ascii_lowered(url) {
        let i = choose|i: int|
            0 <= i < files.len() && text::ascii_lowered((#[trigger] files[i]).name@)
                == text::ascii_lowered(base) && text::ascii_lowered(files[i].source@)
                != text::ascii_lowered(url);
        assert(fetch::same_word(files[i].name@, base));
        assert(fetch::is_taken(base, url, files));
        assert(fetch::name_for(base, url, files) == fetch::first_free(base, url, files, 1));
        if fetch::segments_of(url).len() > 0 {
            assert(fetch::candidate(base, url, 1) == base + " — "@ + fetch::segments_of(
                url,
            ).last());
        }
    }
}

/// An address is one of the web by how it begins.
pub proof fn web_addresses(rest: Seq<char>)
    ensures
        fetch::is_web("http://"@ + rest),
        fetch::is_web("https://"@ + rest),
        forall|url: Seq<char>| #[trigger] fetch::is_web(url) ==> "http://"@.is_prefix_of(url)
            || "https://"@.is_prefix_of(url),
{
    let a = "http://"@ + rest;
    let b = "https://"@ + rest;
    assert(a.subrange(0, "http://"@.len() as int) =~= "http://"@);
    assert(b.subrange(0, "https://"@.len() as int) =~= "https://"@);
}

// ---------- what is answered ----------

/// A page that fits is answered with its summary where one was asked for and says
/// something; else with the whole page under a heading with its address. A page that is
/// not whole is said not to be.
pub proof fn a_page_that_fits_is_answered(
    url: Seq<char>,
    summarize: bool,
    summary: Option<Summarized>,
    page: PageView,
    loc: Locale,
)
    ensures
        ({
            let r = fetch::inline_text(url, summarize, summary, page, loc);
            let more = if page.truncated {
                "\n"@ + loc.text("tool.fetch_url.result.truncated"@)
            } else {
                Seq::empty()
            };
            let said = summary matches Some(s) && exists|i: int|
                0 <= i < s.text@.len() && !text::is_white(#[trigger] s.text@[i]);
            &&& summarize && said ==> r == summary->0.text@ + more
            &&& summarize && !said ==> r == loc.text1(
                "tool.fetch_url.result.content_no_summary"@,
                "url"@,
                url,
            ) + "\n"@ + page.text + more
            &&& !summarize ==> r == loc.text1("tool.fetch_url.result.content"@, "url"@, url)
                + "\n"@ + page.text + more
        }),
{
    let more = if page.truncated {
        "\n"@ + loc.text("tool.fetch_url.result.truncated"@)
    } else {
        Seq::empty()
    };
    if summary is Some {
        text_laws::only_blank_texts_vanish(summary->0.text@);
    }
    let out = if summarize && fetch::has_words(summary) {
        summary->0.text@
    } else if summarize {
        loc.text1("tool.fetch_url.result.content_no_summary"@, "url"@, url) + "\n"@ + page.text
    } else {
        loc.text1("tool.fetch_url.result.content"@, "url"@, url) + "\n"@ + page.text
    };
    assert(fetch::noted(out, page.truncated, loc) =~= out + more);
}

/// A page that is attached is answered with the summary of its beginning, where there is
/// one that says something, and then with where the page is and how many pages it has.
pub proof fn a_page_that_is_attached_is_answered(
    name: Seq<char>,
    pages: nat,
    summarize: bool,
    summary: Option<Summarized>,
    truncated: bool,
    loc: Locale,
)
    ensures
        ({
            let r = fetch::attached_answer(name, pages, summarize, summary, truncated, loc);
            let place = loc.text2(
                "tool.fetch_url.result.attached"@,
                "name"@,
                name,
                "pages"@,
                text::decimal(pages),
            );
            let more = if truncated {
                "\n"@ + loc.text("tool.fetch_url.result.truncated"@)
            } else {
                Seq::empty()
            };
            let said = summary matches Some(s) && exists|i: int|
                0 <= i < s.text@.len() && !text::is_white(#[trigger] s.text@[i]);
            &&& summarize && said ==> r == text::trimmed(summary->0.text@) + "\n"@ + place + more
            &&& !(summarize && said) ==> r == place + more
        }),
{
    if summary is Some {
        text_laws::only_blank_texts_vanish(summary->0.text@);
    }
    let place = loc.text2(
        "tool.fetch_url.result.attached"@,
        "name"@,
        name,
        "pages"@,
        text::decimal(pages),
    );
    let more = if truncated {
        "\n"@ + loc.text("tool.fetch_url.result.truncated"@)
    } else {
        Seq::empty()
    };
    let said = if summarize && fetch::has_words(summary) {
        text::trimmed(summary->0.text@) + "\n"@
    } else {
        Seq::empty()
    };
    assert(fetch::noted(said + place, truncated, loc) =~= said + place + more);
    assert(Seq::<char>::empty() + place =~= place);
}

/// A summary has as many tokens as are set, and never more than 768; it is made without
/// reasoning; every other parameter stays as it is.
pub proof fn a_summary_is_bounded(cfg: Seq<Option<Seq<char>>>, i: int)
    requires
        cfg.len() > sampling::MAX_TOKENS,
        cfg.len() > sampling::REASONING_BUDGET,
        0 <= i < cfg.len(),
    ensures
        fetch::summary_cap(cfg) <= 768,
        cfg[sampling::MAX_TOKENS as int] is None ==> fetch::summary_cap(cfg) == 768,
        cfg[sampling::MAX_TOKENS as int] matches Some(t) ==> (text::uint_of(t) matches Some(m) ==> m
            <= 768 ==> fetch::summary_cap(cfg) == m),
        i != sampling::MAX_TOKENS && i != sampling::REASONING_BUDGET ==> fetch::summary_sampling(
            cfg,
        )[i] == cfg[i],
        fetch::summary_sampling(cfg)[sampling::REASONING_BUDGET as int] == Some("0"@),
        fetch::summary_sampling(cfg)[sampling::MAX_TOKENS as int] == Some(
            text::decimal(fetch::summary_cap(cfg) as nat),
        ),
{
}

/// What a reply says is its pieces of text in their order, up to its end; how long the
/// prompt took is what was said of it last.
pub proof fn one_piece_more_is_heard(chunks: Seq<ChatChunk>, n: int)
    requires
        0 <= n < chunks.len(),
    ensures
        fetch::heard(chunks, 0) == (Seq::<char>::empty(), None::<crate::outcome::Prefill>, false),
        fetch::heard(chunks, n).2 ==> fetch::heard(chunks, n + 1) == fetch::heard(chunks, n),
        !fetch::heard(chunks, n).2 ==> match chunks[n] {
            ChatChunk::Text(t) => fetch::heard(chunks, n + 1) == (
                fetch::heard(chunks, n).0 + t@,
                fetch::heard(chunks, n).1,
                false,
            ),
            ChatChunk::Usage { prompt_tokens, prefill } => fetch::heard(chunks, n + 1) == (
                fetch::heard(chunks, n).0,
                prefill,
                false,
            ),
            ChatChunk::Finished => fetch::heard(chunks, n + 1) == (
                fetch::heard(chunks, n).0,
                fetch::heard(chunks, n).1,
                true,
            ),
            ChatChunk::Other => fetch::heard(chunks, n + 1) == fetch::heard(chunks, n),
        },
{
}

} // verus!
