//! `code_grep`: searching the attached project by a regular expression.

use vstd::prelude::*;
use crate::code::look;
use crate::i18n::Locale;
use crate::json::Json;
use crate::outcome::ToolOutcome;
use crate::text;

verus! {

broadcast use text::views_push;

// ---------- the outside: regular expressions and letter case ----------

/// A compiled regular expression.
#[verifier::external_type_specification]
#[verifier::external_body]
pub struct ExRegex(regex::Regex);

/// Whether a character is an upper-case letter, by std's Unicode tables.
pub uninterp spec fn is_upper(c: char) -> bool;

/// `char::is_uppercase`.
#[verifier::external_body]
fn upper(c: char) -> (r: bool)
    ensures
        r == is_upper(c),
{
    c.is_uppercase()
}

/// What the `regex` crate finds wrong with a pattern; nothing where it compiles.
pub uninterp spec fn pattern_error(pattern: Seq<char>, any_case: bool) -> Option<Seq<char>>;

/// Whether a pattern matches somewhere in a text, by the `regex` crate.
pub uninterp spec fn pattern_matches(pattern: Seq<char>, any_case: bool, text: Seq<char>) -> bool;

/// A pattern that compiled. Only [`compile`] makes one.
#[derive(Debug)]
pub struct Matcher {
    pattern: String,
    any_case: bool,
    re: regex::Regex,
}

impl Matcher {
    pub closed spec fn pattern_spec(self) -> Seq<char> {
        self.pattern@
    }

    pub closed spec fn any_case_spec(self) -> bool {
        self.any_case
    }

    /// The pattern matches somewhere in `line`.
    pub open spec fn finds(self, line: Seq<char>) -> bool {
        pattern_matches(self.pattern_spec(), self.any_case_spec(), line)
    }
}

/// `regex::RegexBuilder::build`, with `case_insensitive` set to `any_case`. Whether
/// the pattern compiles, and what the error says, depends on the two arguments alone.
#[verifier::external_body]
pub(crate) fn compile(pattern: &str, any_case: bool) -> (r: Result<Matcher, String>)
    ensures
        match r {
            Ok(m) => pattern_error(pattern@, any_case) is None && m.pattern_spec() == pattern@
                && m.any_case_spec() == any_case,
            Err(e) => pattern_error(pattern@, any_case) == Some(e@),
        },
{
    match regex::RegexBuilder::new(pattern).case_insensitive(any_case).build() {
        Ok(re) => Ok(Matcher { pattern: pattern.to_string(), any_case, re }),
        Err(err) => Err(err.to_string()),
    }
}

/// `regex::Regex::is_match` of the compiled pattern.
#[verifier::external_body]
fn is_match(m: &Matcher, line: &str) -> (r: bool)
    ensures
        r == pattern_matches(m.pattern_spec(), m.any_case_spec(), line@),
{
    m.re.is_match(line)
}

/// The walk's filter by one glob, of the `ignore` crate.
#[verifier::external_type_specification]
#[verifier::external_body]
pub struct ExOverride(ignore::overrides::Override);

/// What the `ignore` crate finds wrong with a glob; nothing where it compiles.
pub uninterp spec fn glob_error(glob: Seq<char>) -> Option<Seq<char>>;

/// A glob that compiled, below the directory it speaks of. Only [`compile_glob`] makes
/// one.
#[derive(Debug)]
pub struct Filter {
    root: String,
    glob: String,
    /// What the walk is handed.
    pub over: ignore::overrides::Override,
}

impl Filter {
    pub closed spec fn root_spec(self) -> Seq<char> {
        self.root@
    }

    pub closed spec fn glob_spec(self) -> Seq<char> {
        self.glob@
    }
}

/// `ignore::overrides::OverrideBuilder` with one glob added, built below `root`.
/// Whether the glob compiles, and what the error says, depends on the glob alone. Which
/// paths the filter lets through is the walk's affair and is not said here.
#[verifier::external_body]
fn compile_glob(root: &str, glob: &str) -> (r: Result<Filter, String>)
    ensures
        match r {
            Ok(f) => glob_error(glob@) is None && f.root_spec() == root@ && f.glob_spec() == glob@,
            Err(e) => glob_error(glob@) == Some(e@),
        },
{
    let mut builder = ignore::overrides::OverrideBuilder::new(root);
    match builder.add(glob).and_then(|b| b.build()) {
        Ok(over) => Ok(Filter { root: root.to_string(), glob: glob.to_string(), over }),
        Err(err) => Err(err.to_string()),
    }
}

// ---------- arguments ----------

/// What a search is asked for.
#[derive(Debug)]
pub struct GrepArgs {
    pub pattern: String,
    /// The directory to search, where one is given.
    pub path: Option<String>,
    pub glob: Option<String>,
    /// Letter case is passed over.
    pub any_case: bool,
}

/// A pattern without a capital is meant in either case.
pub open spec fn is_any_case(pattern: Seq<char>) -> bool {
    forall|i: int| 0 <= i < pattern.len() ==> !is_upper(#[trigger] pattern[i])
}

fn any_case(pattern: &str) -> (r: bool)
    ensures
        r == is_any_case(pattern@),
{
    let v: Vec<char> = text::chars_of(pattern);
    let mut i: usize = 0;
    while i < v.len()
        invariant
            i <= v.len(),
            v@ == pattern@,
            forall|j: int| 0 <= j < i ==> !is_upper(#[trigger] pattern@[j]),
        decreases v.len() - i,
    {
        if upper(v[i]) {
            assert(is_upper(pattern@[i as int]));
            return false;
        }
        i = i + 1;
    }
    true
}

/// Reads the arguments of a search: it needs a pattern.
pub fn grep_args(args: &Json, loc: &Locale) -> (r: Result<GrepArgs, String>)
    ensures
        match r {
            Ok(g) => {
                &&& look::filled_arg(args@, "pattern"@) == Some(g.pattern@)
                &&& crate::json::opt_str(g.path) == look::filled_arg(args@, "path"@)
                &&& crate::json::opt_str(g.glob) == look::filled_arg(args@, "glob"@)
                &&& g.any_case == is_any_case(g.pattern@)
            },
            Err(e) => look::filled_arg(args@, "pattern"@) is None && e@ == loc.text(
                "tool.code.err.pattern_required"@,
            ),
        },
{
    match look::arg_filled(args, "pattern") {
        Some(pattern) => {
            let insensitive: bool = any_case(pattern.as_str());
            Ok(
                GrepArgs {
                    pattern,
                    path: look::arg_filled(args, "path"),
                    glob: look::arg_filled(args, "glob"),
                    any_case: insensitive,
                },
            )
        },
        None => Err(text::owned(loc.t("tool.code.err.pattern_required"))),
    }
}

/// The answer to a pattern that does not compile.
pub fn bad_pattern(pattern: &str, err: &str, loc: &Locale) -> (r: ToolOutcome)
    ensures
        r.says(loc.text2("tool.code.grep.bad_pattern"@, "pattern"@, pattern@, "err"@, err@)),
{
    ToolOutcome::text(loc.tf2("tool.code.grep.bad_pattern", "pattern", pattern, "err", err))
}

/// The answer to a glob that does not compile.
pub fn bad_glob(glob: &str, err: &str, loc: &Locale) -> (r: ToolOutcome)
    ensures
        r.says(loc.text2("tool.code.grep.bad_glob"@, "glob"@, glob@, "err"@, err@)),
{
    ToolOutcome::text(loc.tf2("tool.code.grep.bad_glob", "glob", glob, "err", err))
}

/// Compiles the pattern of a search. One that does not compile is answered, not
/// failed, so that the next call can do better.
pub fn start(g: &GrepArgs, loc: &Locale) -> (r: Result<Matcher, ToolOutcome>)
    ensures
        match r {
            Ok(m) => pattern_error(g.pattern@, g.any_case) is None && m.pattern_spec()
                == g.pattern@ && m.any_case_spec() == g.any_case,
            Err(o) => pattern_error(g.pattern@, g.any_case) matches Some(e) && o.says(
                loc.text2("tool.code.grep.bad_pattern"@, "pattern"@, g.pattern@, "err"@, e),
            ),
        },
{
    match compile(g.pattern.as_str(), g.any_case) {
        Ok(m) => Ok(m),
        Err(err) => Err(bad_pattern(g.pattern.as_str(), err.as_str(), loc)),
    }
}

/// Compiles the glob of a search, where it has one. One that does not compile is
/// answered, not failed.
pub fn filter(g: &GrepArgs, root: &str, loc: &Locale) -> (r: Result<Option<Filter>, ToolOutcome>)
    ensures
        match r {
            Ok(None) => g.glob is None,
            Ok(Some(f)) => g.glob matches Some(x) && glob_error(x@) is None && f.glob_spec() == x@
                && f.root_spec() == root@,
            Err(o) => g.glob matches Some(x) && glob_error(x@) matches Some(e) && o.says(
                loc.text2("tool.code.grep.bad_glob"@, "glob"@, x@, "err"@, e),
            ),
        },
{
    match &g.glob {
        None => Ok(None),
        Some(glob) => match compile_glob(root, glob.as_str()) {
            Ok(f) => Ok(Some(f)),
            Err(err) => Err(bad_glob(glob.as_str(), err.as_str(), loc)),
        },
    }
}

// ---------- matches ----------

/// A matching line's text, cut after so many characters.
pub open spec fn clipped_hit(line: Seq<char>) -> Seq<char> {
    if line.len() > look::MAX_GREP_LINE {
        line.take(look::MAX_GREP_LINE as int) + "…"@
    } else {
        line
    }
}

/// A matching line's text, cut after so many characters.
pub fn clip_hit(line: &str) -> (r: String)
    ensures
        r@ == clipped_hit(line@),
{
    if text::length(line) > look::MAX_GREP_LINE {
        text::cat2(text::head(line, look::MAX_GREP_LINE).as_str(), "…")
    } else {
        text::owned(line)
    }
}

/// A match as a search shows it: path, line number, text.
pub open spec fn hit_row(prefix: Seq<char>, number: nat, line: Seq<char>) -> Seq<char> {
    prefix + ":"@ + text::decimal(number) + ": "@ + clipped_hit(text::no_right_margin(line))
}

/// The matches of one file.
pub open spec fn hit_rows(lines: Seq<Seq<char>>, matched: Seq<bool>, prefix: Seq<char>) -> Seq<
    Seq<char>,
>
    decreases lines.len(),
{
    if lines.len() == 0 {
        Seq::empty()
    } else {
        let before = hit_rows(lines.drop_last(), matched.drop_last(), prefix);
        if matched.last() {
            before.push(hit_row(prefix, lines.len(), lines.last()))
        } else {
            before
        }
    }
}

/// Adds the matches of one file, by the lines that matched, and says whether the
/// cap left one out.
pub fn scan_lines(lines: &Vec<String>, matched: &Vec<bool>, prefix: &str, hits: &mut Vec<String>)
    -> (stop: bool)
    requires
        lines.len() == matched.len(),
        old(hits)@.len() <= look::MAX_GREP_HITS,
    ensures
        ({
            let all = text::views(old(hits)@) + hit_rows(text::views(lines@), matched@, prefix@);
            &&& text::views(final(hits)@) == look::capped(all, look::MAX_GREP_HITS as int)
            &&& stop == (all.len() > look::MAX_GREP_HITS)
            &&& final(hits)@.len() <= look::MAX_GREP_HITS
        }),
{
    let ghost rows = text::views(lines@);
    let ghost first = text::views(hits@);
    let mut stop: bool = false;
    let mut i: usize = 0;
    assert(hit_rows(rows.take(0), matched@.take(0), prefix@) =~= Seq::<Seq<char>>::empty());
    while i < lines.len()
        invariant
            i <= lines.len(),
            lines.len() == matched.len(),
            rows == text::views(lines@),
            hits@.len() <= look::MAX_GREP_HITS,
            text::views(hits@) =~= look::capped(
                first + hit_rows(rows.take(i as int), matched@.take(i as int), prefix@),
                look::MAX_GREP_HITS as int,
            ),
            stop == (first.len() + hit_rows(
                rows.take(i as int),
                matched@.take(i as int),
                prefix@,
            ).len() > look::MAX_GREP_HITS),
        decreases lines.len() - i,
    {
        proof {
            assert(rows.take(i + 1).drop_last() =~= rows.take(i as int));
            assert(matched@.take(i + 1).drop_last() =~= matched@.take(i as int));
            assert(rows.take(i + 1).last() == lines@[i as int]@);
            assert(hits@.len() == text::views(hits@).len());
        }
        if matched[i] {
            if hits.len() >= look::MAX_GREP_HITS {
                stop = true;
            } else {
                let shown: String = clip_hit(text::trim_end(lines[i].as_str()).as_str());
                let number: String = text::dec_wide(i as u128 + 1);
                hits.push(text::cat5(prefix, ":", number.as_str(), ": ", shown.as_str()));
            }
        }
        i = i + 1;
    }
    assert(rows.take(i as int) =~= rows);
    assert(matched@.take(i as int) =~= matched@);
    stop
}

/// For each line, whether the pattern matches in it.
pub open spec fn found(m: Matcher, lines: Seq<Seq<char>>) -> Seq<bool> {
    lines.map_values(|line: Seq<char>| m.finds(line))
}

fn match_lines(m: &Matcher, lines: &Vec<String>) -> (r: Vec<bool>)
    ensures
        r@ == found(*m, text::views(lines@)),
{
    let mut r: Vec<bool> = Vec::new();
    let mut i: usize = 0;
    while i < lines.len()
        invariant
            i <= lines.len(),
            r@ =~= found(*m, text::views(lines@)).take(i as int),
        decreases lines.len() - i,
    {
        r.push(is_match(m, lines[i].as_str()));
        i = i + 1;
    }
    r
}

/// The matches of a file's text.
pub open spec fn file_hits(m: Matcher, body: Seq<char>, prefix: Seq<char>) -> Seq<Seq<char>> {
    hit_rows(text::lines_of(body), found(m, text::lines_of(body)), prefix)
}

/// Adds one file's matches to `hits`, and says whether the cap left one out.
pub fn scan_text(body: &str, m: &Matcher, prefix: &str, hits: &mut Vec<String>) -> (stop: bool)
    requires
        old(hits)@.len() <= look::MAX_GREP_HITS,
    ensures
        ({
            let all = text::views(old(hits)@) + file_hits(*m, body@, prefix@);
            &&& text::views(final(hits)@) == look::capped(all, look::MAX_GREP_HITS as int)
            &&& stop == (all.len() > look::MAX_GREP_HITS)
            &&& final(hits)@.len() <= look::MAX_GREP_HITS
        }),
{
    let lines: Vec<String> = text::lines(body);
    let matched: Vec<bool> = match_lines(m, &lines);
    assert(text::views(lines@).len() == lines@.len());
    scan_lines(&lines, &matched, prefix, hits)
}

/// A search under way.
#[derive(Debug)]
pub struct Search {
    pub hits: Vec<String>,
    /// A match was left out.
    pub truncated: bool,
    /// How many files were read.
    pub files: u64,
}

impl Search {
    /// No more matches than a search shows.
    pub open spec fn wf(self) -> bool {
        self.hits@.len() <= look::MAX_GREP_HITS && (self.truncated ==> self.hits@.len() > 0) && (
        self.files == 0 ==> self.hits@.len() == 0)
    }

    pub fn new() -> (r: Self)
        ensures
            r.wf(),
            r.hits@.len() == 0,
            !r.truncated,
            r.files == 0,
    {
        Search { hits: Vec::new(), truncated: false, files: 0 }
    }

    /// Adds a file's matches, and says whether the search is over.
    pub fn add_file(&mut self, prefix: &str, body: &str, m: &Matcher) -> (stop: bool)
        requires
            old(self).wf(),
            old(self).files < u64::MAX,
        ensures
            final(self).wf(),
            final(self).files == old(self).files + 1,
            ({
                let all = text::views(old(self).hits@) + file_hits(*m, body@, prefix@);
                &&& text::views(final(self).hits@) == look::capped(
                    all,
                    look::MAX_GREP_HITS as int,
                )
                &&& stop == (all.len() > look::MAX_GREP_HITS)
                &&& final(self).truncated == (old(self).truncated || stop)
            }),
    {
        self.files = self.files + 1;
        let ghost before = self.hits@;
        let stop: bool = scan_text(body, m, prefix, &mut self.hits);
        proof {
            assert(text::views(before).len() == before.len());
            assert(text::views(self.hits@).len() == self.hits@.len());
        }
        if stop {
            self.truncated = true;
        }
        stop
    }
}

/// What `code_grep` answers once the search is over. No match at all, and nothing
/// to search, are two answers.
pub open spec fn grep_text(
    s: Search,
    pattern: Seq<char>,
    glob: Option<Seq<char>>,
    loc: Locale,
) -> Seq<char> {
    let shown_glob = match glob {
        Some(g) => g,
        None => "*"@,
    };
    let head = loc.text2(
        "tool.code.grep.header"@,
        "pattern"@,
        pattern,
        "n"@,
        text::decimal(s.hits@.len()),
    ) + "\n"@ + text::joined(text::views(s.hits@), "\n"@);
    if s.hits@.len() == 0 {
        loc.text2(
            if s.files == 0 {
                "tool.code.grep.nothing_searched"@
            } else {
                "tool.code.grep.empty"@
            },
            "pattern"@,
            pattern,
            "glob"@,
            shown_glob,
        )
    } else if s.truncated {
        head + "\n"@ + loc.text1(
            "tool.code.grep.truncated"@,
            "max"@,
            text::decimal(look::MAX_GREP_HITS as nat),
        )
    } else {
        head
    }
}

/// `code_grep`: the answer, once the search is over.
pub fn grep(s: &Search, g: &GrepArgs, loc: &Locale) -> (r: ToolOutcome)
    ensures
        r.says(grep_text(*s, g.pattern@, crate::json::opt_str(g.glob), *loc)),
{
    if s.hits.len() == 0 {
        let key: &str = if s.files == 0 {
            "tool.code.grep.nothing_searched"
        } else {
            "tool.code.grep.empty"
        };
        let glob: &str = match &g.glob {
            Some(x) => x.as_str(),
            None => "*",
        };
        return ToolOutcome::text(loc.tf2(key, "pattern", g.pattern.as_str(), "glob", glob));
    }
    let n: String = text::dec_usize(s.hits.len());
    let mut out: String = loc.tf2(
        "tool.code.grep.header",
        "pattern",
        g.pattern.as_str(),
        "n",
        n.as_str(),
    );
    out.push_str("\n");
    let rows: String = text::join(&s.hits, "\n");
    out.push_str(rows.as_str());
    if s.truncated {
        out.push_str("\n");
        let max: String = text::dec_usize(look::MAX_GREP_HITS);
        let note: String = loc.tf1("tool.code.grep.truncated", "max", max.as_str());
        out.push_str(note.as_str());
    }
    ToolOutcome::text(out)
}

} // verus!
