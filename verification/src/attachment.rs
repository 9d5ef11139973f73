//! `attachment_read` and `attachment_search`: the files attached to the chat.
//!
//! A large file is attached by reference. It is read page by page, so that whoever
//! walks all pages has read everything; a search by meaning says where to begin.
//! Neither reaches anything but the files that are attached.

use vstd::prelude::*;
use crate::i18n::Locale;
use crate::json::{Json, JsonView};
use crate::outcome::ToolOutcome;
use crate::search;
use crate::text;

verus! {

broadcast use text::views_push;

pub const ATTACHMENT_READ_ID: &'static str = "attachment_read";

pub const ATTACHMENT_SEARCH_ID: &'static str = "attachment_search";

/// How many fragments a search gives unless it is told otherwise.
pub const DEFAULT_TOP_K: u64 = 5;

/// An attached file, cut into pages.
#[derive(Debug)]
pub struct Attachment {
    pub id: u128,
    pub name: String,
    /// Where the file came from.
    pub source: String,
    pub text: String,
    /// Where the pages after the first one begin, in characters. A place before the one
    /// ahead of it, or behind the end of the text, is moved there.
    pub cuts: Vec<usize>,
}

impl Attachment {
    /// How many pages the file has.
    pub open spec fn pages(self) -> int {
        self.cuts@.len() as int + 1
    }

    /// Where the page with index `i` begins; behind the last page, where the text ends.
    pub open spec fn page_start(self, i: int) -> int
        decreases i,
    {
        if i <= 0 {
            0
        } else if i > self.cuts@.len() {
            self.text@.len() as int
        } else {
            let least = self.page_start(i - 1);
            let most = self.text@.len() as int;
            let cut = self.cuts@[i - 1] as int;
            if cut < least {
                least
            } else if cut > most {
                most
            } else {
                cut
            }
        }
    }

    /// The page with index `i`.
    pub open spec fn page_text(self, i: int) -> Seq<char> {
        self.text@.subrange(self.page_start(i), self.page_start(i + 1))
    }

    proof fn starts_are_in_order(self, i: int)
        requires
            0 <= i <= self.cuts@.len(),
        ensures
            0 <= self.page_start(i) <= self.page_start(i + 1) <= self.text@.len(),
        decreases i,
    {
        if i > 0 {
            self.starts_are_in_order(i - 1);
        }
        assert(self.page_start(0) == 0);
    }

    fn find_start(&self, i: usize) -> (r: usize)
        requires
            i <= self.cuts.len() + 1,
        ensures
            r == self.page_start(i as int),
            r <= self.text@.len(),
    {
        let len: usize = text::length(self.text.as_str());
        if i > self.cuts.len() {
            return len;
        }
        let mut start: usize = 0;
        let mut n: usize = 0;
        while n < i
            invariant
                n <= i <= self.cuts.len(),
                len == self.text@.len(),
                start == self.page_start(n as int),
                start <= len,
            decreases i - n,
        {
            let cut: usize = self.cuts[n];
            start = if cut < start {
                start
            } else if cut > len {
                len
            } else {
                cut
            };
            n = n + 1;
        }
        start
    }

    /// A page of the file, counted from one; none where there is no such page.
    pub fn page(&self, page: u64) -> (r: Option<String>)
        ensures
            match r {
                Some(s) => 1 <= page <= self.pages() && s@ == self.page_text(page - 1),
                None => !(1 <= page <= self.pages()),
            },
    {
        if page < 1 || page - 1 > self.cuts.len() as u64 {
            return None;
        }
        let i: usize = (page - 1) as usize;
        let from: usize = self.find_start(i);
        let to: usize = if i < self.cuts.len() {
            self.find_start(i + 1)
        } else {
            text::length(self.text.as_str())
        };
        proof {
            self.starts_are_in_order(i as int);
        }
        let v: Vec<char> = text::chars_of(self.text.as_str());
        Some(text::slice(&v, from, to))
    }
}

/// The file answers to this name: its own, or where it came from.
pub open spec fn answers_to(a: Attachment, name: Seq<char>) -> bool {
    a.name@ == name || a.source@ == name
}

impl Attachment {
    /// The file answers to this name.
    pub fn matches(&self, name: &str) -> (r: bool)
        ensures
            r == answers_to(*self, name@),
    {
        text::same(self.name.as_str(), name) || text::same(self.source.as_str(), name)
    }
}

/// The files that answer to a name, among the first `n`.
pub open spec fn answering(files: Seq<Attachment>, name: Seq<char>, n: int) -> Seq<int>
    decreases n,
{
    if n <= 0 {
        Seq::empty()
    } else if answers_to(files[n - 1], name) {
        answering(files, name, n - 1).push(n - 1)
    } else {
        answering(files, name, n - 1)
    }
}

fn find_answering(files: &Vec<Attachment>, name: &str) -> (r: Vec<usize>)
    ensures
        crate::order::as_ints(r@) == answering(files@, name@, files@.len() as int),
        forall|i: int| 0 <= i < r@.len() ==> #[trigger] r@[i] < files.len(),
{
    let mut r: Vec<usize> = Vec::new();
    let mut i: usize = 0;
    assert(crate::order::as_ints(r@) =~= Seq::<int>::empty());
    while i < files.len()
        invariant
            i <= files.len(),
            crate::order::as_ints(r@) =~= answering(files@, name@, i as int),
            forall|j: int| 0 <= j < r@.len() ==> #[trigger] r@[j] < i,
        decreases files.len() - i,
    {
        if files[i].matches(name) {
            let ghost before = crate::order::as_ints(r@);
            r.push(i);
            assert(crate::order::as_ints(r@) =~= before.push(i as int));
        }
        i = i + 1;
    }
    r
}

/// Where the files at these places came from.
pub open spec fn sources_at(files: Seq<Attachment>, at: Seq<int>) -> Seq<Seq<char>> {
    at.map_values(|i: int| files[i].source@)
}

fn list_sources(files: &Vec<Attachment>, at: &Vec<usize>) -> (r: Vec<String>)
    requires
        forall|i: int| 0 <= i < at@.len() ==> #[trigger] at@[i] < files.len(),
    ensures
        text::views(r@) == sources_at(files@, crate::order::as_ints(at@)),
{
    let ghost all = sources_at(files@, crate::order::as_ints(at@));
    let mut r: Vec<String> = Vec::new();
    let mut i: usize = 0;
    while i < at.len()
        invariant
            i <= at.len(),
            all == sources_at(files@, crate::order::as_ints(at@)),
            forall|j: int| 0 <= j < at@.len() ==> #[trigger] at@[j] < files.len(),
            text::views(r@) =~= all.take(i as int),
        decreases at.len() - i,
    {
        assert(all[i as int] == files@[at@[i as int] as int].source@);
        r.push(files[at[i]].source.clone());
        i = i + 1;
    }
    assert(all.take(i as int) =~= all);
    r
}

pub open spec fn names_of(files: Seq<Attachment>) -> Seq<Seq<char>> {
    files.map_values(|a: Attachment| a.name@)
}

fn list_names(files: &Vec<Attachment>) -> (r: Vec<String>)
    ensures
        text::views(r@) == names_of(files@),
{
    let ghost all = names_of(files@);
    let mut r: Vec<String> = Vec::new();
    let mut i: usize = 0;
    while i < files.len()
        invariant
            i <= files.len(),
            all == names_of(files@),
            text::views(r@) =~= all.take(i as int),
        decreases files.len() - i,
    {
        r.push(files[i].name.clone());
        i = i + 1;
    }
    assert(all.take(i as int) =~= all);
    r
}

/// `attachment_read`.
pub struct AttachmentRead;

/// The name that a call gives, without its margins.
pub open spec fn name_of(args: JsonView) -> Seq<char> {
    match args.str_at("name"@) {
        Some(s) => text::trimmed(s),
        None => text::trimmed(Seq::empty()),
    }
}

/// The header over a page.
pub open spec fn page_header(a: Attachment, page: u64, loc: Locale) -> Seq<char> {
    loc.text3(
        "tool.attachment_read.header"@,
        "name"@,
        a.name@,
        "page"@,
        text::decimal(page as nat),
        "total"@,
        text::decimal(a.pages() as nat),
    )
}

/// A page of a file under its header; a page that is not there is answered with how
/// many there are.
pub open spec fn attachment_page(a: Attachment, page: u64, loc: Locale) -> Seq<char> {
    if 1 <= page <= a.pages() {
        page_header(a, page, loc) + "\n"@ + a.page_text(page - 1)
    } else {
        loc.text3(
            "tool.attachment_read.bad_page"@,
            "page"@,
            text::decimal(page as nat),
            "name"@,
            a.name@,
            "total"@,
            text::decimal(a.pages() as nat),
        )
    }
}

/// What a read is answered with. Where several files answer to the name, none of
/// them is read: the answer says what tells them apart.
pub open spec fn read_text(files: Seq<Attachment>, args: JsonView, loc: Locale) -> Seq<char> {
    let name = name_of(args);
    let found = answering(files, name, files.len() as int);
    if files.len() == 0 {
        loc.text("tool.attachment_read.none"@)
    } else if found.len() > 1 {
        loc.text2(
            "tool.attachment_read.ambiguous"@,
            "name"@,
            name,
            "sources"@,
            text::joined(sources_at(files, found), ", "@),
        )
    } else if found.len() == 0 {
        loc.text2(
            "tool.attachment_read.unknown"@,
            "name"@,
            name,
            "names"@,
            text::joined(names_of(files), ", "@),
        )
    } else {
        attachment_page(files[found[0]], search::page_of(args), loc)
    }
}

fn show_page(a: &Attachment, page: u64, loc: &Locale) -> (r: String)
    ensures
        r@ == attachment_page(*a, page, *loc),
{
    let n: String = text::dec(page);
    let total: String = text::dec_wide(a.cuts.len() as u128 + 1);
    let shown: String = match a.page(page) {
        Some(s) => s,
        None => {
            return loc.tf3(
                "tool.attachment_read.bad_page",
                "page",
                n.as_str(),
                "name",
                a.name.as_str(),
                "total",
                total.as_str(),
            );
        },
    };
    let head: String = loc.tf3(
        "tool.attachment_read.header",
        "name",
        a.name.as_str(),
        "page",
        n.as_str(),
        "total",
        total.as_str(),
    );
    text::cat3(head.as_str(), "\n", shown.as_str())
}

impl AttachmentRead {
    /// The answer, by the files that are attached.
    pub fn outcome(&self, files: &Vec<Attachment>, args: &Json, loc: &Locale) -> (r: ToolOutcome)
        ensures
            r.says(read_text(files@, args@, *loc)),
    {
        if files.len() == 0 {
            return ToolOutcome::text(text::owned(loc.t("tool.attachment_read.none")));
        }
        let name: String = match args.get_str("name") {
            Some(s) => text::trim(s.as_str()),
            None => text::trim(String::new().as_str()),
        };
        let found: Vec<usize> = find_answering(files, name.as_str());
        assert(crate::order::as_ints(found@).len() == found@.len());
        if found.len() > 1 {
            let sources: Vec<String> = list_sources(files, &found);
            let listed: String = text::join(&sources, ", ");
            return ToolOutcome::text(
                loc.tf2(
                    "tool.attachment_read.ambiguous",
                    "name",
                    name.as_str(),
                    "sources",
                    listed.as_str(),
                ),
            );
        }
        if found.len() == 0 {
            let names: Vec<String> = list_names(files);
            let listed: String = text::join(&names, ", ");
            return ToolOutcome::text(
                loc.tf2(
                    "tool.attachment_read.unknown",
                    "name",
                    name.as_str(),
                    "names",
                    listed.as_str(),
                ),
            );
        }
        assert(crate::order::as_ints(found@)[0] == found@[0] as int);
        ToolOutcome::text(show_page(&files[found[0]], search::page_arg(args), loc))
    }
}

/// What the answers to reads of the first `n` pages hold under their headers.
pub open spec fn pages_joined(a: Attachment, n: int) -> Seq<char>
    decreases n,
{
    if n <= 0 {
        Seq::empty()
    } else {
        pages_joined(a, n - 1) + a.page_text(n - 1)
    }
}

proof fn joined_so_far(a: Attachment, n: int)
    requires
        0 <= n <= a.pages(),
    ensures
        pages_joined(a, n) == a.text@.take(a.page_start(n)),
        0 <= a.page_start(n) <= a.text@.len(),
    decreases n,
{
    if n > 0 {
        joined_so_far(a, n - 1);
        a.starts_are_in_order(n - 1);
        assert(a.text@.take(a.page_start(n - 1)) + a.page_text(n - 1) =~= a.text@.take(
            a.page_start(n),
        ));
    } else {
        assert(a.text@.take(0) =~= Seq::<char>::empty());
    }
}

/// Whoever reads the pages from the first to the last has read the file: every one of
/// them is answered, and what stands under the headers makes up the text.
pub proof fn walking_the_pages_reads_the_file(a: Attachment, loc: Locale)
    ensures
        forall|page: u64|
            1 <= page <= a.pages() ==> #[trigger] attachment_page(a, page, loc) == page_header(
                a,
                page,
                loc,
            ) + "\n"@ + a.page_text(page - 1),
        pages_joined(a, a.pages()) == a.text@,
{
    joined_so_far(a, a.pages());
    assert(a.text@.take(a.text@.len() as int) =~= a.text@);
}

// ---------- attachment_search ----------

/// `attachment_search`.
pub struct AttachmentSearch;

/// How a search begins.
#[derive(Debug)]
pub enum SearchStart {
    /// Look for this, and ask for so many fragments.
    Query { query: String, k: u64 },
    /// There is nothing to search.
    Answer(ToolOutcome),
}

/// A fragment that the index gave.
#[derive(Debug)]
pub struct AttachmentHit {
    pub attachment_id: u128,
    pub name: String,
    pub text: String,
}

/// A passage put together from fragments.
#[derive(Debug)]
pub struct Passage {
    pub source: String,
    pub text: String,
}

/// What a search found.
#[derive(Debug)]
pub enum AttachmentFound {
    /// No file is in the index, or the query cannot be embedded.
    NotIndexed,
    /// Passages from files that are attached.
    Passages(Vec<Passage>),
}

/// The file is attached.
pub open spec fn is_attached(files: Seq<Attachment>, id: u128) -> bool {
    exists|i: int| 0 <= i < files.len() && (#[trigger] files[i]).id == id
}

fn attached(files: &Vec<Attachment>, id: u128) -> (r: bool)
    ensures
        r == is_attached(files@, id),
{
    let mut i: usize = 0;
    while i < files.len()
        invariant
            i <= files.len(),
            forall|j: int| 0 <= j < i ==> (#[trigger] files@[j]).id != id,
        decreases files.len() - i,
    {
        if files[i].id == id {
            assert(files@[i as int].id == id);
            return true;
        }
        i = i + 1;
    }
    false
}

/// One of the files that are attached now is in the index.
pub open spec fn some_indexed(files: Seq<Attachment>, indexed: Seq<u128>) -> bool {
    exists|i: int| 0 <= i < indexed.len() && is_attached(files, #[trigger] indexed[i])
}

/// One of the files that are attached now is in the index.
pub fn any_indexed(files: &Vec<Attachment>, indexed: &Vec<u128>) -> (r: bool)
    ensures
        r == some_indexed(files@, indexed@),
{
    let mut i: usize = 0;
    while i < indexed.len()
        invariant
            i <= indexed.len(),
            forall|j: int| 0 <= j < i ==> !is_attached(files@, #[trigger] indexed@[j]),
        decreases indexed.len() - i,
    {
        if attached(files, indexed[i]) {
            assert(is_attached(files@, indexed@[i as int]));
            return true;
        }
        i = i + 1;
    }
    false
}

/// The fragments of files that are attached, among the first `n`.
pub open spec fn kept(files: Seq<Attachment>, hits: Seq<AttachmentHit>, n: int) -> Seq<int>
    decreases n,
{
    if n <= 0 {
        Seq::empty()
    } else if is_attached(files, hits[n - 1].attachment_id) {
        kept(files, hits, n - 1).push(n - 1)
    } else {
        kept(files, hits, n - 1)
    }
}

/// The fragments of files that are attached, by their places. A file may have left
/// the chat while it was being indexed; its fragments are not shown.
pub fn keep_attached(files: &Vec<Attachment>, hits: &Vec<AttachmentHit>) -> (r: Vec<usize>)
    ensures
        crate::order::as_ints(r@) == kept(files@, hits@, hits@.len() as int),
        forall|i: int| 0 <= i < r@.len() ==> #[trigger] r@[i] < hits.len(),
{
    let mut r: Vec<usize> = Vec::new();
    let mut i: usize = 0;
    assert(crate::order::as_ints(r@) =~= Seq::<int>::empty());
    while i < hits.len()
        invariant
            i <= hits.len(),
            crate::order::as_ints(r@) =~= kept(files@, hits@, i as int),
            forall|j: int| 0 <= j < r@.len() ==> #[trigger] r@[j] < i,
        decreases hits.len() - i,
    {
        if attached(files, hits[i].attachment_id) {
            let ghost before = crate::order::as_ints(r@);
            r.push(i);
            assert(crate::order::as_ints(r@) =~= before.push(i as int));
        }
        i = i + 1;
    }
    r
}

/// A fragment is kept exactly where its file is attached: no other file's text comes
/// out of a search.
pub proof fn only_attached_files_are_shown(
    files: Seq<Attachment>,
    hits: Seq<AttachmentHit>,
    n: int,
    i: int,
)
    requires
        0 <= i < n <= hits.len(),
    ensures
        kept(files, hits, n).contains(i) <==> is_attached(files, hits[i].attachment_id),
    decreases n,
{
    let before = kept(files, hits, n - 1);
    let now = kept(files, hits, n);
    places_are_below(files, hits, n - 1);
    if i < n - 1 {
        only_attached_files_are_shown(files, hits, n - 1, i);
        if before.contains(i) {
            let k = choose|k: int| 0 <= k < before.len() && before[k] == i;
            assert(now[k] == i);
        }
        if now.contains(i) {
            let k = choose|k: int| 0 <= k < now.len() && now[k] == i;
            assert(before[k] == i);
        }
    } else {
        if is_attached(files, hits[i].attachment_id) {
            assert(now[now.len() - 1] == i);
        }
    }
}

proof fn places_are_below(files: Seq<Attachment>, hits: Seq<AttachmentHit>, n: int)
    ensures
        forall|k: int| 0 <= k < kept(files, hits, n).len() ==> #[trigger] kept(files, hits, n)[k]
            < n,
    decreases n,
{
    if n > 0 {
        places_are_below(files, hits, n - 1);
        let before = kept(files, hits, n - 1);
        let now = kept(files, hits, n);
        assert forall|k: int| 0 <= k < now.len() implies #[trigger] now[k] < n by {
            if k < before.len() {
                assert(now[k] == before[k]);
            }
        }
    }
}

/// The first `n` passages, numbered, each under its file.
pub open spec fn passage_rows(p: Seq<Passage>, n: int) -> Seq<char>
    decreases n,
{
    if n <= 0 {
        Seq::empty()
    } else {
        passage_rows(p, n - 1) + ("\n\n"@ + text::decimal(n as nat) + ". ["@ + p[n - 1].source@
            + "]\n"@ + p[n - 1].text@)
    }
}

fn list_passages(p: &Vec<Passage>) -> (r: String)
    ensures
        r@ == passage_rows(p@, p@.len() as int),
{
    let mut r: String = String::new();
    let mut i: usize = 0;
    while i < p.len()
        invariant
            i <= p.len(),
            r@ == passage_rows(p@, i as int),
        decreases p.len() - i,
    {
        let n: String = text::dec_usize(i + 1);
        let row: String = text::cat6(
            "\n\n",
            n.as_str(),
            ". [",
            p[i].source.as_str(),
            "]\n",
            p[i].text.as_str(),
        );
        r.push_str(row.as_str());
        i = i + 1;
    }
    r
}

impl AttachmentSearch {
    /// Reads the arguments of a search. Where nothing is attached, that is the answer;
    /// a call without a query is wrong.
    pub fn start(&self, files: &Vec<Attachment>, args: &Json, loc: &Locale) -> (r: Result<
        SearchStart,
        String,
    >)
        ensures
            match r {
                Ok(SearchStart::Answer(o)) => files@.len() == 0 && o.says(
                    loc.text("tool.attachment_read.none"@),
                ),
                Ok(SearchStart::Query { query, k }) => files@.len() > 0 && query@
                    == search::query_of(args@) && query@.len() > 0 && k == search::top_k_of(
                    args@,
                    DEFAULT_TOP_K,
                ),
                Err(e) => files@.len() > 0 && search::query_of(args@).len() == 0 && e@ == loc.text(
                    "tool.attachment_search.err.query_empty"@,
                ),
            },
    {
        if files.len() == 0 {
            return Ok(
                SearchStart::Answer(
                    ToolOutcome::text(text::owned(loc.t("tool.attachment_read.none"))),
                ),
            );
        }
        match search::search_args(
            args,
            loc,
            "tool.attachment_search.err.query_empty",
            DEFAULT_TOP_K,
        ) {
            Ok((query, k)) => Ok(SearchStart::Query { query, k }),
            Err(e) => Err(e),
        }
    }

    /// The answer, by what was found. That no file is in the index is said as such:
    /// it does not mean that the files hold nothing about the query.
    pub fn outcome(&self, found: &AttachmentFound, loc: &Locale) -> (r: ToolOutcome)
        ensures
            r.says(
                match *found {
                    AttachmentFound::NotIndexed => loc.text("tool.attachment_search.not_indexed"@),
                    AttachmentFound::Passages(p) => if p@.len() == 0 {
                        loc.text("tool.attachment_search.result.empty"@)
                    } else {
                        loc.text1(
                            "tool.attachment_search.result.header"@,
                            "n"@,
                            text::decimal(p@.len()),
                        ) + passage_rows(p@, p@.len() as int) + "\n\n"@ + loc.text(
                            "tool.attachment_search.result.hint"@,
                        )
                    },
                },
            ),
    {
        match found {
            AttachmentFound::NotIndexed => ToolOutcome::text(
                text::owned(loc.t("tool.attachment_search.not_indexed")),
            ),
            AttachmentFound::Passages(p) => {
                if p.len() == 0 {
                    return ToolOutcome::text(
                        text::owned(loc.t("tool.attachment_search.result.empty")),
                    );
                }
                let n: String = text::dec_usize(p.len());
                let head: String = loc.tf1("tool.attachment_search.result.header", "n", n.as_str());
                let rows: String = list_passages(p);
                ToolOutcome::text(
                    text::cat4(
                        head.as_str(),
                        rows.as_str(),
                        "\n\n",
                        loc.t("tool.attachment_search.result.hint"),
                    ),
                )
            },
        }
    }
}

} // verus!
