//! `fs_read`, `fs_write` and `fs_list`: files below one folder.
//!
//! Every path has to lie inside the folder that the settings name; while they name
//! none, every call is refused. The application's own folders stay out of reach,
//! wherever that folder is.

use vstd::prelude::*;
use crate::code::paths::CanonPath;
use crate::i18n::Locale;
use crate::json::{Json, JsonView};
use crate::outcome::ToolOutcome;
use crate::text;

verus! {

broadcast use text::views_push;

pub const FS_READ_ID: &'static str = "fs_read";

pub const FS_WRITE_ID: &'static str = "fs_write";

pub const FS_LIST_ID: &'static str = "fs_list";

/// How many characters of a file are given at most.
pub const MAX_READ_CHARS: usize = 50_000;

/// How many entries of a folder are listed at most.
pub const MAX_LIST_ENTRIES: usize = 500;

// ---------- which paths are in reach ----------

/// The folder that the tools work in, as the settings name it.
#[derive(Debug)]
pub struct FsRoot {
    pub root: Option<String>,
}

/// What a folder is once it is looked up.
#[derive(Debug)]
pub enum RootState {
    /// It cannot be reached.
    Unavailable,
    Found(CanonPath),
}

/// What a path is once it is looked up.
#[derive(Debug)]
pub enum Target {
    /// It is there.
    Exists(CanonPath),
    /// It is a link to something that is not there.
    DanglingLink,
    /// It has nothing above it.
    NoParent,
    /// The folder above it cannot be reached; it is shown like this.
    ParentUnavailable(String),
    /// It does not end with a name.
    NoFileName,
    /// It is not there, but the folder above it is.
    Fresh { parent: CanonPath, name: String },
}

/// Where a path lies: what it hangs from, and its components.
pub open spec fn place_of(t: Target) -> Option<(Seq<char>, Seq<Seq<char>>)> {
    match t {
        Target::Exists(p) => Some((p.anchor@, text::views(p.parts@))),
        Target::Fresh { parent, name } => Some(
            (parent.anchor@, text::views(parent.parts@).push(name@)),
        ),
        _ => None,
    }
}

/// The place is that of the folder or below it.
pub open spec fn below(place: (Seq<char>, Seq<Seq<char>>), root: CanonPath) -> bool {
    &&& place.0 == root.anchor@
    &&& root.parts@.len() <= place.1.len()
    &&& place.1.take(root.parts@.len() as int) == text::views(root.parts@)
}

/// The place is in one of the folders.
pub open spec fn in_one_of(place: (Seq<char>, Seq<Seq<char>>), dirs: Seq<CanonPath>) -> bool {
    exists|i: int| 0 <= i < dirs.len() && below(place, #[trigger] dirs[i])
}

impl FsRoot {
    /// The folder that a settings row names: a blank row names none.
    pub fn new(root: Option<String>) -> (r: FsRoot)
        ensures
            crate::json::opt_str(r.root) == (match root {
                Some(s) => if text::trimmed(s@).len() > 0 {
                    Some(text::trimmed(s@))
                } else {
                    None
                },
                None => None,
            }),
    {
        match root {
            Some(s) => {
                let t: String = text::trim(s.as_str());
                if t.as_str().is_empty() {
                    FsRoot { root: None }
                } else {
                    FsRoot { root: Some(t) }
                }
            },
            None => FsRoot { root: None },
        }
    }

    /// The path of a call and the folder it is to lie in. Without a path, or while the
    /// settings name no folder, the call is refused.
    pub fn requested(&self, raw: &str, loc: &Locale) -> (r: Result<(String, String), String>)
        ensures
            ({
                let path = text::trimmed(raw@);
                match r {
                    Ok(x) => path.len() > 0 && (x.0)@ == path && self.root is Some && (x.1)@
                        == (self.root->0)@,
                    Err(e) => if path.len() == 0 {
                        e@ == loc.text("tool.fs.err.empty_path"@)
                    } else {
                        self.root is None && e@ == loc.text("tool.fs.err.no_root"@)
                    },
                }
            }),
    {
        let path: String = text::trim(raw);
        if path.as_str().is_empty() {
            return Err(text::owned(loc.t("tool.fs.err.empty_path")));
        }
        match &self.root {
            Some(root) => Ok((path, root.clone())),
            None => Err(text::owned(loc.t("tool.fs.err.no_root"))),
        }
    }

    /// The path of a call, by what the folder and the path are once they are looked
    /// up. Nothing outside the folder is given, and nothing in one of the
    /// application's own folders.
    pub fn resolve(
        &self,
        shown_root: &str,
        root: &RootState,
        target: Target,
        app_dirs: &Vec<CanonPath>,
        loc: &Locale,
    ) -> (r: Result<CanonPath, String>)
        ensures
            match r {
                Ok(p) => {
                    &&& place_of(target) == Some((p.anchor@, text::views(p.parts@)))
                    &&& *root matches RootState::Found(f) && below(place_of(target)->0, f)
                    &&& !in_one_of(place_of(target)->0, app_dirs@)
                },
                Err(e) => match *root {
                    RootState::Unavailable => e@ == loc.text1(
                        "tool.fs.err.sandbox_unavailable"@,
                        "path"@,
                        shown_root@,
                    ),
                    RootState::Found(f) => match target {
                        Target::DanglingLink => e@ == loc.text("tool.fs.err.dangling_link"@),
                        Target::NoParent => e@ == loc.text("tool.fs.err.no_parent"@),
                        Target::ParentUnavailable(p) => e@ == loc.text1(
                            "tool.fs.err.parent_unavailable"@,
                            "path"@,
                            p@,
                        ),
                        Target::NoFileName => e@ == loc.text("tool.fs.err.no_filename"@),
                        _ => if !below(place_of(target)->0, f) {
                            e@ == loc.text1("tool.fs.err.outside_sandbox"@, "root"@, shown_root@)
                        } else {
                            in_one_of(place_of(target)->0, app_dirs@) && e@ == loc.text(
                                "tool.fs.err.app_dir"@,
                            )
                        },
                    },
                },
            },
    {
        let folder: &CanonPath = match root {
            RootState::Unavailable => {
                return Err(loc.tf1("tool.fs.err.sandbox_unavailable", "path", shown_root));
            },
            RootState::Found(f) => f,
        };
        let path: CanonPath = match target {
            Target::Exists(p) => p,
            Target::DanglingLink => {
                return Err(text::owned(loc.t("tool.fs.err.dangling_link")));
            },
            Target::NoParent => {
                return Err(text::owned(loc.t("tool.fs.err.no_parent")));
            },
            Target::ParentUnavailable(p) => {
                return Err(loc.tf1("tool.fs.err.parent_unavailable", "path", p.as_str()));
            },
            Target::NoFileName => {
                return Err(text::owned(loc.t("tool.fs.err.no_filename")));
            },
            Target::Fresh { parent, name } => {
                let mut parts: Vec<String> = parent.parts;
                parts.push(name);
                CanonPath { anchor: parent.anchor, parts }
            },
        };
        let ghost place = (path.anchor@, text::views(path.parts@));
        assert(place_of(target) == Some(place));
        assert(text::views(path.parts@).len() == path.parts@.len());
        if !path.within(folder) {
            return Err(loc.tf1("tool.fs.err.outside_sandbox", "root", shown_root));
        }
        if in_app_dir(&path, app_dirs) {
            return Err(text::owned(loc.t("tool.fs.err.app_dir")));
        }
        Ok(path)
    }
}

fn in_app_dir(path: &CanonPath, dirs: &Vec<CanonPath>) -> (r: bool)
    ensures
        r == in_one_of((path.anchor@, text::views(path.parts@)), dirs@),
{
    let ghost place = (path.anchor@, text::views(path.parts@));
    assert(text::views(path.parts@).len() == path.parts@.len());
    let mut i: usize = 0;
    while i < dirs.len()
        invariant
            i <= dirs.len(),
            place == (path.anchor@, text::views(path.parts@)),
            text::views(path.parts@).len() == path.parts@.len(),
            forall|j: int| 0 <= j < i ==> !below(place, #[trigger] dirs@[j]),
        decreases dirs.len() - i,
    {
        if path.within(&dirs[i]) {
            assert(below(place, dirs@[i as int]));
            return true;
        }
        i = i + 1;
    }
    false
}

/// The path of a call; nothing where there is none, or only blanks.
pub open spec fn path_of(args: JsonView) -> Option<Seq<char>> {
    match args.str_at("path"@) {
        Some(s) => if text::trimmed(s).len() > 0 {
            Some(s)
        } else {
            None
        },
        None => None,
    }
}

/// The path of a call. A call without one is wrong.
pub fn arg_path(args: &Json, loc: &Locale) -> (r: Result<String, String>)
    ensures
        match r {
            Ok(s) => path_of(args@) == Some(s@),
            Err(e) => path_of(args@) is None && e@ == loc.text("tool.fs.err.path_field_empty"@),
        },
{
    match args.get_str("path") {
        Some(s) => {
            let t: String = text::trim(s.as_str());
            if t.as_str().is_empty() {
                Err(text::owned(loc.t("tool.fs.err.path_field_empty")))
            } else {
                Ok(s)
            }
        },
        None => Err(text::owned(loc.t("tool.fs.err.path_field_empty"))),
    }
}

// ---------- fs_read ----------

/// A text cut to a length, with a note where something was cut.
pub open spec fn truncated(s: Seq<char>, max: int, loc: Locale) -> Seq<char> {
    if s.len() <= max {
        s
    } else {
        text::head_of(s, max) + "\n"@ + loc.text1(
            "tool.fs.truncated_read"@,
            "max"@,
            text::decimal(max as nat),
        )
    }
}

/// A text cut to a length, with a note where something was cut.
pub fn truncate_chars(s: &str, max: usize, loc: &Locale) -> (r: String)
    ensures
        r@ == truncated(s@, max as int, *loc),
{
    let n: usize = text::length(s);
    if n <= max {
        return text::owned(s);
    }
    let cut: String = text::head(s, max);
    let shown: String = text::dec_usize(max);
    let note: String = loc.tf1("tool.fs.truncated_read", "max", shown.as_str());
    text::cat3(cut.as_str(), "\n", note.as_str())
}

/// `fs_read`.
#[derive(Debug)]
pub struct FsRead {
    pub fs: FsRoot,
}

/// What reading a file came to.
#[derive(Debug)]
pub enum FileRead {
    Failed(String),
    /// The file holds no text.
    Binary,
    /// The text, and the encoding it was read in where that is not UTF-8.
    Text { text: String, encoding: Option<String> },
}

impl FsRead {
    pub fn new(root: Option<String>) -> (r: FsRead)
        ensures
            crate::json::opt_str(r.fs.root) == (match root {
                Some(s) => if text::trimmed(s@).len() > 0 {
                    Some(text::trimmed(s@))
                } else {
                    None
                },
                None => None,
            }),
    {
        FsRead { fs: FsRoot::new(root) }
    }

    /// The answer, by what reading came to. A file that is not in UTF-8 says what it
    /// was read as.
    pub fn outcome(&self, path: &str, read: &FileRead, loc: &Locale) -> (r: ToolOutcome)
        ensures
            r.says(
                match *read {
                    FileRead::Failed(err) => loc.text2(
                        "tool.fs_read.result.read_failed"@,
                        "path"@,
                        path@,
                        "err"@,
                        err@,
                    ),
                    FileRead::Binary => loc.text1("tool.fs_read.result.binary"@, "path"@, path@),
                    FileRead::Text { text, encoding } => truncated(
                        match encoding {
                            None => text@,
                            Some(e) => loc.text1("tool.fs_read.decoded_as"@, "encoding"@, e@)
                                + "\n"@ + text@,
                        },
                        MAX_READ_CHARS as int,
                        *loc,
                    ),
                },
            ),
    {
        match read {
            FileRead::Failed(err) => ToolOutcome::text(
                loc.tf2("tool.fs_read.result.read_failed", "path", path, "err", err.as_str()),
            ),
            FileRead::Binary => ToolOutcome::text(
                loc.tf1("tool.fs_read.result.binary", "path", path),
            ),
            FileRead::Text { text: body, encoding } => {
                let whole: String = match encoding {
                    None => body.clone(),
                    Some(e) => {
                        let note: String = loc.tf1(
                            "tool.fs_read.decoded_as",
                            "encoding",
                            e.as_str(),
                        );
                        text::cat3(note.as_str(), "\n", body.as_str())
                    },
                };
                ToolOutcome::text(truncate_chars(whole.as_str(), MAX_READ_CHARS, loc))
            },
        }
    }
}

// ---------- fs_write ----------

/// `fs_write`.
#[derive(Debug)]
pub struct FsWrite {
    pub fs: FsRoot,
}

/// What is written, and whether it goes to the end of the file.
#[derive(Debug)]
pub struct WriteArgs {
    pub content: String,
    pub append: bool,
}

impl FsWrite {
    pub fn new(root: Option<String>) -> (r: FsWrite)
        ensures
            crate::json::opt_str(r.fs.root) == (match root {
                Some(s) => if text::trimmed(s@).len() > 0 {
                    Some(text::trimmed(s@))
                } else {
                    None
                },
                None => None,
            }),
    {
        FsWrite { fs: FsRoot::new(root) }
    }

    /// Writing to a file is dangerous: it may take the place of what is there.
    pub fn danger(&self) -> (r: bool)
        ensures
            r,
    {
        true
    }

    /// What a call writes. A call without a content is wrong.
    pub fn arguments(&self, args: &Json, loc: &Locale) -> (r: Result<WriteArgs, String>)
        ensures
            match r {
                Ok(a) => args@.str_at("content"@) == Some(a.content@) && a.append == (
                args@.bool_at("append"@) == Some(true)),
                Err(e) => args@.str_at("content"@) is None && e@ == loc.text(
                    "tool.fs_write.err.content"@,
                ),
            },
    {
        match args.get_str("content") {
            Some(content) => {
                let append: bool = match args.get_bool("append") {
                    Some(b) => b,
                    None => false,
                };
                Ok(WriteArgs { content, append })
            },
            None => Err(text::owned(loc.t("tool.fs_write.err.content"))),
        }
    }

    /// The answer, by what writing came to.
    pub fn outcome(&self, path: &str, args: &WriteArgs, done: &Result<(), String>, loc: &Locale) -> (r:
        ToolOutcome)
        ensures
            r.says(
                match *done {
                    Ok(_) => loc.text2(
                        if args.append {
                            "tool.fs_write.result.appended"@
                        } else {
                            "tool.fs_write.result.written"@
                        },
                        "path"@,
                        path@,
                        "n"@,
                        text::decimal(args.content@.len()),
                    ),
                    Err(err) => loc.text2(
                        "tool.fs_write.result.write_failed"@,
                        "path"@,
                        path@,
                        "err"@,
                        err@,
                    ),
                },
            ),
    {
        match done {
            Ok(_) => {
                let n: String = text::dec_usize(text::length(args.content.as_str()));
                if args.append {
                    ToolOutcome::text(
                        loc.tf2("tool.fs_write.result.appended", "path", path, "n", n.as_str()),
                    )
                } else {
                    ToolOutcome::text(
                        loc.tf2("tool.fs_write.result.written", "path", path, "n", n.as_str()),
                    )
                }
            },
            Err(err) => ToolOutcome::text(
                loc.tf2("tool.fs_write.result.write_failed", "path", path, "err", err.as_str()),
            ),
        }
    }
}

// ---------- fs_list ----------

/// `fs_list`.
#[derive(Debug)]
pub struct FsList {
    pub fs: FsRoot,
}

/// An entry of a folder.
#[derive(Debug)]
pub struct DirEntry {
    pub name: String,
    pub is_dir: bool,
}

/// An entry as it is listed: a folder with a slash behind it.
pub open spec fn entry_text(e: DirEntry) -> Seq<char> {
    if e.is_dir {
        e.name@ + "/"@
    } else {
        e.name@
    }
}

/// The first `n` entries as they are listed.
pub open spec fn entry_texts(entries: Seq<DirEntry>, n: int) -> Seq<Seq<char>>
    decreases n,
{
    if n <= 0 {
        Seq::empty()
    } else {
        entry_texts(entries, n - 1).push(entry_text(entries[n - 1]))
    }
}

/// What a folder is answered with: its entries in order, and a note where there are
/// more than are listed.
pub open spec fn list_text(path: Seq<char>, entries: Seq<DirEntry>, loc: Locale) -> Seq<char> {
    let n = if entries.len() > MAX_LIST_ENTRIES {
        MAX_LIST_ENTRIES as int
    } else {
        entries.len() as int
    };
    let head = loc.text2(
        "tool.fs_list.result.header"@,
        "path"@,
        path,
        "n"@,
        text::decimal(n as nat),
    ) + "\n"@ + text::joined(text::ordered(entry_texts(entries, n)), "\n"@);
    if entries.len() == 0 {
        loc.text1("tool.fs_list.result.empty"@, "path"@, path)
    } else if entries.len() > MAX_LIST_ENTRIES {
        head + "\n"@ + loc.text1(
            "tool.fs_list.truncated"@,
            "max"@,
            text::decimal(MAX_LIST_ENTRIES as nat),
        )
    } else {
        head
    }
}

fn list_entries(entries: &Vec<DirEntry>, n: usize) -> (r: Vec<String>)
    requires
        n <= entries.len(),
    ensures
        text::views(r@) == entry_texts(entries@, n as int),
{
    let mut r: Vec<String> = Vec::new();
    let mut i: usize = 0;
    assert(text::views(r@) =~= Seq::<Seq<char>>::empty());
    while i < n
        invariant
            i <= n <= entries.len(),
            text::views(r@) == entry_texts(entries@, i as int),
        decreases n - i,
    {
        let e: &DirEntry = &entries[i];
        if e.is_dir {
            r.push(text::cat2(e.name.as_str(), "/"));
        } else {
            r.push(e.name.clone());
        }
        i = i + 1;
    }
    r
}

impl FsList {
    pub fn new(root: Option<String>) -> (r: FsList)
        ensures
            crate::json::opt_str(r.fs.root) == (match root {
                Some(s) => if text::trimmed(s@).len() > 0 {
                    Some(text::trimmed(s@))
                } else {
                    None
                },
                None => None,
            }),
    {
        FsList { fs: FsRoot::new(root) }
    }

    /// The answer, by the entries of the folder as they were read.
    pub fn outcome(&self, path: &str, read: &Result<Vec<DirEntry>, String>, loc: &Locale) -> (r:
        ToolOutcome)
        ensures
            r.says(
                match *read {
                    Err(err) => loc.text2(
                        "tool.fs_list.result.open_failed"@,
                        "path"@,
                        path@,
                        "err"@,
                        err@,
                    ),
                    Ok(entries) => list_text(path@, entries@, *loc),
                },
            ),
    {
        match read {
            Err(err) => ToolOutcome::text(
                loc.tf2("tool.fs_list.result.open_failed", "path", path, "err", err.as_str()),
            ),
            Ok(entries) => {
                if entries.len() == 0 {
                    return ToolOutcome::text(loc.tf1("tool.fs_list.result.empty", "path", path));
                }
                let n: usize = if entries.len() > MAX_LIST_ENTRIES {
                    MAX_LIST_ENTRIES
                } else {
                    entries.len()
                };
                let rows: Vec<String> = text::sort(list_entries(entries, n));
                let listed: String = text::join(&rows, "\n");
                let count: String = text::dec_usize(n);
                let mut out: String = loc.tf2(
                    "tool.fs_list.result.header",
                    "path",
                    path,
                    "n",
                    count.as_str(),
                );
                out.push_str("\n");
                out.push_str(listed.as_str());
                if entries.len() > MAX_LIST_ENTRIES {
                    let max: String = text::dec_usize(MAX_LIST_ENTRIES);
                    let note: String = loc.tf1("tool.fs_list.truncated", "max", max.as_str());
                    out.push_str("\n");
                    out.push_str(note.as_str());
                }
                ToolOutcome::text(out)
            },
        }
    }
}

} // verus!
