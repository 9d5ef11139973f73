//! Paths of the attached project, as lists of components.

use vstd::prelude::*;
use crate::i18n::Locale;
use crate::text;

verus! {

broadcast use text::views_push;

/// An absolute path without links, `.` or `..`: what it hangs from (`/`, `C:\`)
/// and its components.
#[derive(Debug)]
pub struct CanonPath {
    pub anchor: String,
    pub parts: Vec<String>,
}

impl CanonPath {
    /// This path is `root` or lies below it.
    pub open spec fn is_within(self, root: CanonPath) -> bool {
        &&& self.anchor@ == root.anchor@
        &&& root.parts@.len() <= self.parts@.len()
        &&& text::views(self.parts@).take(root.parts@.len() as int) == text::views(root.parts@)
    }

    /// Whether this path is `root` or lies below it.
    pub fn within(&self, root: &CanonPath) -> (r: bool)
        ensures
            r == self.is_within(*root),
    {
        if !text::same(self.anchor.as_str(), root.anchor.as_str()) {
            return false;
        }
        if root.parts.len() > self.parts.len() {
            return false;
        }
        let mut i: usize = 0;
        while i < root.parts.len()
            invariant
                i <= root.parts.len() <= self.parts.len(),
                forall|j: int| 0 <= j < i ==> (#[trigger] self.parts@[j])@ == root.parts@[j]@,
            decreases root.parts.len() - i,
        {
            if !text::same(self.parts[i].as_str(), root.parts[i].as_str()) {
                assert(text::views(self.parts@).take(root.parts@.len() as int)[i as int]
                    != text::views(root.parts@)[i as int]);
                return false;
            }
            i = i + 1;
        }
        assert(text::views(self.parts@).take(root.parts@.len() as int) =~= text::views(
            root.parts@,
        ));
        true
    }
}

/// A path without the `\\?\` that Windows puts before a canonical one.
pub open spec fn without_verbatim(p: Seq<char>) -> Seq<char> {
    if text::stands_at(p, r"\\?\"@, 0) {
        p.skip(r"\\?\"@.len() as int)
    } else {
        p
    }
}

/// A path without the `\\?\` that Windows puts before a canonical one.
pub fn strip_verbatim(p: &str) -> (r: String)
    ensures
        r@ == without_verbatim(p@),
{
    match text::strip_prefix(p, r"\\?\") {
        Some(rest) => rest,
        None => text::owned(p),
    }
}

/// The components joined with slashes, backslashes turned round.
pub open spec fn slashed(parts: Seq<Seq<char>>) -> Seq<char> {
    text::replaced(text::joined(parts, "/"@), "\\"@, "/"@)
}

/// A path as the model sees it: relative to the root, with forward slashes; a
/// path outside the root stays whole.
pub open spec fn shown_path(path: CanonPath, root: CanonPath) -> Seq<char> {
    if path.is_within(root) {
        slashed(text::views(path.parts@).skip(root.parts@.len() as int))
    } else {
        text::replaced(path.anchor@, "\\"@, "/"@) + slashed(text::views(path.parts@))
    }
}

/// A path as the model sees it.
pub fn display_rel(path: &CanonPath, root: &CanonPath) -> (r: String)
    ensures
        r@ == shown_path(*path, *root),
{
    proof {
        reveal_strlit("\\");
    }
    if path.within(root) {
        let mut rel: Vec<String> = Vec::new();
        let mut i: usize = root.parts.len();
        while i < path.parts.len()
            invariant
                root.parts.len() <= i <= path.parts.len(),
                text::views(rel@) =~= text::views(path.parts@).subrange(
                    root.parts@.len() as int,
                    i as int,
                ),
            decreases path.parts.len() - i,
        {
            rel.push(path.parts[i].clone());
            i = i + 1;
        }
        assert(text::views(path.parts@).subrange(root.parts@.len() as int, i as int) =~= text::views(
            path.parts@,
        ).skip(root.parts@.len() as int));
        let joined: String = text::join(&rel, "/");
        text::replace(joined.as_str(), "\\", "/")
    } else {
        let joined: String = text::join(&path.parts, "/");
        let shown: String = text::replace(joined.as_str(), "\\", "/");
        let anchor: String = text::replace(path.anchor.as_str(), "\\", "/");
        text::cat2(anchor.as_str(), shown.as_str())
    }
}

/// The path argument without its margins; an error where nothing is left.
pub fn requested(raw: &str, loc: &Locale) -> (r: Result<String, String>)
    ensures
        match r {
            Ok(p) => text::trimmed(raw@).len() > 0 && p@ == text::trimmed(raw@),
            Err(e) => text::trimmed(raw@).len() == 0 && e@ == loc.text(
                "tool.code.err.path_required"@,
            ),
        },
{
    let p: String = text::trim(raw);
    if p.as_str().is_empty() {
        Err(text::owned(loc.t("tool.code.err.path_required")))
    } else {
        Ok(p)
    }
}

/// A component that names an entry: `..` does not.
pub open spec fn is_name(part: Seq<char>) -> bool {
    part != ".."@
}

/// Every one of the components names an entry.
pub open spec fn all_names(parts: Seq<Seq<char>>) -> bool {
    forall|i: int| 0 <= i < parts.len() ==> is_name(#[trigger] parts[i])
}

/// Where an argument path lies, by the deepest ancestor of it that exists and by
/// the components below that one, the deepest first. `..` among these is refused,
/// and so is whatever does not lie within the root.
pub fn resolve(
    root: &CanonPath,
    existing: Option<CanonPath>,
    tail: &Vec<String>,
    shown_root: &str,
    loc: &Locale,
) -> (r: Result<CanonPath, String>)
    ensures
        match r {
            Ok(p) => {
                &&& existing matches Some(base)
                &&& all_names(text::views(tail@))
                &&& p.anchor@ == base.anchor@
                &&& text::views(p.parts@) == text::views(base.parts@) + text::views(
                    tail@,
                ).reverse()
                &&& p.is_within(*root)
            },
            Err(e) => {
                ||| (existing is None || !all_names(text::views(tail@))) && e@ == loc.text(
                    "tool.code.err.path_required"@,
                )
                ||| (existing matches Some(base) && all_names(text::views(tail@)) && e@
                    == loc.text1("tool.code.err.outside"@, "root"@, shown_root@) && !(
                exists|p: CanonPath|
                    p.anchor@ == base.anchor@ && #[trigger] text::views(p.parts@) == text::views(
                        base.parts@,
                    ) + text::views(tail@).reverse() && p.is_within(*root)))
            },
        },
{
    let mut path: CanonPath = match existing {
        Some(base) => base,
        None => {
            return Err(text::owned(loc.t("tool.code.err.path_required")));
        },
    };
    let ghost base = path;
    let ghost below = text::views(tail@);
    let mut i: usize = tail.len();
    while i > 0
        invariant
            i <= tail.len(),
            below == text::views(tail@),
            existing == Some(base),
            path.anchor == base.anchor,
            forall|j: int| i <= j < tail.len() ==> is_name(#[trigger] below[j]),
            text::views(path.parts@) =~= text::views(base.parts@) + below.skip(i as int).reverse(),
        decreases i,
    {
        assert(below[i - 1] == tail@[i - 1]@);
        if text::same(tail[i - 1].as_str(), "..") {
            return Err(text::owned(loc.t("tool.code.err.path_required")));
        }
        path.parts.push(tail[i - 1].clone());
        assert(below.skip(i - 1).reverse() =~= below.skip(i as int).reverse().push(below[i - 1]));
        i = i - 1;
    }
    assert(below.skip(0) =~= below);
    if !path.within(root) {
        assert forall|p: CanonPath|
            p.anchor@ == base.anchor@ && #[trigger] text::views(p.parts@) == text::views(
                base.parts@,
            ) + below.reverse() implies !p.is_within(*root) by {
            assert(text::views(path.parts@).len() == path.parts@.len());
            assert(text::views(p.parts@).len() == p.parts@.len());
        }
        return Err(loc.tf1("tool.code.err.outside", "root", shown_root));
    }
    Ok(path)
}

} // verus!
