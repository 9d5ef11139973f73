//! What folders, process results, JSON values and texts in a language come to, said of
//! what they hold.

use vstd::prelude::*;
use crate::code::paths::CanonPath;
use crate::console;
use crate::console::{Reading, Section};
use crate::fs;
use crate::fs::DirEntry;
use crate::i18n::{Lang, Locale};
use crate::json;
use crate::json::JsonView;
use crate::text;
use crate::text_laws;

verus! {

// ---------- folders ----------

/// A place lies in a folder where it is the folder with more components behind it, or
/// none, and hangs from the same.
pub proof fn below_is_behind_the_folder(
    place: (Seq<char>, Seq<Seq<char>>),
    root: CanonPath,
    rest: Seq<Seq<char>>,
)
    ensures
        place.0 == root.anchor@ && place.1 == text::views(root.parts@) + rest ==> fs::below(
            place,
            root,
        ),
        fs::below(place, root) ==> place.0 == root.anchor@ && exists|more: Seq<Seq<char>>|
            place.1 == #[trigger] (text::views(root.parts@) + more),
{
    let r = text::views(root.parts@);
    assert(r.len() == root.parts@.len());
    if place.0 == root.anchor@ && place.1 == r + rest {
        assert((r + rest).take(r.len() as int) =~= r);
    }
    if fs::below(place, root) {
        let more = place.1.skip(r.len() as int);
        assert(place.1 =~= r + more);
    }
}

/// What is read of a file is all of it up to a length, 50000 characters for the tool;
/// where there is more, it is said how much was taken.
pub proof fn a_long_file_is_cut(s: Seq<char>, max: int, loc: Locale)
    requires
        max >= 0,
    ensures
        fs::MAX_READ_CHARS == 50_000,
        s.len() <= max ==> fs::truncated(s, max, loc) == s,
        s.len() > max ==> fs::truncated(s, max, loc) == s.subrange(0, max) + "\n"@ + loc.text1(
            "tool.fs.truncated_read"@,
            "max"@,
            text::decimal(max as nat),
        ),
{
    if s.len() > max {
        assert(s.take(max) =~= s.subrange(0, max));
    }
}

/// The entries of a folder are named in the order they were read in, a folder with a
/// slash behind it.
pub proof fn one_folder_entry_more(entries: Seq<DirEntry>, n: int)
    requires
        0 <= n < entries.len(),
    ensures
        fs::entry_texts(entries, 0) == Seq::<Seq<char>>::empty(),
        fs::entry_texts(entries, n + 1) == fs::entry_texts(entries, n).push(
            if entries[n].is_dir {
                entries[n].name@ + "/"@
            } else {
                entries[n].name@
            },
        ),
{
}

/// A folder is answered with its entries in order, 500 at most, and how many they are;
/// where there are more it says so, and where there are none that.
pub proof fn a_folder_is_listed_in_order(path: Seq<char>, entries: Seq<DirEntry>, loc: Locale)
    ensures
        ({
            let n: int = if entries.len() > 500 {
                500
            } else {
                entries.len() as int
            };
            let names = fs::entry_texts(entries, n);
            let rows = text::ordered(names);
            let list = loc.text2(
                "tool.fs_list.result.header"@,
                "path"@,
                path,
                "n"@,
                text::decimal(n as nat),
            ) + "\n"@ + text::joined(rows, "\n"@);
            &&& text::is_ordered(rows)
            &&& rows.to_multiset() == names.to_multiset()
            &&& entries.len() == 0 ==> fs::list_text(path, entries, loc) == loc.text1(
                "tool.fs_list.result.empty"@,
                "path"@,
                path,
            )
            &&& 0 < entries.len() <= 500 ==> fs::list_text(path, entries, loc)
                == list
            &&& entries.len() > 500 ==> fs::list_text(path, entries, loc) == list
                + "\n"@ + loc.text1(
                "tool.fs_list.truncated"@,
                "max"@,
                text::decimal(500),
            )
        }),
{
    let n: int = if entries.len() > 500 {
        500
    } else {
        entries.len() as int
    };
    text::ordered_is_a_permutation(fs::entry_texts(entries, n));
}

// ---------- process results ----------

/// A process result has the command where there is one, what was printed on either
/// stream where that is not blank, and the exit code of a failure, in this order, with
/// blank lines between them; where there is nothing of all this, it says so.
pub proof fn a_process_result_has_its_sections(
    command: Seq<char>,
    stdout: Seq<char>,
    stderr: Seq<char>,
    code: Option<i32>,
    loc: Locale,
)
    ensures
        ({
            let c = seq!["command:\n"@ + text::trimmed(command)];
            let o = seq!["stdout:\n"@ + stdout];
            let e = seq!["stderr:\n"@ + stderr];
            let none = Seq::<Seq<char>>::empty();
            let failed = seq![
                loc.text("python.console.exit"@) + " "@ + text::decimal_signed(
                    match code {
                        Some(n) => n as int,
                        None => -1,
                    },
                ),
            ];
            let before = if text::trimmed(command).len() > 0 {
                c
            } else {
                none
            };
            let printed = (if text::is_blank(stdout) {
                none
            } else {
                o
            }) + if text::is_blank(stderr) {
                none
            } else {
                e
            };
            &&& console::console_parts(Some(command), stdout, stderr, true, code, loc) == before
                + printed
            &&& console::console_parts(Some(command), stdout, stderr, false, code, loc) == before
                + printed + failed
            &&& console::console_parts(None, stdout, stderr, true, code, loc) == printed
            &&& console::console_parts(None, stdout, stderr, false, code, loc) == printed + failed
        }),
        forall|success: bool, cmd: Option<Seq<char>>|
            ({
                let parts = #[trigger] console::console_parts(
                    cmd,
                    stdout,
                    stderr,
                    success,
                    code,
                    loc,
                );
                console::console_text(cmd, stdout, stderr, success, code, loc) == if parts.len()
                    == 0 {
                    loc.text("python.console.empty"@)
                } else {
                    text::joined(parts, "\n\n"@)
                }
            }),
{
    let c = seq!["command:\n"@ + text::trimmed(command)];
    let o = seq!["stdout:\n"@ + stdout];
    let e = seq!["stderr:\n"@ + stderr];
    let none = Seq::<Seq<char>>::empty();
    let failed = seq![
        loc.text("python.console.exit"@) + " "@ + text::decimal_signed(
            match code {
                Some(n) => n as int,
                None => -1,
            },
        ),
    ];
    let before = if text::trimmed(command).len() > 0 {
        c
    } else {
        none
    };
    let printed = (if text::is_blank(stdout) {
        none
    } else {
        o
    }) + if text::is_blank(stderr) {
        none
    } else {
        e
    };
    assert(console::console_parts(Some(command), stdout, stderr, true, code, loc) =~= before
        + printed);
    assert(console::console_parts(Some(command), stdout, stderr, false, code, loc) =~= before
        + printed + failed);
    assert(console::console_parts(None, stdout, stderr, true, code, loc) =~= printed);
    assert(console::console_parts(None, stdout, stderr, false, code, loc) =~= printed + failed);
}

/// A process result is read line by line. A head begins its section; an exit label ends
/// the section it stands in; any other line belongs to the section it stands in, and
/// where it stands in none and is not blank the text is no process result.
pub proof fn one_line_more_of_a_result(
    lines: Seq<Seq<char>>,
    line: Seq<char>,
    more: Seq<Seq<char>>,
)
    ensures
        ({
            let st = console::read_lines(console::nothing_read(), lines, more);
            let now = console::read_lines(console::nothing_read(), lines.push(line), more);
            let head = line == "command:"@ || line == "stdout:"@ || line == "stderr:"@ || line
                == "files:"@;
            let plain = !head && console::exit_rest(line, more) is None;
            &&& line == "command:"@ ==> now == (Reading { sec: Section::Command, ..st })
            &&& line == "stdout:"@ ==> now == (Reading { sec: Section::Stdout, ..st })
            &&& line == "stderr:"@ ==> now == (Reading { sec: Section::Stderr, ..st })
            &&& line == "files:"@ ==> now == (Reading { sec: Section::Files, ..st })
            &&& !head && console::exit_rest(line, more) is Some ==> now == (Reading {
                exit: text::int_of(text::trimmed(console::exit_rest(line, more)->0)),
                sec: Section::Outside,
                ..st
            })
            &&& plain && st.sec == Section::Command ==> now == (Reading {
                cmd: st.cmd.push(line),
                ..st
            })
            &&& plain && st.sec == Section::Stdout ==> now == (Reading {
                out: st.out.push(line),
                ..st
            })
            &&& plain && st.sec == Section::Stderr ==> now == (Reading {
                err: st.err.push(line),
                ..st
            })
            &&& plain && st.sec == Section::Files ==> now == (Reading {
                files: st.files.push(line),
                ..st
            })
            &&& plain && st.sec == Section::Outside ==> now == (Reading {
                ok: st.ok && text::is_blank(line),
                ..st
            })
        }),
{
    assert(lines.push(line).drop_last() =~= lines);
    let st = console::read_lines(console::nothing_read(), lines, more);
    heads_differ();
}

proof fn heads_differ()
    ensures
        "command:"@ != "stdout:"@ && "command:"@ != "stderr:"@ && "command:"@ != "files:"@,
        "stdout:"@ != "stderr:"@ && "stdout:"@ != "files:"@ && "stderr:"@ != "files:"@,
{
    reveal_strlit("command:");
    reveal_strlit("stdout:");
    reveal_strlit("stderr:");
    reveal_strlit("files:");
    assert("command:"@[0] == 'c');
    assert("files:"@[0] == 'f');
    assert("stdout:"@[3] == 'o');
    assert("stderr:"@[3] == 'e');
}

// ---------- JSON ----------

/// What stands under a key of an object is what stands under it there, wherever that is
/// among the others; and nothing where no key is this one.
pub proof fn a_field_is_found_by_its_key(pairs: Seq<(Seq<char>, Seq<char>)>, key: Seq<char>, i: int)
    requires
        json::keys_differ(pairs),
    ensures
        0 <= i < pairs.len() && pairs[i].0 == key ==> JsonView::Obj(pairs).field(key)
            == json::json_of(pairs[i].1),
        (forall|j: int| 0 <= j < pairs.len() ==> (#[trigger] pairs[j]).0 != key) ==> JsonView::Obj(
            pairs,
        ).field(key) is None,
{
    key_is_found(pairs, key, 0);
    if 0 <= i < pairs.len() && pairs[i].0 == key {
        let k = json::key_from(pairs, key, 0);
        if k < i {
            assert(pairs[k].0 != pairs[i].0);
        } else if i < k {
            assert(pairs[i].0 != pairs[k].0);
        }
    }
}

proof fn key_is_found(pairs: Seq<(Seq<char>, Seq<char>)>, key: Seq<char>, from: int)
    requires
        0 <= from <= pairs.len(),
    ensures
        ({
            let k = json::key_from(pairs, key, from);
            &&& k == -1 || from <= k < pairs.len() && pairs[k].0 == key
            &&& k == -1 ==> forall|j: int| from <= j < pairs.len() ==> (#[trigger] pairs[j]).0
                != key
        }),
    decreases pairs.len() - from,
{
    if from < pairs.len() && pairs[from].0 != key {
        key_is_found(pairs, key, from + 1);
    }
}

/// A value is read as what it is and as nothing else.
pub proof fn a_value_is_read_as_what_it_is(v: JsonView, key: Seq<char>, s: Seq<char>, b: bool)
    ensures
        v.field(key) == Some(JsonView::Str(s)) ==> v.str_at(key) == Some(s) && v.uint_at(key)
            is None && v.bool_at(key) is None,
        v.field(key) == Some(JsonView::Bool(b)) ==> v.bool_at(key) == Some(b) && v.str_at(key)
            is None && v.uint_at(key) is None,
        v.field(key) matches Some(JsonView::Num(_, n)) ==> v.uint_at(key) == n && v.str_at(key)
            is None && v.bool_at(key) is None,
        v.field(key) is None ==> v.str_at(key) is None && v.uint_at(key) is None && v.bool_at(key)
            is None && v.strings_at(key) == Seq::<Seq<char>>::empty(),
        v.field(key) matches Some(JsonView::Arr(items)) ==> v.strings_at(key) == json::only_strings(
            items,
        ),
{
}

/// The strings of an array come in their order, without what is none.
pub proof fn one_item_more(items: Seq<Seq<char>>, item: Seq<char>)
    ensures
        json::only_strings(Seq::empty()) == Seq::<Seq<char>>::empty(),
        json::only_strings(items.push(item)) == match json::json_of(item) {
            Some(JsonView::Str(s)) => json::only_strings(items).push(s),
            _ => json::only_strings(items),
        },
{
    assert(items.push(item).drop_last() =~= items);
}

// ---------- texts ----------

/// Placeholders are filled one after the other: every `{name}` in the text of a key is
/// exchanged for its value, once, and everything between them stays.
pub proof fn placeholders_are_filled(
    loc: Locale,
    key: Seq<char>,
    pieces: Seq<Seq<char>>,
    name: Seq<char>,
    value: Seq<char>,
)
    requires
        text_laws::is_cut(pieces, seq!['{'] + name + seq!['}']),
        loc.text(key) == text_laws::woven(pieces, seq!['{'] + name + seq!['}']),
    ensures
        loc.text1(key, name, value) == text_laws::woven(pieces, value),
{
    text_laws::every_occurrence_is_exchanged_once(
        pieces,
        seq!['{'] + name + seq!['}'],
        value,
    );
}

/// Several placeholders are filled in the order they are given in.
pub proof fn placeholders_are_filled_in_turn(
    loc: Locale,
    key: Seq<char>,
    n1: Seq<char>,
    v1: Seq<char>,
    n2: Seq<char>,
    v2: Seq<char>,
    n3: Seq<char>,
    v3: Seq<char>,
    n4: Seq<char>,
    v4: Seq<char>,
)
    ensures
        loc.text2(key, n1, v1, n2, v2) == text::replaced(
            loc.text1(key, n1, v1),
            seq!['{'] + n2 + seq!['}'],
            v2,
        ),
        loc.text3(key, n1, v1, n2, v2, n3, v3) == text::replaced(
            loc.text2(key, n1, v1, n2, v2),
            seq!['{'] + n3 + seq!['}'],
            v3,
        ),
        loc.text4(key, n1, v1, n2, v2, n3, v3, n4, v4) == text::replaced(
            loc.text3(key, n1, v1, n2, v2, n3, v3),
            seq!['{'] + n4 + seq!['}'],
            v4,
        ),
{
}

/// A text is that of its own language under its own key; an unknown key is its own text.
pub proof fn a_text_is_found_by_its_key(key: Seq<char>, i: int)
    requires
        0 <= i < crate::bundle::BUNDLE@.len(),
    ensures
        crate::bundle::BUNDLE@[i].0@ == key && (forall|j: int|
            0 <= j < i ==> (#[trigger] crate::bundle::BUNDLE@[j]).0@ != key) ==> (Locale {
            lang: Lang::Ru,
        }).text(key) == crate::bundle::BUNDLE@[i].1@ && (Locale { lang: Lang::En }).text(key)
            == crate::bundle::BUNDLE@[i].2@,
        (forall|j: int|
            0 <= j < crate::bundle::BUNDLE@.len() ==> (#[trigger] crate::bundle::BUNDLE@[j]).0@
                != key) ==> forall|loc: Locale| #[trigger] loc.text(key) == key,
{
    reveal(Locale::text);
    entry_is_found(key, 0);
    let k = crate::i18n::entry_from(key, 0);
    if crate::bundle::BUNDLE@[i].0@ == key && (forall|j: int|
        0 <= j < i ==> (#[trigger] crate::bundle::BUNDLE@[j]).0@ != key) {
        assert(k != -1);
        if k < i {
            assert(crate::bundle::BUNDLE@[k].0@ != key);
        }
        assert(k == i);
    }
}

proof fn entry_is_found(key: Seq<char>, from: int)
    requires
        0 <= from <= crate::bundle::BUNDLE@.len(),
    ensures
        ({
            let k = crate::i18n::entry_from(key, from);
            &&& k == -1 || from <= k < crate::bundle::BUNDLE@.len() && crate::bundle::BUNDLE@[k].0@
                == key
            &&& k == -1 ==> forall|j: int|
                from <= j < crate::bundle::BUNDLE@.len() ==> (
                #[trigger] crate::bundle::BUNDLE@[j]).0@ != key
            &&& k >= 0 ==> forall|j: int|
                from <= j < k ==> (#[trigger] crate::bundle::BUNDLE@[j]).0@ != key
        }),
    decreases crate::bundle::BUNDLE@.len() - from,
{
    if from < crate::bundle::BUNDLE@.len() && crate::bundle::BUNDLE@[from].0@ != key {
        entry_is_found(key, from + 1);
    }
}

} // verus!
