//! The shape of a text file: what reading shows of it, and what writing restores.

use vstd::prelude::*;
use crate::text;

verus! {

/// The characters that bytes stand for, with U+FFFD in place of what is not UTF-8.
pub uninterp spec fn utf8_lossy(bytes: Seq<u8>) -> Seq<char>;

/// `String::from_utf8_lossy`. Bytes that are valid UTF-8 are decoded as they
/// stand; which replacement characters come out of others is left to the name.
#[verifier::external_body]
pub(crate) fn from_utf8_lossy(bytes: &[u8]) -> (r: String)
    ensures
        r@ == utf8_lossy(bytes@),
        vstd::utf8::valid_utf8(bytes@) ==> r@ == vstd::utf8::decode_utf8(bytes@),
{
    String::from_utf8_lossy(bytes).into_owned()
}

/// A file's text, and the shape it is written back in.
#[derive(Debug)]
pub struct TextFile {
    /// The content with `\n` at the end of its lines and without a mark.
    pub text: String,
    /// The lines end with a carriage return and a line feed.
    pub crlf: bool,
    /// The file begins with a byte order mark.
    pub bom: bool,
}

/// The byte order mark of UTF-8.
pub open spec fn mark() -> Seq<u8> {
    seq![0xEFu8, 0xBBu8, 0xBFu8]
}

pub open spec fn has_mark(bytes: Seq<u8>) -> bool {
    bytes.len() >= 3 && bytes[0] == 0xEF && bytes[1] == 0xBB && bytes[2] == 0xBF
}

/// What follows the mark.
pub open spec fn unmarked(bytes: Seq<u8>) -> Seq<u8> {
    if has_mark(bytes) {
        bytes.skip(3)
    } else {
        bytes
    }
}

/// Carriage return and line feed.
pub open spec fn crlf() -> Seq<char> {
    seq!['\r', '\n']
}

pub open spec fn lf() -> Seq<char> {
    seq!['\n']
}

/// The text with plain line feeds.
pub open spec fn with_lf(s: Seq<char>) -> Seq<char> {
    text::replaced(s, crlf(), lf())
}

/// The text with a carriage return before each line feed.
pub open spec fn with_crlf(s: Seq<char>) -> Seq<char> {
    text::replaced(s, lf(), crlf())
}

/// The bytes of a file of this shape.
pub open spec fn file_bytes(crlf: bool, bom: bool, text: Seq<char>) -> Seq<u8> {
    let body = vstd::utf8::encode_utf8(
        if crlf {
            with_crlf(text)
        } else {
            text
        },
    );
    if bom {
        mark() + body
    } else {
        body
    }
}

/// `\r\n` turned into `\n`, in an argument as in a file.
pub fn normalized(s: &str) -> (r: String)
    ensures
        r@ == with_lf(s@),
{
    proof {
        reveal_strlit("\r\n");
        reveal_strlit("\n");
        assert("\r\n"@ =~= crlf());
        assert("\n"@ =~= lf());
    }
    text::replace(s, "\r\n", "\n")
}

impl TextFile {
    /// `self` is what loading `bytes` gives.
    pub open spec fn is_load_of(self, bytes: Seq<u8>) -> bool {
        let raw = utf8_lossy(unmarked(bytes));
        &&& self.bom == has_mark(bytes)
        &&& self.crlf == text::occurs(raw, crlf())
        &&& self.text@ == with_lf(raw)
        &&& vstd::utf8::valid_utf8(unmarked(bytes)) ==> raw == vstd::utf8::decode_utf8(
            unmarked(bytes),
        )
    }

    /// Reads a file. A file with a zero byte is no text.
    pub fn load(bytes: &[u8]) -> (r: Option<Self>)
        ensures
            match r {
                Some(f) => !bytes@.contains(0) && f.is_load_of(bytes@),
                None => bytes@.contains(0),
            },
    {
        let mut i: usize = 0;
        while i < bytes.len()
            invariant
                i <= bytes.len(),
                forall|j: int| 0 <= j < i ==> bytes@[j] != 0,
            decreases bytes.len() - i,
        {
            if bytes[i] == 0 {
                assert(bytes@[i as int] == 0);
                return None;
            }
            i = i + 1;
        }
        let bom: bool = bytes.len() >= 3 && bytes[0] == 0xEF && bytes[1] == 0xBB && bytes[2]
            == 0xBF;
        let raw: String = if bom {
            let rest: &[u8] = vstd::slice::slice_subrange(bytes, 3, bytes.len());
            assert(rest@ =~= unmarked(bytes@));
            from_utf8_lossy(rest)
        } else {
            from_utf8_lossy(bytes)
        };
        proof {
            reveal_strlit("\r\n");
            assert("\r\n"@ =~= crlf());
        }
        let has: bool = text::contains(raw.as_str(), "\r\n");
        Some(TextFile { text: normalized(raw.as_str()), crlf: has, bom })
    }

    /// The bytes to write for `text`, in this file's shape.
    pub fn encode(&self, text: &str) -> (r: Vec<u8>)
        ensures
            r@ == file_bytes(self.crlf, self.bom, text@),
    {
        let mut out: Vec<u8> = Vec::new();
        if self.bom {
            out.push(0xEF);
            out.push(0xBB);
            out.push(0xBF);
        }
        assert(out@ =~= if self.bom {
            mark()
        } else {
            Seq::empty()
        });
        let body: String = if self.crlf {
            proof {
                reveal_strlit("\r\n");
                reveal_strlit("\n");
                assert("\r\n"@ =~= crlf());
                assert("\n"@ =~= lf());
            }
            text::replace(text, "\n", "\r\n")
        } else {
            text::owned(text)
        };
        let bytes: &[u8] = body.as_str().as_bytes();
        out.extend_from_slice(bytes);
        assert(out@ =~= file_bytes(self.crlf, self.bom, text@));
        out
    }
}

// ---------- what reading and writing undo ----------

/// Each line feed follows a carriage return.
pub open spec fn ends_paired(s: Seq<char>) -> bool {
    forall|i: int| 0 <= i < s.len() && #[trigger] s[i] == '\n' ==> i > 0 && s[i - 1] == '\r'
}

proof fn stands_crlf(s: Seq<char>)
    ensures
        text::stands_at(s, crlf(), 0) <==> s.len() >= 2 && s[0] == '\r' && s[1] == '\n',
{
    if s.len() >= 2 {
        assert(s.subrange(0, 2).len() == 2);
        assert(s.subrange(0, 2)[0] == s[0] && s.subrange(0, 2)[1] == s[1]);
        if s[0] == '\r' && s[1] == '\n' {
            assert(s.subrange(0, 2) =~= crlf());
        }
    }
}

proof fn stands_lf(s: Seq<char>)
    ensures
        text::stands_at(s, lf(), 0) <==> s.len() >= 1 && s[0] == '\n',
{
    if s.len() >= 1 {
        assert(s.subrange(0, 1).len() == 1 && s.subrange(0, 1)[0] == s[0]);
        if s[0] == '\n' {
            assert(s.subrange(0, 1) =~= lf());
        }
    }
}

/// Adding the carriage returns and taking them away again changes nothing.
proof fn lf_after_crlf(s: Seq<char>)
    ensures
        with_lf(with_crlf(s)) == s,
        with_crlf(s).len() > 0 ==> with_crlf(s)[0] != '\n',
        (s.len() > 0) == (with_crlf(s).len() > 0),
    decreases s.len(),
{
    if s.len() > 0 {
        let rest = with_crlf(s.skip(1));
        let b = with_crlf(s);
        lf_after_crlf(s.skip(1));
        stands_lf(s);
        stands_crlf(b);
        if s[0] == '\n' {
            assert(b =~= crlf() + rest);
            assert(b.skip(2) =~= rest);
            assert(with_lf(b) =~= lf() + s.skip(1));
        } else {
            assert(b =~= seq![s[0]] + rest);
            assert(b.skip(1) =~= rest);
            assert(with_lf(b) =~= seq![s[0]] + s.skip(1));
        }
        assert(with_lf(b) =~= s);
    }
}

/// Adding the carriage returns brings in no other character.
proof fn crlf_keeps(s: Seq<char>, c: char)
    requires
        c != '\r' && c != '\n',
    ensures
        with_crlf(s).contains(c) ==> s.contains(c),
        s.len() > 0 && s[0] != c ==> with_crlf(s).len() > 0 && with_crlf(s)[0] != c,
    decreases s.len(),
{
    if s.len() > 0 {
        let tail = s.skip(1);
        let b = with_crlf(s);
        crlf_keeps(tail, c);
        stands_lf(s);
        if b.contains(c) {
            let i = choose|i: int| 0 <= i < b.len() && b[i] == c;
            if s[0] == '\n' {
                assert(b =~= crlf() + with_crlf(tail));
                assert(with_crlf(tail)[i - 2] == c);
                assert(with_crlf(tail).contains(c));
            } else if i > 0 {
                assert(b =~= seq![s[0]] + with_crlf(tail));
                assert(with_crlf(tail)[i - 1] == c);
                assert(with_crlf(tail).contains(c));
            } else {
                assert(b =~= seq![s[0]] + with_crlf(tail));
                assert(s[0] == c);
            }
            if tail.contains(c) {
                let j = choose|j: int| 0 <= j < tail.len() && tail[j] == c;
                assert(s[j + 1] == c);
            }
        }
    }
}

/// Where there is a line feed, adding the carriage returns leaves a `\r\n`.
proof fn crlf_marks_every_line(s: Seq<char>)
    ensures
        s.contains('\n') ==> text::occurs(with_crlf(s), crlf()),
    decreases s.len(),
{
    if s.len() > 0 {
        let tail = s.skip(1);
        let b = with_crlf(s);
        stands_lf(s);
        stands_crlf(b);
        if s[0] == '\n' {
            assert(b =~= crlf() + with_crlf(tail));
            assert(text::stands_at(b, crlf(), 0));
        } else if s.contains('\n') {
            let j = choose|j: int| 0 <= j < s.len() && s[j] == '\n';
            assert(tail[j - 1] == '\n');
            crlf_marks_every_line(tail);
            let i = choose|i: int| text::stands_at(with_crlf(tail), crlf(), i);
            assert(b =~= seq![s[0]] + with_crlf(tail));
            assert(b.subrange(i + 1, i + 3) =~= with_crlf(tail).subrange(i, i + 2));
            assert(text::stands_at(b, crlf(), i + 1));
        }
    }
}

/// Taking the carriage returns away and adding them again changes nothing where
/// each line feed has one.
proof fn crlf_after_lf(s: Seq<char>)
    requires
        ends_paired(s),
    ensures
        with_crlf(with_lf(s)) == s,
    decreases s.len(),
{
    if s.len() > 0 {
        stands_crlf(s);
        let b = with_lf(s);
        stands_lf(b);
        if text::stands_at(s, crlf(), 0) {
            let tail = s.skip(2);
            assert forall|i: int| 0 <= i < tail.len() && #[trigger] tail[i] == '\n' implies i > 0
                && tail[i - 1] == '\r' by {
                assert(s[i + 2] == '\n');
            }
            crlf_after_lf(tail);
            assert(b =~= lf() + with_lf(tail));
            assert(b.skip(1) =~= with_lf(tail));
            assert(with_crlf(b) =~= crlf() + tail);
        } else {
            let tail = s.skip(1);
            assert forall|i: int| 0 <= i < tail.len() && #[trigger] tail[i] == '\n' implies i > 0
                && tail[i - 1] == '\r' by {
                assert(s[i + 1] == '\n');
            }
            crlf_after_lf(tail);
            assert(b =~= seq![s[0]] + with_lf(tail));
            assert(b.skip(1) =~= with_lf(tail));
            assert(with_crlf(b) =~= seq![s[0]] + tail);
        }
        assert(with_crlf(b) =~= s);
    }
}

/// Without `\r\n` in it a text is its own normal form.
proof fn lf_is_normal(s: Seq<char>)
    requires
        !text::occurs(s, crlf()),
    ensures
        with_lf(s) == s,
    decreases s.len(),
{
    if s.len() > 0 {
        let tail = s.skip(1);
        assert(!text::occurs(tail, crlf())) by {
            assert forall|i: int| !text::stands_at(tail, crlf(), i) by {
                if text::stands_at(tail, crlf(), i) {
                    assert(s.subrange(i + 1, i + 3) =~= tail.subrange(i, i + 2));
                    assert(text::stands_at(s, crlf(), i + 1));
                }
            }
        }
        lf_is_normal(tail);
        assert(!text::stands_at(s, crlf(), 0));
        assert(with_lf(s) =~= seq![s[0]] + tail);
        assert(with_lf(s) =~= s);
    }
}

/// A scalar other than zero has no zero byte in its encoding.
proof fn scalar_bytes_not_zero(c: u32)
    requires
        vstd::utf8::is_scalar(c),
        c != 0,
    ensures
        forall|i: int|
            0 <= i < vstd::utf8::encode_scalar(c).len() ==> #[trigger] vstd::utf8::encode_scalar(
                c,
            )[i] != 0,
{
    assert(c <= 0x7f ==> (c & 0x7f) as u8 != 0) by (bit_vector)
        requires
            c != 0,
    ;
    assert((0x80u8 | ((c & 0x3f) as u8)) != 0) by (bit_vector);
    assert((0x80u8 | (((c >> 6) & 0x3f) as u8)) != 0) by (bit_vector);
    assert((0x80u8 | (((c >> 12) & 0x3f) as u8)) != 0) by (bit_vector);
    assert((0xC0u8 | (((c >> 6) & 0x1f) as u8)) != 0) by (bit_vector);
    assert((0xE0u8 | (((c >> 12) & 0x0f) as u8)) != 0) by (bit_vector);
    assert((0xF0u8 | (((c >> 18) & 0x07) as u8)) != 0) by (bit_vector);
}

/// A text without the zero character has no zero byte in its encoding.
proof fn bytes_not_zero(s: Seq<char>)
    requires
        !s.contains('\0'),
    ensures
        !vstd::utf8::encode_utf8(s).contains(0),
    decreases s.len(),
{
    if s.len() > 0 {
        let tail = s.drop_first();
        assert(!tail.contains('\0')) by {
            if tail.contains('\0') {
                let i = choose|i: int| 0 <= i < tail.len() && tail[i] == '\0';
                assert(s[i + 1] == '\0');
            }
        }
        bytes_not_zero(tail);
        let c: char = s[0];
        assert(c != '\0');
        vstd::utf8::char_is_scalar(c);
        assert(c as u32 != 0) by {
            if c as u32 == 0 {
                vstd::utf8::char_u32_cast(c, 0);
            }
        }
        scalar_bytes_not_zero(s[0] as u32);
        let head = vstd::utf8::encode_scalar(s[0] as u32);
        let all = vstd::utf8::encode_utf8(s);
        assert(all =~= head + vstd::utf8::encode_utf8(tail));
        assert forall|i: int| 0 <= i < all.len() implies all[i] != 0 by {
            if i >= head.len() {
                assert(all[i] == vstd::utf8::encode_utf8(tail)[i - head.len()]);
            } else {
                assert(all[i] == head[i]);
            }
        }
    }
}

/// Bytes that begin with the mark begin with the character U+FEFF.
proof fn mark_is_a_character(bytes: Seq<u8>)
    requires
        vstd::utf8::valid_utf8(bytes),
        has_mark(bytes),
    ensures
        vstd::utf8::decode_utf8(bytes).len() > 0,
        vstd::utf8::decode_utf8(bytes)[0] == '\u{feff}',
{
    assert(((((0xEFu8 & 0x0F) as u32) << 12) | (((0xBBu8 & 0x3f) as u32) << 6) | ((0xBFu8 & 0x3f)
        as u32)) == 0xFEFFu32) by (bit_vector);
    assert(vstd::utf8::decode_first_scalar(bytes) == 0xFEFF);
}

/// Reading back what was written gives the text that was written, in the shape it
/// was written in. This leaves out a text with a zero character, which reads as a
/// binary file; a text with `\r\n` in a file whose lines end with `\n`; and a text
/// that begins with the mark's own character in a file without a mark.
pub proof fn reading_gives_back_what_was_written(f: TextFile, t: Seq<char>, g: TextFile)
    requires
        !t.contains('\0'),
        f.crlf || !text::occurs(t, crlf()),
        f.bom || t.len() == 0 || t[0] != '\u{feff}',
        g.is_load_of(file_bytes(f.crlf, f.bom, t)),
    ensures
        !file_bytes(f.crlf, f.bom, t).contains(0),
        g.text@ == t,
        g.bom == f.bom,
        g.crlf ==> f.crlf,
        f.crlf && t.contains('\n') ==> g.crlf,
{
    let shown = if f.crlf {
        with_crlf(t)
    } else {
        t
    };
    let body = vstd::utf8::encode_utf8(shown);
    let bytes = file_bytes(f.crlf, f.bom, t);
    vstd::utf8::encode_utf8_valid_utf8(shown);
    vstd::utf8::encode_utf8_decode_utf8(shown);
    if f.crlf {
        lf_after_crlf(t);
        crlf_keeps(t, '\0');
        crlf_keeps(t, '\u{feff}');
        crlf_marks_every_line(t);
    } else {
        lf_is_normal(t);
    }
    bytes_not_zero(shown);
    if f.bom {
        assert(bytes =~= mark() + body);
        assert(bytes.skip(3) =~= body);
        assert(!bytes.contains(0)) by {
            assert forall|i: int| 0 <= i < bytes.len() implies bytes[i] != 0 by {
                if i >= 3 {
                    assert(bytes[i] == body[i - 3]);
                }
            }
        }
    } else {
        assert(bytes == body);
        if has_mark(bytes) {
            mark_is_a_character(bytes);
        }
    }
    assert(unmarked(bytes) == body);
}

/// Writing a file back unchanged restores its bytes. This leaves out a file that is
/// not UTF-8, and one that mixes the two line ends.
pub proof fn writing_back_restores_the_file(f: TextFile, bytes: Seq<u8>)
    requires
        f.is_load_of(bytes),
        vstd::utf8::valid_utf8(unmarked(bytes)),
        f.crlf ==> ends_paired(vstd::utf8::decode_utf8(unmarked(bytes))),
    ensures
        file_bytes(f.crlf, f.bom, f.text@) == bytes,
{
    let raw = vstd::utf8::decode_utf8(unmarked(bytes));
    vstd::utf8::decode_utf8_encode_utf8(unmarked(bytes));
    if f.crlf {
        crlf_after_lf(raw);
    } else {
        lf_is_normal(raw);
    }
    assert(file_bytes(f.crlf, f.bom, f.text@) =~= bytes);
}

} // verus!
