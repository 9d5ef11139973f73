//! Identifiers of notes, chats and profiles: 128 bits, written as hyphenated hex.

use vstd::prelude::*;

verus! {

pub open spec fn hex_digit(d: nat) -> char {
    if d % 16 < 10 {
        (('0' as u32) + d % 16) as char
    } else {
        (('a' as u32) + (d % 16 - 10)) as char
    }
}

/// The last `n` hexadecimal digits of a number.
pub open spec fn hex_digits(v: nat, n: nat) -> Seq<char>
    decreases n,
{
    if n == 0 {
        Seq::empty()
    } else {
        hex_digits(v / 16, (n - 1) as nat).push(hex_digit(v % 16))
    }
}

fn hex_char(d: u64) -> (c: char)
    requires
        d < 16,
    ensures
        c == hex_digit(d as nat),
{
    if d < 10 {
        (48u8 + d as u8) as char
    } else {
        (97u8 + (d - 10) as u8) as char
    }
}

/// The last `n` hexadecimal digits of a number.
pub fn hex(v: u64, n: usize) -> (r: String)
    ensures
        r@ == hex_digits(v as nat, n as nat),
    decreases n,
{
    if n == 0 {
        return String::new();
    }
    let mut r: String = hex(v / 16, n - 1);
    r.push(hex_char(v % 16));
    r
}

/// A hexadecimal digit is one of `0` to `9` and `a` to `f`; of `n` digits there are
/// `n`.
pub proof fn hex_digits_are_hex(v: nat, n: nat)
    ensures
        hex_digits(v, n).len() == n,
        forall|i: int|
            0 <= i < n ==> {
                let c = #[trigger] hex_digits(v, n)[i];
                '0' <= c <= '9' || 'a' <= c <= 'f'
            },
    decreases n,
{
    if n > 0 {
        hex_digits_are_hex(v / 16, (n - 1) as nat);
        let before = hex_digits(v / 16, (n - 1) as nat);
        let now = hex_digits(v, n);
        assert forall|i: int| 0 <= i < n implies {
            let c = #[trigger] now[i];
            '0' <= c <= '9' || 'a' <= c <= 'f'
        } by {
            if i < n - 1 {
                assert(now[i] == before[i]);
            }
        }
    }
}

/// An identifier in its usual form: groups of 8, 4, 4, 4 and 12 digits.
pub open spec fn hyphenated(id: u128) -> Seq<char> {
    let d = hex_digits(id as nat, 32);
    d.subrange(0, 8) + seq!['-'] + d.subrange(8, 12) + seq!['-'] + d.subrange(12, 16) + seq!['-']
        + d.subrange(16, 20) + seq!['-'] + d.subrange(20, 32)
}

/// The identifier that a text stands for, by the forms that the `uuid` crate reads.
pub uninterp spec fn id_of(s: Seq<char>) -> Option<u128>;

/// `uuid::Uuid::parse_str`. Which forms it reads is left to the name.
#[verifier::external_body]
pub(crate) fn parse(s: &str) -> (r: Option<u128>)
    ensures
        r == id_of(s@),
{
    uuid::Uuid::parse_str(s).ok().map(|u| u.as_u128())
}

/// `uuid::Uuid`'s `Display`: small hexadecimal digits in groups of 8, 4, 4, 4 and 12,
/// with hyphens between them, which `uuid::Uuid::parse_str` reads back.
#[verifier::external_body]
pub(crate) fn show(id: u128) -> (r: String)
    ensures
        r@ == hyphenated(id),
        id_of(r@) == Some(id),
{
    uuid::Uuid::from_u128(id).to_string()
}

/// `uuid::Uuid::simple`: the 32 small hexadecimal digits, without hyphens.
#[verifier::external_body]
pub(crate) fn show_simple(id: u128) -> (r: String)
    ensures
        r@ == hex_digits(id as nat, 32),
{
    uuid::Uuid::from_u128(id).simple().to_string()
}

} // verus!
