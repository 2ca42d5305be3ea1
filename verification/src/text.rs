//! Character classification and string comparison helpers shared by the
//! tokenizer and the parser.

use vstd::prelude::*;

verus! {

/// The fixed punctuation set of the SQL dialect: each of these characters is
/// always a token of its own.
pub open spec fn is_punct_char(c: char) -> bool {
    c == ',' || c == ';' || c == '(' || c == ')' || c == '=' || c == '<' || c == '>'
}

/// Whether a character is whitespace, by Unicode's `White_Space` property.
pub uninterp spec fn is_space_char(c: char) -> bool;

/// Relies on `char::is_whitespace` of std: true exactly for characters with
/// the Unicode `White_Space` property, a function of the character alone.
#[verifier::external_body]
pub fn char_is_space(c: char) -> (r: bool)
    ensures
        r == is_space_char(c),
{
    c.is_whitespace()
}

pub fn char_is_punct(c: char) -> (r: bool)
    ensures
        r == is_punct_char(c),
{
    c == ',' || c == ';' || c == '(' || c == ')' || c == '=' || c == '<' || c == '>'
}

/// Case-insensitive character equality that folds ASCII letters only, the
/// per-character relation behind `eq_ignore_ascii_case`.
pub open spec fn eqic_char(a: char, b: char) -> bool {
    a == b || ('A' <= a && a <= 'Z' && a as int + 32 == b as int) || ('A' <= b && b <= 'Z'
        && b as int + 32 == a as int)
}

/// Case-insensitive string equality over ASCII letters.
pub open spec fn seq_eqic(a: Seq<char>, b: Seq<char>) -> bool {
    a.len() == b.len() && (forall|i: int| 0 <= i < a.len() ==> eqic_char(a[i], b[i]))
}

pub fn chars_eq_ic(a: char, b: char) -> (r: bool)
    ensures
        r == eqic_char(a, b),
{
    let au = a as u32;
    let bu = b as u32;
    au == bu || (au >= 65 && au <= 90 && au + 32 == bu) || (bu >= 65 && bu <= 90 && bu + 32 == au)
}

/// Exact string equality, decided character by character.
pub fn str_eq(a: &str, b: &str) -> (r: bool)
    ensures
        r == (a@ == b@),
{
    let alen = a.unicode_len();
    let blen = b.unicode_len();
    if alen != blen {
        return false;
    }
    let mut i: usize = 0;
    while i < alen
        invariant
            alen == a@.len(),
            blen == b@.len(),
            alen == blen,
            i <= alen,
            forall|j: int| 0 <= j < i ==> a@[j] == b@[j],
        decreases alen - i,
    {
        if a.get_char(i) != b.get_char(i) {
            return false;
        }
        i += 1;
    }
    proof {
        assert(a@ =~= b@);
    }
    true
}

/// Case-insensitive string equality, folding ASCII letters, as
/// `str::eq_ignore_ascii_case` compares character by character.
pub fn str_eq_ignore_case(a: &str, b: &str) -> (r: bool)
    ensures
        r == seq_eqic(a@, b@),
{
    let alen = a.unicode_len();
    let blen = b.unicode_len();
    if alen != blen {
        return false;
    }
    let mut i: usize = 0;
    while i < alen
        invariant
            alen == a@.len(),
            blen == b@.len(),
            alen == blen,
            i <= alen,
            forall|j: int| 0 <= j < i ==> eqic_char(a@[j], b@[j]),
        decreases alen - i,
    {
        if !chars_eq_ic(a.get_char(i), b.get_char(i)) {
            return false;
        }
        i += 1;
    }
    true
}

} // verus!
