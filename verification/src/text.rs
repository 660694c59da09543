//! Case normalization of person names.
//!
//! A person's identity in the store is its name folded to lower case; the
//! display form used in graph descriptions is the name folded to upper
//! case. Folding is by ASCII letter case; every other character,
//! non-ASCII letters included, passes through unchanged, so names that
//! differ only in non-ASCII letter case keep distinct store keys — a
//! documented limitation of the library's normalization.

use vstd::prelude::*;

verus! {

/// Lower-case image of one character: ASCII capitals map to the
/// corresponding small letter, everything else is unchanged.
pub open spec fn lower_char(c: char) -> char {
    if 'A' <= c && c <= 'Z' {
        ((c as int) + 32) as char
    } else {
        c
    }
}

/// Upper-case image of one character: ASCII small letters map to the
/// corresponding capital, everything else is unchanged.
pub open spec fn upper_char(c: char) -> char {
    if 'a' <= c && c <= 'z' {
        ((c as int) - 32) as char
    } else {
        c
    }
}

/// A name's store key: every character folded to lower case.
pub open spec fn lower_seq(s: Seq<char>) -> Seq<char> {
    s.map_values(|c: char| lower_char(c))
}

/// A name's display form: every character folded to upper case.
pub open spec fn upper_seq(s: Seq<char>) -> Seq<char> {
    s.map_values(|c: char| upper_char(c))
}

/// Relies on `String::push`: appends the given character to the end of
/// the string.
#[verifier::external_body]
pub(crate) fn push_char(s: &mut String, c: char)
    ensures
        final(s)@ == old(s)@.push(c),
{
    s.push(c)
}

fn lower_char_exec(c: char) -> (r: char)
    ensures
        r == lower_char(c),
{
    let n = c as u32;
    if 65 <= n && n <= 90 {
        ((n + 32) as u8) as char
    } else {
        c
    }
}

fn upper_char_exec(c: char) -> (r: char)
    ensures
        r == upper_char(c),
{
    let n = c as u32;
    if 97 <= n && n <= 122 {
        ((n - 32) as u8) as char
    } else {
        c
    }
}

/// The store key of a name: the name with every ASCII letter folded to
/// lower case (non-ASCII characters are kept as they are).
pub fn normalize_name(name: &str) -> (r: String)
    ensures
        r@ == lower_seq(name@),
{
    let n = name.unicode_len();
    let mut out = String::new();
    let mut i: usize = 0;
    while i < n
        invariant
            n == name@.len(),
            i <= n,
            out@ == lower_seq(name@.take(i as int)),
        decreases n - i,
    {
        let c = name.get_char(i);
        let m = lower_char_exec(c);
        push_char(&mut out, m);
        proof {
            assert(lower_seq(name@.take(i + 1)) =~= lower_seq(name@.take(i as int)).push(
                lower_char(name@[i as int]),
            ));
        }
        i = i + 1;
    }
    proof {
        assert(name@.take(n as int) =~= name@);
    }
    out
}

/// The display form of a name: the name with every ASCII letter folded
/// to upper case (non-ASCII characters are kept as they are).
pub fn display_name(name: &str) -> (r: String)
    ensures
        r@ == upper_seq(name@),
{
    let n = name.unicode_len();
    let mut out = String::new();
    let mut i: usize = 0;
    while i < n
        invariant
            n == name@.len(),
            i <= n,
            out@ == upper_seq(name@.take(i as int)),
        decreases n - i,
    {
        let c = name.get_char(i);
        let m = upper_char_exec(c);
        push_char(&mut out, m);
        proof {
            assert(upper_seq(name@.take(i + 1)) =~= upper_seq(name@.take(i as int)).push(
                upper_char(name@[i as int]),
            ));
        }
        i = i + 1;
    }
    proof {
        assert(name@.take(n as int) =~= name@);
    }
    out
}

/// The display form keeps the identity: a name shown upper-cased in a
/// graph description normalizes to the same store key as the name
/// itself, so querying by a displayed name finds the same person.
pub proof fn lemma_display_preserves_key(s: Seq<char>)
    ensures
        lower_seq(upper_seq(s)) == lower_seq(s),
{
    assert forall|i: int| 0 <= i < s.len() implies lower_char(upper_char(s[i])) == lower_char(
        s[i],
    ) by {
        let c = s[i];
        if 'a' <= c && c <= 'z' {
            assert(upper_char(c) == ((c as int) - 32) as char);
            assert(lower_char(upper_char(c)) == c);
        }
    }
    assert(lower_seq(upper_seq(s)) =~= lower_seq(s));
}

/// Case normalization is idempotent: folding a name that is already a
/// store key changes nothing, so names differing only in letter case
/// share one store key.
pub proof fn lemma_normalize_idempotent(s: Seq<char>)
    ensures
        lower_seq(lower_seq(s)) == lower_seq(s),
{
    assert forall|i: int| 0 <= i < s.len() implies lower_char(lower_char(s[i])) == lower_char(
        s[i],
    ) by {
        let c = s[i];
        if 'A' <= c && c <= 'Z' {
            assert(lower_char(c) == ((c as int) + 32) as char);
        }
    }
    assert(lower_seq(lower_seq(s)) =~= lower_seq(s));
}

} // verus!
