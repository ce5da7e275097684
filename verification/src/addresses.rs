//! The textual shape of an account address, and case folding.
//!
//! An address is the two characters `0x` followed by 40 hexadecimal
//! digits; matching is case-insensitive, so candidates are folded to
//! lowercase before any rule is evaluated.

use vstd::prelude::*;

verus! {

/// A hexadecimal digit in either case.
pub open spec fn is_hex_digit_char(c: char) -> bool {
    ('0' <= c && c <= '9') || ('a' <= c && c <= 'f') || ('A' <= c && c <= 'F')
}

/// A lowercase hexadecimal digit.
pub open spec fn is_lower_hex_digit_char(c: char) -> bool {
    ('0' <= c && c <= '9') || ('a' <= c && c <= 'f')
}

/// The format guard: exactly `0x` followed by 40 hex digits, any case.
pub open spec fn spec_is_valid_address(s: Seq<char>) -> bool {
    &&& s.len() == 42
    &&& s[0] == '0'
    &&& s[1] == 'x'
    &&& forall|i: int| 2 <= i < 42 ==> is_hex_digit_char(#[trigger] s[i])
}

/// A valid address already in lowercase, as the generator produces them.
pub open spec fn spec_is_canonical_address(s: Seq<char>) -> bool {
    &&& s.len() == 42
    &&& s[0] == '0'
    &&& s[1] == 'x'
    &&& forall|i: int| 2 <= i < 42 ==> is_lower_hex_digit_char(#[trigger] s[i])
}

/// ASCII case folding of one character.
pub open spec fn ascii_lower_char(c: char) -> char {
    if 'A' <= c && c <= 'Z' {
        ((c as u8) + 32) as char
    } else {
        c
    }
}

/// ASCII case folding of a character sequence.
pub open spec fn ascii_lower(s: Seq<char>) -> Seq<char> {
    s.map_values(|c: char| ascii_lower_char(c))
}

/// What `str::to_lowercase` returns on input that is not all ASCII.
pub uninterp spec fn unicode_lower(s: Seq<char>) -> Seq<char>;

/// Relies on `str::to_lowercase`: the result is a function of the input
/// characters alone, and ASCII characters fold to their ASCII lowercase.
#[verifier::external_body]
pub fn to_lowercase(s: &str) -> (r: String)
    ensures
        r@ == unicode_lower(s@),
        vstd::utf8::is_ascii_chars(s@) ==> r@ == ascii_lower(s@),
{
    s.to_lowercase()
}

/// Every character a valid address may hold is ASCII.
pub proof fn lemma_valid_address_is_ascii(s: Seq<char>)
    requires
        spec_is_valid_address(s),
    ensures
        vstd::utf8::is_ascii_chars(s),
{
    assert forall|i: int| 0 <= i < s.len() implies '\0' <= #[trigger] s[i] <= '\u{7f}' by {
        if i >= 2 {
            assert(is_hex_digit_char(s[i]));
        }
    }
}

/// ASCII folding yields ASCII characters.
pub proof fn lemma_ascii_lower_is_ascii(s: Seq<char>)
    requires
        vstd::utf8::is_ascii_chars(s),
    ensures
        vstd::utf8::is_ascii_chars(ascii_lower(s)),
{
    let t = ascii_lower(s);
    assert forall|i: int| 0 <= i < t.len() implies '\0' <= #[trigger] t[i] <= '\u{7f}' by {
        assert('\0' <= s[i] <= '\u{7f}');
        assert(t[i] == ascii_lower_char(s[i]));
    }
}

/// Checks the format guard: `0x` plus 40 hex digits, case-insensitive.
pub fn is_valid_address(s: &str) -> (r: bool)
    ensures
        r == spec_is_valid_address(s@),
{
    if !s.is_ascii() {
        proof {
            if spec_is_valid_address(s@) {
                lemma_valid_address_is_ascii(s@);
            }
        }
        return false;
    }
    let n = s.unicode_len();
    if n != 42 {
        return false;
    }
    if s.get_ascii(0) != 48 {
        assert(s@[0] != '0');
        return false;
    }
    if s.get_ascii(1) != 120 {
        assert(s@[1] != 'x');
        return false;
    }
    let mut i: usize = 2;
    while i < 42
        invariant
            2 <= i <= 42,
            s.is_ascii(),
            s@.len() == 42,
            s@[0] == '0',
            s@[1] == 'x',
            forall|j: int| 2 <= j < i ==> is_hex_digit_char(#[trigger] s@[j]),
        decreases 42 - i,
    {
        let b = s.get_ascii(i);
        let ok = (48 <= b && b <= 57) || (97 <= b && b <= 102) || (65 <= b && b <= 70);
        proof {
            assert('\0' <= s@[i as int] <= '\u{7f}');
            assert(ok == is_hex_digit_char(s@[i as int]));
        }
        if !ok {
            return false;
        }
        i = i + 1;
    }
    true
}

} // verus!
