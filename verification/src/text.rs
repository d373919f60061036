//! Calls into `std` that the library needs on plain text, with what their
//! documentation promises.

use vstd::prelude::*;

verus! {

/// `s` is a non-empty run of ASCII decimal digits.
pub open spec fn is_decimal_digits(s: Seq<char>) -> bool {
    &&& s.len() > 0
    &&& forall|i: int| 0 <= i < s.len() ==> '0' <= #[trigger] s[i] <= '9'
}

/// The value of a run of decimal digits, most significant first.
pub open spec fn decimal_value(s: Seq<char>) -> nat
    decreases s.len(),
{
    if s.len() == 0 {
        0
    } else {
        decimal_value(s.drop_last()) * 10 + ((s.last() as nat) - ('0' as nat)) as nat
    }
}

/// `s` is an integer in decimal: an optional `-` followed by a non-empty run
/// of ASCII decimal digits.
pub open spec fn is_int_text(s: Seq<char>) -> bool {
    is_decimal_digits(s) || (s.len() > 0 && s[0] == '-' && is_decimal_digits(s.drop_first()))
}

/// The value of an integer written in decimal, with its sign.
pub open spec fn signed_value(s: Seq<char>) -> int {
    if s.len() > 0 && s[0] == '-' {
        -decimal_value(s.drop_first())
    } else {
        decimal_value(s) as int
    }
}

/// `v` fits in an `i32`.
pub open spec fn fits_i32(v: int) -> bool {
    i32::MIN <= v <= i32::MAX
}

/// The decimal digit for `d < 10`.
pub open spec fn digit_char(d: nat) -> char {
    ((d + 48) as u32) as char
}

/// `n` written in decimal, without leading zeros.
pub open spec fn decimal_digits(n: nat) -> Seq<char>
    decreases n,
{
    if n < 10 {
        seq![digit_char(n)]
    } else {
        decimal_digits(n / 10).push(digit_char(n % 10))
    }
}

/// Writing a number in decimal and reading it back gives the number.
pub proof fn lemma_decimal_digits(n: nat)
    ensures
        is_decimal_digits(decimal_digits(n)),
        decimal_value(decimal_digits(n)) == n,
    decreases n,
{
    assert((digit_char(n % 10) as nat) == n % 10 + 48);
    assert(('0' as nat) == 48);
    if n < 10 {
        assert(decimal_digits(n).drop_last() =~= Seq::<char>::empty());
        assert(decimal_value(Seq::<char>::empty()) == 0);
        assert(decimal_digits(n).last() == digit_char(n));
        assert(n % 10 == n);
        assert(decimal_value(decimal_digits(n)) == n);
    } else {
        lemma_decimal_digits(n / 10);
        let s = decimal_digits(n);
        assert(s.drop_last() =~= decimal_digits(n / 10));
        assert(s.last() == digit_char(n % 10));
        assert(n == (n / 10) * 10 + n % 10) by (nonlinear_arith);
        assert(decimal_value(s) == decimal_value(decimal_digits(n / 10)) * 10 + ((s.last() as nat) - 48));
        assert(decimal_value(s) == n);
        assert forall|i: int| 0 <= i < s.len() implies '0' <= #[trigger] s[i] <= '9' by {
            if i < s.len() - 1 {
                assert(s[i] == decimal_digits(n / 10)[i]);
            }
        }
    }
}

/// What `str::parse::<i32>` returns for a string: the value, or the text of
/// the error it reports.
pub uninterp spec fn spec_parse_i32(s: Seq<char>) -> Result<i32, Seq<char>>;

/// `str::parse::<i32>` (that is, `<i32 as FromStr>::from_str`), with its
/// error turned into the error's message.
///
/// The result is a function of the text alone, named `spec_parse_i32`.  Its
/// documentation takes an optional sign followed by decimal digits and fails
/// when the value does not fit in an `i32`; of a `-` or nothing followed by a
/// run of digits it is stated here that the parse succeeds exactly when the
/// value fits in an `i32`, and then yields that value.  The wording of the
/// error message is not stated.
#[verifier::external_body]
pub fn parse_i32(s: &str) -> (r: Result<i32, String>)
    ensures
        match r {
            Ok(v) => spec_parse_i32(s@) == Ok::<i32, Seq<char>>(v),
            Err(m) => spec_parse_i32(s@) == Err::<i32, Seq<char>>(m@),
        },
        is_int_text(s@) ==> (r is Ok <==> fits_i32(signed_value(s@))),
        is_int_text(s@) ==> (r matches Ok(v) ==> v == signed_value(s@)),
{
    match s.parse::<i32>() {
        Ok(v) => Ok(v),
        Err(e) => Err(e.to_string()),
    }
}

/// What `str::to_lowercase` returns for a string, by its characters: its
/// Unicode lowercase (which, for a capital sigma, depends on the characters
/// around it).
pub uninterp spec fn spec_to_lowercase(s: Seq<char>) -> Seq<char>;

/// The ASCII lowercase of a character: `A` to `Z` become `a` to `z`, every
/// other character stays.
pub open spec fn ascii_lower_char(c: char) -> char {
    if 'A' <= c <= 'Z' {
        ((c as u32) + 32) as char
    } else {
        c
    }
}

/// A string with `A` to `Z` made lowercase, every other character kept.
pub open spec fn ascii_lowercase(s: Seq<char>) -> Seq<char> {
    s.map_values(|c: char| ascii_lower_char(c))
}

/// `str::to_lowercase`.  Its result depends on the characters of `s` alone,
/// and is named `spec_to_lowercase`.  The Unicode mapping itself is not
/// spelled out; of an all-ASCII string it is stated that `A` to `Z` become
/// `a` to `z` and every other character stays, as for `to_ascii_lowercase`.
#[verifier::external_body]
pub fn to_lowercase(s: &str) -> (r: String)
    ensures
        r@ == spec_to_lowercase(s@),
        vstd::utf8::is_ascii_chars(s@) ==> r@ == ascii_lowercase(s@),
{
    s.to_lowercase()
}

} // verus!
