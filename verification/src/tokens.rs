//! Lexical atoms: the character classes of the language and the calls into
//! `nom` that recognise them.

use vstd::prelude::*;

verus! {

/// `nom::Err`, the error of every `nom` parser.  Nothing is said of what a
/// value of it holds: the parser only tells it from success.
#[verifier::external_type_specification]
#[verifier::external_body]
#[verifier::reject_recursive_types(E)]
pub struct ExNomErr<E>(nom::Err<E>);

/// `nom::error::ErrorKind`, which `nom`'s errors carry.  Nothing is said of
/// what a value of it holds.
#[verifier::external_type_specification]
#[verifier::external_body]
pub struct ExErrorKind(nom::error::ErrorKind);

/// An ASCII decimal digit.
pub open spec fn is_digit(c: char) -> bool {
    '0' <= c <= '9'
}

/// An ASCII letter or decimal digit.
pub open spec fn is_alnum(c: char) -> bool {
    is_digit(c) || 'a' <= c <= 'z' || 'A' <= c <= 'Z'
}

/// How many characters at the start of `s` belong to `class`.
pub open spec fn leading(s: Seq<char>, class: spec_fn(char) -> bool) -> nat
    decreases s.len(),
{
    if s.len() > 0 && class(s[0]) {
        1 + leading(s.drop_first(), class)
    } else {
        0
    }
}

/// The class of ASCII digits.
pub open spec fn digits() -> spec_fn(char) -> bool {
    |c: char| is_digit(c)
}

/// The class of ASCII letters and digits.
pub open spec fn alnums() -> spec_fn(char) -> bool {
    |c: char| is_alnum(c)
}

/// How many characters at the start of `s` are ASCII digits.
pub open spec fn digit_run(s: Seq<char>) -> nat {
    leading(s, digits())
}

/// How many characters at the start of `s` are ASCII letters or digits.
pub open spec fn alnum_run(s: Seq<char>) -> nat {
    leading(s, alnums())
}

/// A leading run lies within the sequence, consists of characters of the
/// class, and ends at the end of the sequence or before a character outside
/// the class.
pub proof fn lemma_leading(s: Seq<char>, class: spec_fn(char) -> bool)
    ensures
        leading(s, class) <= s.len(),
        forall|i: int| 0 <= i < leading(s, class) ==> class(#[trigger] s[i]),
        leading(s, class) < s.len() ==> !class(s[leading(s, class) as int]),
    decreases s.len(),
{
    if s.len() > 0 && class(s[0]) {
        let t = s.drop_first();
        lemma_leading(t, class);
        assert forall|i: int| 0 <= i < leading(s, class) implies class(#[trigger] s[i]) by {
            if i > 0 {
                assert(s[i] == t[i - 1]);
            }
        }
        if leading(s, class) < s.len() {
            assert(s[leading(s, class) as int] == t[leading(t, class) as int]);
        }
    }
}

/// A prefix of characters of the class that ends at the end of the sequence
/// or before a character outside the class is the leading run.
pub proof fn lemma_leading_is(s: Seq<char>, class: spec_fn(char) -> bool, n: int)
    requires
        0 <= n <= s.len(),
        forall|i: int| 0 <= i < n ==> class(#[trigger] s[i]),
        n < s.len() ==> !class(s[n]),
    ensures
        leading(s, class) == n,
    decreases s.len(),
{
    if n > 0 {
        let t = s.drop_first();
        assert(class(s[0]));
        assert forall|i: int| 0 <= i < n - 1 implies class(#[trigger] t[i]) by {
            assert(t[i] == s[i + 1]);
        }
        lemma_leading_is(t, class, n - 1);
    }
}

/// `nom::bytes::complete::tag` on string slices: succeeds exactly when the
/// input starts with `pattern`, and then splits the input right after that
/// prefix, handing back the remainder first and the matched prefix second.
#[verifier::external_body]
pub(crate) fn tag<'a>(pattern: &str, input: &'a str) -> (r: Result<
    (&'a str, &'a str),
    nom::Err<(&'a str, nom::error::ErrorKind)>,
>)
    ensures
        r is Ok <==> pattern@.is_prefix_of(input@),
        r matches Ok((rest, found)) ==> found@ == pattern@ && rest@ == input@.skip(
            pattern@.len() as int,
        ),
{
    nom::bytes::complete::tag(pattern)(input)
}

/// `nom::character::complete::alphanumeric1` on a string slice: succeeds
/// exactly when the input starts with an ASCII letter or digit, and then
/// splits the input after the longest run of such characters, handing back
/// the remainder first and the run second.
#[verifier::external_body]
pub(crate) fn alphanumeric1<'a>(input: &'a str) -> (r: Result<
    (&'a str, &'a str),
    nom::Err<(&'a str, nom::error::ErrorKind)>,
>)
    ensures
        r is Ok <==> alnum_run(input@) > 0,
        r matches Ok((rest, found)) ==> found@ == input@.take(alnum_run(input@) as int) && rest@
            == input@.skip(alnum_run(input@) as int),
{
    nom::character::complete::alphanumeric1(input)
}

/// `nom::character::complete::digit1` on a string slice: succeeds exactly
/// when the input starts with an ASCII digit, and then splits the input after
/// the longest run of digits, handing back the remainder first and the run
/// second.
#[verifier::external_body]
pub(crate) fn digit1<'a>(input: &'a str) -> (r: Result<
    (&'a str, &'a str),
    nom::Err<(&'a str, nom::error::ErrorKind)>,
>)
    ensures
        r is Ok <==> digit_run(input@) > 0,
        r matches Ok((rest, found)) ==> found@ == input@.take(digit_run(input@) as int) && rest@
            == input@.skip(digit_run(input@) as int),
{
    nom::character::complete::digit1(input)
}

/// Why a parse stopped without a result.
#[derive(Debug, PartialEq, Eq, Clone, Copy)]
pub enum ParseError {
    /// The input does not match the rule; another alternative may.
    Mismatch,
    /// A run of digits names a number beyond the signed 32-bit range.
    NumberOutOfRange,
}

} // verus!
