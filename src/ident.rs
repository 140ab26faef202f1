//! Identifier normalization: free-form ABI names turned into the casings used
//! by generated constants, functions and types, always legal as identifiers.
use vstd::prelude::*;
use crate::text::{chars_of, string_of};

verus! {

/// What convert_case makes of a name in `snake_case`.
pub uninterp spec fn snake_case_of(s: Seq<char>) -> Seq<char>;

/// What convert_case makes of a name in `PascalCase`.
pub uninterp spec fn pascal_case_of(s: Seq<char>) -> Seq<char>;

/// What convert_case makes of a name in `UPPER_SNAKE_CASE`.
pub uninterp spec fn upper_snake_case_of(s: Seq<char>) -> Seq<char>;

/// What convert_case makes of a name in `kebab-case`.
pub uninterp spec fn kebab_case_of(s: Seq<char>) -> Seq<char>;

/// What `str::to_uppercase` makes of a string.
pub uninterp spec fn uppercase_of(s: Seq<char>) -> Seq<char>;

/// Relies on convert_case's `Casing::to_case` with `Case::Snake`.
#[verifier::external_body]
fn to_snake_case(s: &str) -> (r: String)
    ensures
        r@ == snake_case_of(s@),
{
    convert_case::Casing::to_case(&s, convert_case::Case::Snake)
}

/// Relies on convert_case's `Casing::to_case` with `Case::Pascal`.
#[verifier::external_body]
fn to_pascal_case(s: &str) -> (r: String)
    ensures
        r@ == pascal_case_of(s@),
{
    convert_case::Casing::to_case(&s, convert_case::Case::Pascal)
}

/// Relies on convert_case's `Casing::to_case` with `Case::UpperSnake`.
#[verifier::external_body]
fn to_upper_snake_case(s: &str) -> (r: String)
    ensures
        r@ == upper_snake_case_of(s@),
{
    convert_case::Casing::to_case(&s, convert_case::Case::UpperSnake)
}

/// Relies on convert_case's `Casing::to_case` with `Case::Kebab`.
#[verifier::external_body]
pub(crate) fn to_kebab_case(s: &str) -> (r: String)
    ensures
        r@ == kebab_case_of(s@),
{
    convert_case::Casing::to_case(&s, convert_case::Case::Kebab)
}

/// Relies on `str::to_uppercase`: the Unicode upper-case mapping of each character.
#[verifier::external_body]
pub(crate) fn to_uppercase(s: &str) -> (r: String)
    ensures
        r@ == uppercase_of(s@),
{
    s.to_uppercase()
}

/// The casings a generated identifier can take.
#[derive(Clone, Copy, Debug, PartialEq, Eq)]
pub enum IdentCase {
    Snake,
    Pascal,
    UpperSnake,
}

/// The name converted to the casing.
pub open spec fn case_of(s: Seq<char>, case: IdentCase) -> Seq<char> {
    match case {
        IdentCase::Snake => snake_case_of(s),
        IdentCase::Pascal => pascal_case_of(s),
        IdentCase::UpperSnake => upper_snake_case_of(s),
    }
}

pub open spec fn is_ascii_digit(c: char) -> bool {
    '0' <= c && c <= '9'
}

/// A converted name made legal as an identifier: one that is empty or starts
/// with a digit gets a leading underscore; any other is kept.
pub open spec fn legal_identifier(s: Seq<char>) -> Seq<char> {
    if s.len() == 0 || is_ascii_digit(s[0]) {
        seq!['_'] + s
    } else {
        s
    }
}

/// The normalized identifier for a name in a casing.
pub open spec fn identifier_of(name: Seq<char>, case: IdentCase) -> Seq<char> {
    legal_identifier(case_of(name, case))
}

/// Prefixes an underscore to a converted name that is empty or starts with a digit.
pub fn legalize_identifier(converted: &str) -> (r: String)
    ensures
        r@ == legal_identifier(converted@),
{
    let cs = chars_of(converted);
    if cs.len() == 0 || ('0' <= cs[0] && cs[0] <= '9') {
        let mut out: Vec<char> = vec!['_'];
        let mut i: usize = 0;
        while i < cs.len()
            invariant
                i <= cs@.len(),
                out@ == seq!['_'] + cs@.subrange(0, i as int),
            decreases cs@.len() - i,
        {
            out.push(cs[i]);
            i = i + 1;
            assert(out@ =~= seq!['_'] + cs@.subrange(0, i as int));
        }
        assert(cs@.subrange(0, cs@.len() as int) =~= cs@);
        string_of(&out)
    } else {
        string_of(&cs)
    }
}

/// Converts a free-form name to the casing, as a legal identifier.
pub fn normalize_identifier(name: &str, case: IdentCase) -> (r: String)
    ensures
        r@ == identifier_of(name@, case),
{
    let converted = match case {
        IdentCase::Snake => to_snake_case(name),
        IdentCase::Pascal => to_pascal_case(name),
        IdentCase::UpperSnake => to_upper_snake_case(name),
    };
    legalize_identifier(converted.as_str())
}

/// Legalization is idempotent: a name it returns is returned unchanged.
pub proof fn lemma_legal_identifier_idempotent(s: Seq<char>)
    ensures
        legal_identifier(legal_identifier(s)) == legal_identifier(s),
{
    if s.len() == 0 || is_ascii_digit(s[0]) {
        assert((seq!['_'] + s)[0] == '_');
    }
}

} // verus!
