use vstd::prelude::*;

verus! {

/// A character the lexer skips between tokens: space, no-break space, tab, newline.
pub open spec fn spec_is_space(c: char) -> bool {
    c == ' ' || c == '\u{a0}' || c == '\t' || c == '\n'
}

/// An ASCII decimal digit.
pub open spec fn spec_is_numeric(c: char) -> bool {
    '0' <= c && c <= '9'
}

/// An ASCII letter, the first character of an identifier.
pub open spec fn spec_is_ident_start(c: char) -> bool {
    ('a' <= c && c <= 'z') || ('A' <= c && c <= 'Z')
}

/// A character that may continue an identifier: letter or digit.
pub open spec fn spec_is_ident(c: char) -> bool {
    spec_is_ident_start(c) || spec_is_numeric(c)
}

#[verifier::when_used_as_spec(spec_is_space)]
pub fn is_space(c: char) -> (r: bool)
    ensures
        r == spec_is_space(c),
{
    c == ' ' || c == '\u{a0}' || c == '\t' || c == '\n'
}

#[verifier::when_used_as_spec(spec_is_numeric)]
pub fn is_numeric(c: char) -> (r: bool)
    ensures
        r == spec_is_numeric(c),
{
    '0' <= c && c <= '9'
}

#[verifier::when_used_as_spec(spec_is_ident_start)]
pub fn is_ident_start(c: char) -> (r: bool)
    ensures
        r == spec_is_ident_start(c),
{
    ('a' <= c && c <= 'z') || ('A' <= c && c <= 'Z')
}

#[verifier::when_used_as_spec(spec_is_ident)]
pub fn is_ident(c: char) -> (r: bool)
    ensures
        r == spec_is_ident(c),
{
    is_ident_start(c) || is_numeric(c)
}

} // verus!
