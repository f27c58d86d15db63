//! The identifier check that guards every name written into statement text.

use vstd::prelude::*;

verus! {

/// An ASCII letter or the underscore: what an identifier may start with.
pub open spec fn is_ident_start(c: char) -> bool {
    ('a' <= c <= 'z') || ('A' <= c <= 'Z') || c == '_'
}

/// An ASCII letter, an ASCII digit or the underscore.
pub open spec fn is_ident_char(c: char) -> bool {
    is_ident_start(c) || ('0' <= c <= '9')
}

/// A name is a valid identifier when it is not empty, starts with an ASCII
/// letter or underscore, and holds only ASCII letters, digits and underscores.
pub open spec fn is_valid_identifier(s: Seq<char>) -> bool {
    &&& s.len() > 0
    &&& is_ident_start(s[0])
    &&& forall|i: int| 0 <= i < s.len() ==> is_ident_char(#[trigger] s[i])
}

/// Decides whether `ident` may be written into statement text as it stands.
pub fn sanitize_ident(ident: &str) -> (ok: bool)
    ensures
        ok == is_valid_identifier(ident@),
{
    let mut ok = true;
    let mut at_start = true;
    for c in it: ident.chars()
        invariant
            it.seq() == ident@,
            at_start == (it.index() == 0),
            ok == ((it.index() > 0 ==> is_ident_start(ident@[0])) && forall|i: int|
                0 <= i < it.index() ==> is_ident_char(#[trigger] ident@[i])),
    {
        let letter = ('a' <= c && c <= 'z') || ('A' <= c && c <= 'Z') || c == '_';
        let digit = '0' <= c && c <= '9';
        if at_start && !letter {
            ok = false;
        }
        if !letter && !digit {
            ok = false;
        }
        at_start = false;
    }
    ok && !at_start
}

/// No empty name, no name that starts with a digit, and no name that holds a
/// character other than an ASCII letter, an ASCII digit or the underscore is a
/// valid identifier.
pub proof fn lemma_rejected_identifiers(s: Seq<char>)
    ensures
        s.len() == 0 ==> !is_valid_identifier(s),
        s.len() > 0 && '0' <= s[0] <= '9' ==> !is_valid_identifier(s),
        (exists|i: int| 0 <= i < s.len() && !is_ident_char(#[trigger] s[i])) ==> !is_valid_identifier(s),
{
}

} // verus!
