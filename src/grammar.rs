//! The lexical grammar of names: an identifier is a letter or `_` followed
//! by letters, digits and `_`.

use vstd::prelude::*;
use vstd::string::StrSliceExecFns;
use crate::ast::{Ident, LVal};

verus! {

/// Where the input stopped matching: the index of the first character that
/// cannot stand where it stands, or the length of an empty input.
#[derive(Clone, Copy, PartialEq, Eq, Structural, Debug)]
pub struct ParseError {
    pub position: usize,
}

pub open spec fn is_ident_start(c: char) -> bool {
    ('a' <= c && c <= 'z') || ('A' <= c && c <= 'Z') || c == '_'
}

pub open spec fn is_ident_continue(c: char) -> bool {
    is_ident_start(c) || ('0' <= c && c <= '9')
}

/// Whether the character at `i` may stand there in an identifier.
pub open spec fn fits_at(s: Seq<char>, i: int) -> bool {
    if i == 0 {
        is_ident_start(s[i])
    } else {
        is_ident_continue(s[i])
    }
}

pub open spec fn is_ident(s: Seq<char>) -> bool {
    s.len() > 0 && forall|i: int| 0 <= i < s.len() ==> fits_at(s, i)
}

/// `p` is where `s` first fails to be an identifier.
pub open spec fn ident_error_at(s: Seq<char>, p: int) -> bool {
    &&& 0 <= p <= s.len()
    &&& forall|j: int| 0 <= j < p ==> fits_at(s, j)
    &&& p < s.len() ==> !fits_at(s, p)
    &&& p == s.len() ==> s.len() == 0
}

fn char_fits(c: char, first: bool) -> (r: bool)
    ensures
        r == if first {
            is_ident_start(c)
        } else {
            is_ident_continue(c)
        },
{
    let start = ('a' <= c && c <= 'z') || ('A' <= c && c <= 'Z') || c == '_';
    if first {
        start
    } else {
        start || ('0' <= c && c <= '9')
    }
}

/// Reads the whole of `s` as an identifier.
pub fn parse_ident(s: &str) -> (r: Result<Ident, ParseError>)
    ensures
        match r {
            Ok(id) => is_ident(s@) && id.0@ == s@,
            Err(e) => !is_ident(s@) && ident_error_at(s@, e.position as int),
        },
{
    let n = s.unicode_len();
    if n == 0 {
        return Err(ParseError { position: 0 });
    }
    let mut i: usize = 0;
    while i < n
        invariant
            n == s@.len(),
            i <= n,
            forall|j: int| 0 <= j < i ==> fits_at(s@, j),
        decreases n - i,
    {
        let c = s.get_char(i);
        if !char_fits(c, i == 0) {
            assert(!fits_at(s@, i as int));
            return Err(ParseError { position: i });
        }
        i = i + 1;
    }
    Ok(Ident(s.to_owned()))
}

/// Reads the whole of `s` as a location: a variable name.
pub fn parse_lval(s: &str) -> (r: Result<LVal, ParseError>)
    ensures
        match r {
            Ok(LVal::Var(id)) => is_ident(s@) && id.0@ == s@,
            Err(e) => !is_ident(s@) && ident_error_at(s@, e.position as int),
        },
{
    let id = parse_ident(s)?;
    Ok(LVal::Var(id))
}

} // verus!
