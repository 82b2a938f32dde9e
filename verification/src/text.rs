//! Small verified helpers over strings: character search, equality, and the
//! character-level predicates under which the persisted document format
//! round-trips exactly.

use vstd::prelude::*;
use vstd::string::StrSliceExecFns;

verus! {

/// Whether the character sequence contains a colon.  A colon marks an ad-hoc
/// `host:port` selector, so it is reserved and never valid in a stored name.
pub open spec fn has_colon(s: Seq<char>) -> bool {
    exists|i: int| 0 <= i < s.len() && s[i] == ':'
}

/// Whether the raw credential token is the single-character sentinel `-`,
/// which asks for external resolution.
pub open spec fn is_dash(s: Seq<char>) -> bool {
    s.len() == 1 && s[0] == '-'
}

/// Decides whether `s` contains a colon.
pub fn contains_colon(s: &str) -> (r: bool)
    ensures
        r == has_colon(s@),
{
    let n = s.unicode_len();
    let mut i: usize = 0;
    while i < n
        invariant
            0 <= i <= n,
            n == s@.len(),
            forall|k: int| 0 <= k < i ==> s@[k] != ':',
        decreases n - i,
    {
        if s.get_char(i) == ':' {
            return true;
        }
        i = i + 1;
    }
    false
}

/// Decides whether `s` is the external-resolution sentinel `-`.
pub fn is_dash_token(s: &str) -> (r: bool)
    ensures
        r == is_dash(s@),
{
    s.unicode_len() == 1 && s.get_char(0) == '-'
}

/// Decides whether two string slices hold the same characters.
pub fn str_eq(a: &str, b: &str) -> (r: bool)
    ensures
        r == (a@ == b@),
{
    let na = a.unicode_len();
    let nb = b.unicode_len();
    if na != nb {
        return false;
    }
    let mut i: usize = 0;
    while i < na
        invariant
            0 <= i <= na,
            na == a@.len(),
            na == b@.len(),
            forall|k: int| 0 <= k < i ==> a@[k] == b@[k],
        decreases na - i,
    {
        if a.get_char(i) != b.get_char(i) {
            return false;
        }
        i = i + 1;
    }
    proof {
        assert(a@ =~= b@);
    }
    true
}

/// A character the document format stores verbatim: printable ASCII.
pub open spec fn is_plain_char(c: char) -> bool {
    ' ' <= c <= '~'
}

/// A section name the document format round-trips exactly: printable ASCII,
/// non-empty, no `]`, and no surrounding blanks (the parser trims them).
pub open spec fn safe_name(s: Seq<char>) -> bool {
    &&& s.len() > 0
    &&& forall|i: int| 0 <= i < s.len() ==> is_plain_char(#[trigger] s[i]) && s[i] != ']'
    &&& s[0] != ' '
    &&& s[s.len() - 1] != ' '
}

/// A field value the document format round-trips exactly: printable ASCII,
/// no surrounding blanks (the parser trims them), and not opening with a
/// quote (the parser would strip a quoted span).
pub open spec fn safe_value(s: Seq<char>) -> bool {
    &&& forall|i: int| 0 <= i < s.len() ==> is_plain_char(#[trigger] s[i])
    &&& s.len() > 0 ==> s[0] != ' ' && s[0] != '"' && s[0] != '\'' && s[s.len() - 1] != ' '
}

} // verus!
