//! File names: the sanitized form of a remote name, and the name under which
//! a document is listed.

use vstd::prelude::*;

verus! {

/// `s` with every `/` replaced by `_`.
pub open spec fn sanitized(s: Seq<char>) -> Seq<char> {
    s.map_values(|c: char| if c == '/' { '_' } else { c })
}

/// The decimal digit character of `d`, for `d` below ten.
pub open spec fn digit_char(d: nat) -> char {
    seq!['0', '1', '2', '3', '4', '5', '6', '7', '8', '9'][d as int]
}

/// The decimal representation of `n`, without leading zeros.
pub open spec fn decimal(n: nat) -> Seq<char>
    decreases n,
{
    if n < 10 {
        seq![digit_char(n)]
    } else {
        decimal(n / 10).push(digit_char(n % 10))
    }
}

/// The file name of a document: `"<id> - <sanitized title>.pdf"`.
pub open spec fn document_name_spec(id: u64, title: Seq<char>) -> Seq<char> {
    decimal(id as nat) + " - "@ + sanitized(title) + ".pdf"@
}

/// Relies on `str::replace` with a one-character pattern: each occurrence of
/// `from` in `s` is replaced by `to`, and nothing else changes.
#[verifier::external_body]
fn replace_char(s: &str, from: char, to: &str) -> (r: String)
    requires
        to@.len() == 1,
    ensures
        r@ == s@.map_values(|c: char| if c == from { to@[0] } else { c }),
{
    s.replace(from, to)
}

/// Relies on the `Display` of `u64` (through `to_string`): its decimal
/// representation, without sign or leading zeros.
#[verifier::external_body]
fn decimal_string(n: u64) -> (r: String)
    ensures
        r@ == decimal(n as nat),
{
    n.to_string()
}

/// A remote name made fit to be one path component: every `/` becomes `_`.
pub fn sanitize(s: &String) -> (r: String)
    ensures
        r@ == sanitized(s@),
{
    proof {
        reveal_strlit("_");
    }
    let r = replace_char(s.as_str(), '/', "_");
    proof {
        assert(r@ =~= sanitized(s@));
    }
    r
}

/// The name under which a document is listed.
pub fn document_name(id: u64, title: &String) -> (r: String)
    ensures
        r@ == document_name_spec(id, title@),
{
    let clean = sanitize(title);
    let r = decimal_string(id).concat(" - ").concat(clean.as_str()).concat(".pdf");
    r
}

/// Sanitizing a sanitized name changes nothing, and a sanitized name holds
/// no `/`.
pub proof fn lemma_sanitize_idempotent(s: Seq<char>)
    ensures
        sanitized(sanitized(s)) == sanitized(s),
        !sanitized(s).contains('/'),
{
    assert(sanitized(sanitized(s)) =~= sanitized(s));
    if sanitized(s).contains('/') {
        let i = choose|i: int| 0 <= i < sanitized(s).len() && sanitized(s)[i] == '/';
        assert(sanitized(s)[i] != '/');
    }
}

} // verus!
