//! Verified text fragments of the transport edge: pulling the bearer token
//! out of an `Authorization` header value, and the client address out of a
//! forwarded-for header value. The transport itself hands these strings in;
//! only the extraction logic lives here.

use vstd::prelude::*;

use crate::text::spec_trim;
use crate::text::str_eq;
use crate::text::trim;

verus! {

/// The bearer token of an `Authorization` header value: what follows the
/// `Bearer ` scheme prefix, if the value carries it.
pub open spec fn spec_bearer_token(v: Seq<char>) -> Option<Seq<char>> {
    if v.len() >= 7 && v.subrange(0, 7) == "Bearer "@ {
        Option::Some(v.skip(7))
    } else {
        Option::None
    }
}

/// Extracts the token from an `Authorization` header value written with
/// the `Bearer` scheme; any other value yields nothing.
pub fn extract_bearer_token(value: &str) -> (r: Option<String>)
    ensures
        (r is Some) == (spec_bearer_token(value@) is Some),
        r is Some ==> r->0@ == spec_bearer_token(value@)->0,
{
    let n = value.unicode_len();
    if n >= 7 && str_eq(value.substring_char(0, 7), "Bearer ") {
        Option::Some(value.substring_char(7, n).to_owned())
    } else {
        Option::None
    }
}

/// The prefix of `v` before its first comma (all of `v` if it has none).
pub open spec fn before_comma(v: Seq<char>) -> Seq<char>
    decreases v.len(),
{
    if v.len() == 0 || v[0] == ',' {
        Seq::empty()
    } else {
        seq![v[0]] + before_comma(v.drop_first())
    }
}

/// The prefix runs to the first comma (or the end).
proof fn lemma_before_comma_prefix(v: Seq<char>, i: int)
    requires
        0 <= i <= v.len(),
        forall|j: int| 0 <= j < i ==> v[j] != ',',
        i == v.len() || v[i] == ',',
    ensures
        before_comma(v) == v.take(i),
    decreases i,
{
    if i == 0 {
        assert(v.take(0) =~= Seq::<char>::empty());
    } else {
        assert(v.drop_first() =~= v.skip(1));
        lemma_before_comma_prefix(v.skip(1), i - 1);
        assert(seq![v[0]] + v.skip(1).take(i - 1) =~= v.take(i));
    }
}

/// The first client address of a forwarded-for header value: the text
/// before the first comma, with surrounding whitespace removed.
pub open spec fn spec_first_forwarded(v: Seq<char>) -> Seq<char> {
    spec_trim(before_comma(v))
}

/// Extracts the first (client-nearest) address from a comma-separated
/// forwarded-for header value.
pub fn first_forwarded_ip(value: &str) -> (r: String)
    ensures
        r@ == spec_first_forwarded(value@),
{
    let n = value.unicode_len();
    let mut i: usize = 0;
    while i < n && value.get_char(i) != ','
        invariant
            i <= n,
            n == value@.len(),
            forall|j: int| 0 <= j < i ==> value@[j] != ',',
        decreases n - i,
    {
        i += 1;
    }
    proof {
        lemma_before_comma_prefix(value@, i as int);
    }
    trim(value.substring_char(0, i))
}

} // verus!
