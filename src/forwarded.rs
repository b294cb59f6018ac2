//! Forwarding headers, read through the `forwarded_header_value` crate.
//!
//! A parsed header is a non-empty chain of stanzas, leftmost farthest from this
//! system. Of each stanza the resolver only needs its forwarded-for address, so
//! a parsed header is described by the sequence of those addresses.

use forwarded_header_value::{ForwardedHeaderValue, ForwardedHeaderValueParseError};
use vstd::prelude::*;
use vstd::utf8::encode_utf8;

use crate::address::IpAddress;

verus! {

#[verifier::external_type_specification]
#[verifier::external_body]
pub struct ExForwardedHeaderValue(ForwardedHeaderValue);

#[verifier::external_type_specification]
#[verifier::external_body]
pub struct ExForwardedHeaderValueParseError(ForwardedHeaderValueParseError);

/// The forwarded-for address of each stanza of a parsed header, left to right
/// (`None` where a stanza names no IP address there).
pub uninterp spec fn forwarded_for_entries(v: ForwardedHeaderValue) -> Seq<Option<IpAddress>>;

/// What parsing a standard `Forwarded` header text yields: `None` where the
/// text is rejected, else the forwarded-for entries of the parsed chain.
pub uninterp spec fn forwarded_chain(s: Seq<char>) -> Option<Seq<Option<IpAddress>>>;

/// What parsing a legacy `X-Forwarded-For` header text yields: `None` where
/// the text is rejected, else the forwarded-for entries of the parsed chain.
pub uninterp spec fn x_forwarded_for_chain(s: Seq<char>) -> Option<Seq<Option<IpAddress>>>;

/// The rightmost address among the entries of a chain: the one reported by
/// the hop nearest to this system.
pub open spec fn proximate_of(entries: Seq<Option<IpAddress>>) -> Option<IpAddress>
    decreases entries.len(),
{
    if entries.len() == 0 {
        None
    } else if entries.last() is Some {
        entries.last()
    } else {
        proximate_of(entries.drop_last())
    }
}

/// Whether `b` holds a `,` or a `;`, the separators of stanzas and of their parts.
pub open spec fn is_separator(b: u8) -> bool {
    b == 0x2c || b == 0x3b
}

/// The part whose value opens a quote right after `i` ends at `k` (a
/// separator or the end of the text) with no further quote.
pub open spec fn unquoted_until(b: Seq<u8>, i: int, k: int) -> bool {
    &&& i + 1 < k <= b.len()
    &&& k == b.len() || is_separator(b[k])
    &&& forall|j: int| i + 1 < j < k ==> b[j] != 0x22
}

/// At `i` the bytes `="` open a quoted value whose quote is the last one
/// before the next separator (or the end of the text).
pub open spec fn quote_left_open(b: Seq<u8>, i: int) -> bool {
    &&& 0 <= i && i + 1 < b.len()
    &&& b[i] == 0x3d && b[i + 1] == 0x22
    &&& exists|k: int| unquoted_until(b, i, k)
}

/// Whether the UTF-8 bytes `b` of a header hold a value that opens a quote
/// and does not close it within its part. Among such texts are those with a
/// part `host="`, on which the `Forwarded` parser fails by panicking.
pub open spec fn has_unclosed_quote(b: Seq<u8>) -> bool {
    exists|i: int| quote_left_open(b, i)
}

/// Tests `has_unclosed_quote` on the bytes of `s`.
pub(crate) fn unclosed_quote(s: &str) -> (r: bool)
    ensures
        r == has_unclosed_quote(encode_utf8(s@)),
{
    let b: &[u8] = s.as_bytes();
    let n: usize = b.len();
    let mut i: usize = 0;
    while i < n
        invariant
            b@ == encode_utf8(s@),
            n == b@.len(),
            i <= n,
            forall|m: int| 0 <= m < i ==> !quote_left_open(b@, m),
        decreases n - i,
    {
        if i + 1 < n && b[i] == 0x3d && b[i + 1] == 0x22 {
            let mut j: usize = i + 2;
            while j < n && b[j] != 0x22 && b[j] != 0x2c && b[j] != 0x3b
                invariant
                    b@ == encode_utf8(s@),
                    n == b@.len(),
                    i + 2 <= j <= n,
                    forall|m: int| i + 1 < m < j ==> b@[m] != 0x22 && !is_separator(b@[m]),
                decreases n - j,
            {
                j = j + 1;
            }
            if j == n || b[j] != 0x22 {
                assert(unquoted_until(b@, i as int, j as int));
                assert(quote_left_open(b@, i as int));
                return true;
            }
            assert forall|k: int| !unquoted_until(b@, i as int, k) by {
                if unquoted_until(b@, i as int, k) {
                    assert(k > j);
                    assert(b@[j as int] == 0x22);
                }
            }
        }
        i = i + 1;
    }
    assert forall|m: int| 0 <= m < b@.len() implies !quote_left_open(b@, m) by {
    }
    false
}

/// Relies on `ForwardedHeaderValue::from_forwarded`, the parser of the
/// standard `Forwarded` header: it either rejects the text or yields a chain.
/// It panics on a part `host="` (it slices inside the lone quote), which the
/// `requires` keeps out.
#[verifier::external_body]
pub(crate) fn parse_forwarded(s: &str) -> (r: Result<ForwardedHeaderValue, ForwardedHeaderValueParseError>)
    requires
        !has_unclosed_quote(encode_utf8(s@)),
    ensures
        r is Ok <==> forwarded_chain(s@) is Some,
        r is Ok ==> forwarded_chain(s@) == Some(forwarded_for_entries(r->Ok_0)),
{
    ForwardedHeaderValue::from_forwarded(s)
}

/// Relies on `ForwardedHeaderValue::from_x_forwarded_for`, the parser of the
/// comma-separated `X-Forwarded-For` header: it either rejects the text or
/// yields a chain.
#[verifier::external_body]
pub(crate) fn parse_x_forwarded_for(s: &str) -> (r: Result<ForwardedHeaderValue, ForwardedHeaderValueParseError>)
    ensures
        r is Ok <==> x_forwarded_for_chain(s@) is Some,
        r is Ok ==> x_forwarded_for_chain(s@) == Some(forwarded_for_entries(r->Ok_0)),
{
    ForwardedHeaderValue::from_x_forwarded_for(s)
}

/// Relies on `ForwardedHeaderValue::proximate_forwarded_for_ip`: the
/// rightmost forwarded-for IP address of the chain, if any stanza has one.
#[verifier::external_body]
pub(crate) fn proximate_ip(v: &ForwardedHeaderValue) -> (r: Option<IpAddress>)
    ensures
        r == proximate_of(forwarded_for_entries(*v)),
{
    v.proximate_forwarded_for_ip().map(|ip| match ip {
        core::net::IpAddr::V4(a) => IpAddress::V4(u32::from(a)),
        core::net::IpAddr::V6(a) => IpAddress::V6(u128::from(a)),
    })
}

} // verus!
