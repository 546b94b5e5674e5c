//! Header handling for the reverse proxy: hop-by-hop headers are stripped in
//! both directions, and the inbound `Authorization` header is replaced by a
//! bearer token built from the extracted API key.

use vstd::prelude::*;
use crate::text;

verus! {

/// A header name (already ASCII-folded) is hop-by-hop: meaningful only for
/// one network hop, never forwarded across the proxy. `host` is treated the
/// same way so the outbound client sets it for the target.
pub open spec fn is_hop_by_hop(folded: Seq<char>) -> bool {
    folded == "connection"@ || folded == "keep-alive"@ || folded == "proxy-authenticate"@ || folded
        == "proxy-authorization"@ || folded == "te"@ || folded == "trailers"@ || folded
        == "transfer-encoding"@ || folded == "upgrade"@ || folded == "host"@
}

/// An inbound header is forwarded upstream when it is neither hop-by-hop nor
/// the caller's `Authorization` header.
pub open spec fn outbound_kept(name: Seq<char>) -> bool {
    !is_hop_by_hop(text::fold_seq(name)) && text::fold_seq(name) != "authorization"@
}

/// An upstream response header is relayed when it is not hop-by-hop.
pub open spec fn relay_kept(name: Seq<char>) -> bool {
    !is_hop_by_hop(text::fold_seq(name))
}

/// The inbound headers forwarded upstream, in order.
pub open spec fn outbound_headers(hs: Seq<(String, String)>) -> Seq<(String, String)>
    decreases hs.len(),
{
    if hs.len() == 0 {
        hs
    } else {
        let rest = outbound_headers(hs.drop_last());
        if outbound_kept(hs.last().0@) {
            rest.push(hs.last())
        } else {
            rest
        }
    }
}

/// The upstream response headers relayed to the caller, in order.
pub open spec fn relay_headers(hs: Seq<(String, String)>) -> Seq<(String, String)>
    decreases hs.len(),
{
    if hs.len() == 0 {
        hs
    } else {
        let rest = relay_headers(hs.drop_last());
        if relay_kept(hs.last().0@) {
            rest.push(hs.last())
        } else {
            rest
        }
    }
}

/// No hop-by-hop header and no `Authorization` header survives the outbound
/// filter, whatever its letter case.
pub proof fn lemma_outbound_headers_clean(hs: Seq<(String, String)>)
    ensures
        forall|t: int|
            0 <= t < outbound_headers(hs).len() ==> outbound_kept(
                #[trigger] outbound_headers(hs)[t].0@,
            ),
    decreases hs.len(),
{
    if hs.len() > 0 {
        lemma_outbound_headers_clean(hs.drop_last());
        let rest = outbound_headers(hs.drop_last());
        assert forall|t: int|
            0 <= t < outbound_headers(hs).len() implies outbound_kept(
            #[trigger] outbound_headers(hs)[t].0@,
        ) by {
            if t < rest.len() {
                assert(outbound_headers(hs)[t] == rest[t]);
            } else {
                assert(outbound_headers(hs)[t] == hs.last());
            }
        }
    }
}

/// No hop-by-hop header survives the relay filter, whatever its letter case.
pub proof fn lemma_relay_headers_clean(hs: Seq<(String, String)>)
    ensures
        forall|t: int|
            0 <= t < relay_headers(hs).len() ==> relay_kept(#[trigger] relay_headers(hs)[t].0@),
    decreases hs.len(),
{
    if hs.len() > 0 {
        lemma_relay_headers_clean(hs.drop_last());
        let rest = relay_headers(hs.drop_last());
        assert forall|t: int|
            0 <= t < relay_headers(hs).len() implies relay_kept(
            #[trigger] relay_headers(hs)[t].0@,
        ) by {
            if t < rest.len() {
                assert(relay_headers(hs)[t] == rest[t]);
            } else {
                assert(relay_headers(hs)[t] == hs.last());
            }
        }
    }
}

/// Every header the filters keep is an inbound header, kept in order: the
/// filtered list is a subsequence of the input.
pub proof fn lemma_relay_headers_from_input(hs: Seq<(String, String)>)
    ensures
        forall|t: int|
            0 <= t < relay_headers(hs).len() ==> hs.contains(#[trigger] relay_headers(hs)[t]),
    decreases hs.len(),
{
    if hs.len() > 0 {
        lemma_relay_headers_from_input(hs.drop_last());
        assert forall|t: int|
            0 <= t < relay_headers(hs).len() implies hs.contains(#[trigger] relay_headers(hs)[t]) by {
            if t < relay_headers(hs.drop_last()).len() {
                let e = relay_headers(hs.drop_last())[t];
                let w = choose|w: int| 0 <= w < hs.drop_last().len() && hs.drop_last()[w] == e;
                assert(hs[w] == e);
            } else {
                assert(hs[hs.len() - 1] == relay_headers(hs)[t]);
            }
        }
    }
}

/// Whether a header with this name may cross the proxy at all.
pub fn should_forward_header(header_name: &str) -> (r: bool)
    ensures
        r == relay_kept(header_name@),
{
    let chars = text::str_to_chars(header_name);
    let folded = text::fold_chars(&chars);
    !(text::chars_eq_str(&folded, "connection") || text::chars_eq_str(&folded, "keep-alive")
        || text::chars_eq_str(&folded, "proxy-authenticate") || text::chars_eq_str(
        &folded,
        "proxy-authorization",
    ) || text::chars_eq_str(&folded, "te") || text::chars_eq_str(&folded, "trailers")
        || text::chars_eq_str(&folded, "transfer-encoding") || text::chars_eq_str(
        &folded,
        "upgrade",
    ) || text::chars_eq_str(&folded, "host"))
}

/// Whether an inbound header is forwarded upstream.
pub fn should_forward_outbound(header_name: &str) -> (r: bool)
    ensures
        r == outbound_kept(header_name@),
{
    if !should_forward_header(header_name) {
        return false;
    }
    let chars = text::str_to_chars(header_name);
    let folded = text::fold_chars(&chars);
    !text::chars_eq_str(&folded, "authorization")
}

/// The headers of the outbound upstream request: the inbound headers minus
/// hop-by-hop ones and minus the caller's `Authorization`, plus exactly one
/// `authorization` header carrying a bearer token built from the API key.
#[verifier::loop_isolation(false)]
pub fn build_outbound_headers(inbound: &Vec<(String, String)>, api_key: &str) -> (r: Vec<
    (String, String),
>)
    ensures
        r@.len() == outbound_headers(inbound@).len() + 1,
        r@.drop_last() == outbound_headers(inbound@),
        r@.last().0@ == "authorization"@,
        r@.last().1@ == "Bearer "@ + api_key@,
{
    let mut out: Vec<(String, String)> = Vec::new();
    let mut i: usize = 0;
    while i < inbound.len()
        invariant
            i <= inbound@.len(),
            out@ == outbound_headers(inbound@.take(i as int)),
        decreases inbound@.len() - i,
    {
        proof {
            assert(inbound@.take(i + 1).drop_last() =~= inbound@.take(i as int));
            assert(inbound@.take(i + 1).last() == inbound@[i as int]);
        }
        if should_forward_outbound(inbound[i].0.as_str()) {
            let name = inbound[i].0.clone();
            let value = inbound[i].1.clone();
            out.push((name, value));
        }
        i += 1;
    }
    proof {
        assert(inbound@.take(inbound@.len() as int) =~= inbound@);
    }
    let auth_name = String::from_str("authorization");
    let mut bearer = String::from_str("Bearer ");
    bearer.append(api_key);
    out.push((auth_name, bearer));
    proof {
        assert(out@.drop_last() =~= outbound_headers(inbound@));
    }
    out
}

/// The upstream response headers relayed back to the caller: everything but
/// hop-by-hop headers, in order.
#[verifier::loop_isolation(false)]
pub fn filter_relay_headers(upstream: &Vec<(String, String)>) -> (r: Vec<(String, String)>)
    ensures
        r@ == relay_headers(upstream@),
{
    let mut out: Vec<(String, String)> = Vec::new();
    let mut i: usize = 0;
    while i < upstream.len()
        invariant
            i <= upstream@.len(),
            out@ == relay_headers(upstream@.take(i as int)),
        decreases upstream@.len() - i,
    {
        proof {
            assert(upstream@.take(i + 1).drop_last() =~= upstream@.take(i as int));
            assert(upstream@.take(i + 1).last() == upstream@[i as int]);
        }
        if should_forward_header(upstream[i].0.as_str()) {
            let name = upstream[i].0.clone();
            let value = upstream[i].1.clone();
            out.push((name, value));
        }
        i += 1;
    }
    proof {
        assert(upstream@.take(upstream@.len() as int) =~= upstream@);
    }
    out
}

} // verus!
