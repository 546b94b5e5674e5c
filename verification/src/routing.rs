//! Client-kind detection and provider ordering for the failover router.

use vstd::prelude::*;
use crate::model::{AppType, Provider};
use crate::text;

verus! {

/// A provider takes part in failover routing when its proxy flag is
/// explicitly enabled.
pub open spec fn proxy_eligible(p: Provider) -> bool {
    p.proxy_enabled == Some(true)
}

/// Rank of the explicit ordering key: explicit indexes come first, ascending.
pub open spec fn sort_index_rank(p: Provider) -> (int, int) {
    match p.sort_index {
        Some(i) => (0int, i as int),
        None => (1int, 0int),
    }
}

/// Strict provider ordering: by explicit `sortIndex` (present before
/// absent, ascending); on a tied index key, by `createdAt` when both are
/// known. A pair with any unknown `createdAt` on a tied index key is a tie,
/// so a stable sort keeps its registry order.
pub open spec fn prov_lt(a: Provider, b: Provider) -> bool {
    let ar = sort_index_rank(a);
    let br = sort_index_rank(b);
    ar.0 < br.0 || (ar.0 == br.0 && (ar.1 < br.1 || (ar.1 == br.1 && a.created_at is Some
        && b.created_at is Some && a.created_at->0 < b.created_at->0)))
}

/// Two providers with neither strictly first: a stable sort keeps a tied
/// pair's registry order.
pub open spec fn prov_tie(a: Provider, b: Provider) -> bool {
    !prov_lt(a, b) && !prov_lt(b, a)
}

/// Two providers with identical ordering keys: they compare alike against
/// every provider.
pub open spec fn same_sort_key(a: Provider, b: Provider) -> bool {
    sort_index_rank(a) == sort_index_rank(b) && a.created_at == b.created_at
}

/// The explicit-index component as a non-strict order: explicit indexes
/// first, ascending.
pub open spec fn sort_index_le(a: Provider, b: Provider) -> bool {
    sort_index_rank(a).0 < sort_index_rank(b).0 || (sort_index_rank(a).0 == sort_index_rank(b).0
        && sort_index_rank(a).1 <= sort_index_rank(b).1)
}

/// What the provider ordering guarantees. `prov_lt` is asymmetric and
/// transitive and respects the explicit-index component; identical keys
/// compare alike against everyone; an unknown `createdAt` makes a tied
/// index key a tie, so the ordering is total only on providers whose
/// `createdAt` is known — there a tie means identical keys, and ties
/// compose with the strict order.
pub proof fn lemma_provider_order_total(a: Provider, b: Provider, c: Provider)
    ensures
        prov_lt(a, b) || prov_lt(b, a) || prov_tie(a, b),
        !(prov_lt(a, b) && prov_lt(b, a)),
        prov_lt(a, b) && prov_lt(b, c) ==> prov_lt(a, c),
        prov_lt(a, b) ==> sort_index_le(a, b),
        prov_tie(a, b) ==> sort_index_rank(a) == sort_index_rank(b),
        same_sort_key(a, b) ==> prov_lt(a, c) == prov_lt(b, c) && prov_lt(c, a) == prov_lt(c, b)
            && prov_tie(a, b),
        same_sort_key(a, b) && same_sort_key(b, c) ==> same_sort_key(a, c),
        a.sort_index is Some && b.sort_index is None ==> prov_lt(a, b),
        a.sort_index is Some && b.sort_index is Some && a.sort_index->0 < b.sort_index->0
            ==> prov_lt(a, b),
        a.sort_index == b.sort_index && a.created_at is Some && b.created_at is Some
            && a.created_at->0 < b.created_at->0 ==> prov_lt(a, b),
        a.created_at is Some && b.created_at is Some && prov_tie(a, b) ==> same_sort_key(a, b),
        a.created_at is Some && b.created_at is Some && c.created_at is Some ==> ((prov_lt(a, b)
            && prov_tie(b, c) ==> prov_lt(a, c)) && (prov_tie(a, b) && prov_lt(b, c) ==> prov_lt(
            a,
            c,
        ))),
{
}

/// With every `createdAt` known, an adjacent-sorted, key-stable order — as
/// `get_enabled_proxy_providers` returns one — is sorted pairwise: an
/// earlier entry comes strictly before a later one, or ties with it and
/// keeps the smaller registry index.
pub proof fn lemma_sorted_when_all_created_known(
    ps: Seq<Provider>,
    order: Seq<usize>,
    t1: int,
    t2: int,
)
    requires
        forall|t: int| 0 <= t < order.len() ==> (#[trigger] order[t] as int) < ps.len(),
        forall|t: int|
            #![trigger order[t]]
            0 <= t && t + 1 < order.len() ==> prov_lt(
                ps[order[t] as int],
                ps[order[t + 1] as int],
            ) || (prov_tie(ps[order[t] as int], ps[order[t + 1] as int]) && order[t] < order[t
                + 1]),
        forall|i: int| 0 <= i < ps.len() ==> ps[i].created_at is Some,
        0 <= t1 < t2 < order.len(),
    ensures
        prov_lt(ps[order[t1] as int], ps[order[t2] as int]) || (prov_tie(
            ps[order[t1] as int],
            ps[order[t2] as int],
        ) && order[t1] < order[t2]),
    decreases t2 - t1,
{
    let a = ps[order[t1] as int];
    let b = ps[order[t2 - 1] as int];
    let c = ps[order[t2] as int];
    lemma_provider_order_total(a, b, c);
    lemma_provider_order_total(a, c, c);
    if t1 < t2 - 1 {
        lemma_sorted_when_all_created_known(ps, order, t1, t2 - 1);
        lemma_provider_order_total(b, c, a);
    }
}

/// The two client kinds are told apart by the inbound `User-Agent` header:
/// a value containing the first kind's signature token (ASCII
/// case-insensitively) selects it, anything else defaults to the second.
/// The signature token itself is configuration the embedding application
/// supplies; it is matched in folded form.
pub open spec fn detected_app_type(user_agent: Option<Seq<char>>, signature: Seq<char>) -> AppType {
    match user_agent {
        Some(ua) => if text::contains_seq(text::fold_seq(ua), text::fold_seq(signature)) {
            AppType::Claude
        } else {
            AppType::Codex
        },
        None => AppType::Codex,
    }
}

/// Client kind of an inbound request, from its optional `User-Agent` value
/// and the first kind's signature token.
pub fn detect_app_type_from_user_agent(user_agent: Option<&str>, signature: &str) -> (r: AppType)
    requires
        signature@.len() >= 1,
    ensures
        r == detected_app_type(
            match user_agent {
                Some(ua) => Some(ua@),
                None => None,
            },
            signature@,
        ),
{
    match user_agent {
        Some(ua) => {
            let chars = text::str_to_chars(ua);
            let folded = text::fold_chars(&chars);
            let sig_chars = text::str_to_chars(signature);
            let needle = text::fold_chars(&sig_chars);
            if text::contains_chars(&folded, &needle) {
                AppType::Claude
            } else {
                AppType::Codex
            }
        },
        None => AppType::Codex,
    }
}

/// Indexes of the proxy-eligible providers, ordered for failover: one
/// entry for each eligible provider; the explicit-index component ascending
/// throughout; every adjacent pair in order (strictly first, or a tie kept
/// in registry order); and providers with identical ordering keys always
/// kept in registry order.
#[verifier::loop_isolation(false)]
#[verifier::rlimit(80)]
pub fn get_enabled_proxy_providers(providers: &Vec<Provider>) -> (order: Vec<usize>)
    ensures
        forall|t: int|
            0 <= t < order@.len() ==> (order@[t] as int) < providers@.len() && proxy_eligible(
                providers@[order@[t] as int],
            ),
        forall|i: int|
            0 <= i < providers@.len() && proxy_eligible(providers@[i]) ==> exists|t: int|
                0 <= t < order@.len() && order@[t] == i,
        forall|t1: int, t2: int| 0 <= t1 < t2 < order@.len() ==> order@[t1] != order@[t2],
        forall|t1: int, t2: int|
            0 <= t1 < t2 < order@.len() ==> sort_index_le(
                providers@[order@[t1] as int],
                providers@[order@[t2] as int],
            ),
        forall|t: int|
            #![trigger order@[t]]
            0 <= t && t + 1 < order@.len() ==> prov_lt(
                providers@[order@[t] as int],
                providers@[order@[t + 1] as int],
            ) || (prov_tie(providers@[order@[t] as int], providers@[order@[t + 1] as int])
                && order@[t] < order@[t + 1]),
        forall|t1: int, t2: int|
            0 <= t1 < t2 < order@.len() && same_sort_key(
                providers@[order@[t1] as int],
                providers@[order@[t2] as int],
            ) ==> order@[t1] < order@[t2],
{
    let mut order: Vec<usize> = Vec::new();
    let mut k: usize = 0;
    while k < providers.len()
        invariant
            k <= providers@.len(),
            forall|t: int|
                0 <= t < order@.len() ==> (order@[t] as int) < k && proxy_eligible(
                    providers@[order@[t] as int],
                ),
            forall|i: int|
                0 <= i < k && proxy_eligible(providers@[i]) ==> exists|t: int|
                    0 <= t < order@.len() && order@[t] == i,
            forall|t1: int, t2: int| 0 <= t1 < t2 < order@.len() ==> order@[t1] != order@[t2],
            forall|t1: int, t2: int|
                0 <= t1 < t2 < order@.len() ==> sort_index_le(
                    providers@[order@[t1] as int],
                    providers@[order@[t2] as int],
                ),
            forall|t: int|
                #![trigger order@[t]]
                0 <= t && t + 1 < order@.len() ==> prov_lt(
                    providers@[order@[t] as int],
                    providers@[order@[t + 1] as int],
                ) || (prov_tie(providers@[order@[t] as int], providers@[order@[t + 1] as int])
                    && order@[t] < order@[t + 1]),
            forall|t1: int, t2: int|
                0 <= t1 < t2 < order@.len() && same_sort_key(
                    providers@[order@[t1] as int],
                    providers@[order@[t2] as int],
                ) ==> order@[t1] < order@[t2],
        decreases providers@.len() - k,
    {
        let eligible = match providers[k].proxy_enabled {
            Some(b) => b,
            None => false,
        };
        if eligible {
            let ghost before = order@;
            let mut m = order.len();
            while m > 0 && comes_before(&providers[k], &providers[order[m - 1]])
                invariant
                    m <= order@.len(),
                    order@ == before,
                    forall|t: int|
                        m <= t < order@.len() ==> prov_lt(
                            providers@[k as int],
                            providers@[order@[t] as int],
                        ),
                decreases m,
            {
                m -= 1;
            }
            order.insert(m, k);
            proof {
                before.insert_ensures(m as int, k);
                let pk = providers@[k as int];
                assert forall|t1: int, t2: int|
                    0 <= t1 < t2 < order@.len() implies sort_index_le(
                    providers@[order@[t1] as int],
                    providers@[order@[t2] as int],
                ) by {
                    if t1 == m {
                        assert(order@[t2] == before[t2 - 1]);
                        lemma_provider_order_total(pk, providers@[before[t2 - 1] as int], pk);
                    } else if t2 == m {
                        assert(order@[t1] == before[t1]);
                        let pprev = providers@[before[m - 1] as int];
                        assert(!prov_lt(pk, pprev));
                        assert(sort_index_le(pprev, pk));
                        if t1 < m - 1 {
                            assert(sort_index_le(providers@[before[t1] as int], pprev));
                        }
                    } else if t1 < m && t2 < m {
                        assert(order@[t1] == before[t1]);
                        assert(order@[t2] == before[t2]);
                    } else if t1 > m && t2 > m {
                        assert(order@[t1] == before[t1 - 1]);
                        assert(order@[t2] == before[t2 - 1]);
                    } else {
                        assert(order@[t1] == before[t1]);
                        assert(order@[t2] == before[t2 - 1]);
                    }
                }
                assert forall|t: int|
                    #![trigger order@[t]]
                    0 <= t && t + 1 < order@.len() implies prov_lt(
                    providers@[order@[t] as int],
                    providers@[order@[t + 1] as int],
                ) || (prov_tie(providers@[order@[t] as int], providers@[order@[t + 1] as int])
                    && order@[t] < order@[t + 1]) by {
                    if t + 1 == m {
                        // the element left of the insertion point
                        assert(order@[t] == before[m - 1]);
                        let pprev = providers@[before[m - 1] as int];
                        assert(!prov_lt(pk, pprev));
                    } else if t == m {
                        // the element right of the insertion point
                        assert(order@[t + 1] == before[m as int]);
                        assert(prov_lt(pk, providers@[before[m as int] as int]));
                    } else if t + 1 < m {
                        assert(order@[t] == before[t]);
                        assert(order@[t + 1] == before[t + 1]);
                    } else {
                        assert(order@[t] == before[t - 1]);
                        assert(order@[t + 1] == before[t]);
                    }
                }
                assert forall|t1: int, t2: int|
                    0 <= t1 < t2 < order@.len() && same_sort_key(
                    providers@[order@[t1] as int],
                    providers@[order@[t2] as int],
                ) implies order@[t1] < order@[t2] by {
                    if t2 == m {
                        // every earlier entry has a smaller registry index
                        assert(order@[t1] == before[t1]);
                    } else if t1 == m {
                        // a later entry is strictly after the new one, never
                        // key-identical
                        assert(order@[t2] == before[t2 - 1]);
                        let pe = providers@[before[t2 - 1] as int];
                        assert(prov_lt(pk, pe));
                        lemma_provider_order_total(pk, pe, pe);
                    } else if t1 < m && t2 < m {
                        assert(order@[t1] == before[t1]);
                        assert(order@[t2] == before[t2]);
                    } else if t1 > m && t2 > m {
                        assert(order@[t1] == before[t1 - 1]);
                        assert(order@[t2] == before[t2 - 1]);
                    } else {
                        assert(order@[t1] == before[t1]);
                        assert(order@[t2] == before[t2 - 1]);
                    }
                }
                assert forall|i: int|
                    0 <= i < k + 1 && proxy_eligible(providers@[i]) implies exists|t: int|
                    0 <= t < order@.len() && order@[t] == i by {
                    if i == k {
                        assert(order@[m as int] == k);
                    } else {
                        let t0 = choose|t: int| 0 <= t < before.len() && before[t] == i;
                        if t0 < m {
                            assert(order@[t0] == i);
                        } else {
                            assert(order@[t0 + 1] == i);
                        }
                    }
                }
            }
        }
        k += 1;
    }
    order
}

/// Whether `a` comes strictly before `b` in failover order.
pub fn comes_before(a: &Provider, b: &Provider) -> (r: bool)
    ensures
        r == prov_lt(*a, *b),
{
    match (a.sort_index, b.sort_index) {
        (Some(x), Some(y)) => {
            if x < y {
                true
            } else if y < x {
                false
            } else {
                created_before(a, b)
            }
        },
        (Some(_), None) => true,
        (None, Some(_)) => false,
        (None, None) => created_before(a, b),
    }
}

/// Whether both creation times are known and `a`'s is strictly earlier.
fn created_before(a: &Provider, b: &Provider) -> (r: bool)
    ensures
        r == (a.created_at is Some && b.created_at is Some && a.created_at->0 < b.created_at->0),
{
    match (a.created_at, b.created_at) {
        (Some(x), Some(y)) => x < y,
        _ => false,
    }
}

} // verus!
