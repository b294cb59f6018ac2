//! Laws of caller resolution and of the quota ledger.

use vstd::prelude::*;

use crate::address::{HeaderText, IpAddress, RequestMeta};
use vstd::utf8::encode_utf8;

use crate::forwarded::{forwarded_chain, has_unclosed_quote, proximate_of, x_forwarded_for_chain};
use crate::limiter::{
    accumulate, charge_outcome, check_outcome, cleared, converted_amount, denial, header_claim,
    resolve, usage, with_ledger, Airdrop, AirdropCapExceeded, AirdropLimiterError, LimiterState,
    FRACTIONS_PER_TOKEN,
};

verus! {

/// The sum of `amounts`.
pub open spec fn total(amounts: Seq<u64>) -> int
    decreases amounts.len(),
{
    if amounts.len() == 0 {
        0
    } else {
        total(amounts.drop_last()) + amounts.last()
    }
}

/// `ledger` after adding each of `amounts`, in order, to the entry of `a`.
pub open spec fn accumulate_all(ledger: Map<IpAddress, u64>, a: IpAddress, amounts: Seq<u64>) -> Map<IpAddress, u64>
    decreases amounts.len(),
{
    if amounts.len() == 0 {
        ledger
    } else {
        accumulate(accumulate_all(ledger, a, amounts.drop_last()), a, amounts.last())
    }
}

/// The ledger after admitting, in order, each request `metas[i]` carrying
/// `airdrops[i]`.
pub open spec fn check_all(st: LimiterState, metas: Seq<RequestMeta>, airdrops: Seq<Airdrop>) -> Map<IpAddress, u64>
    decreases airdrops.len(),
{
    if airdrops.len() == 0 || metas.len() == 0 {
        st.ledger
    } else {
        check_outcome(
            with_ledger(st, check_all(st, metas.drop_last(), airdrops.drop_last())),
            metas.last(),
            airdrops.last(),
        ).1
    }
}

/// A peer that is not a trusted proxy is the caller, whatever forwarding
/// headers it sends, unless it is blacklisted.
pub proof fn lemma_untrusted_peer_ignores_headers(st: LimiterState, meta: RequestMeta, p: IpAddress)
    requires
        meta.peer == Some(p),
        !st.trusted_proxies.contains(p),
        !st.blacklist.contains(p),
    ensures
        resolve(st, meta) == Ok::<IpAddress, AirdropLimiterError>(p),
{
}

/// Behind a trusted proxy, a standard `Forwarded` header that leaves no
/// quote open, parses, and names a proximate forwarded-for address makes that address the caller,
/// unless it is blacklisted.
pub proof fn lemma_standard_header_proximate(
    st: LimiterState,
    meta: RequestMeta,
    t: IpAddress,
    h: HeaderText,
    entries: Seq<Option<IpAddress>>,
    c: IpAddress,
)
    requires
        meta.peer == Some(t),
        st.trusted_proxies.contains(t),
        meta.forwarded == Some(h),
        h is Visible,
        !has_unclosed_quote(encode_utf8(h->Visible_0@)),
        forwarded_chain(h->Visible_0@) == Some(entries),
        proximate_of(entries) == Some(c),
        !st.blacklist.contains(c),
    ensures
        resolve(st, meta) == Ok::<IpAddress, AirdropLimiterError>(c),
{
}

/// Behind a trusted proxy, with no standard header, a legacy
/// `X-Forwarded-For` header that parses makes its rightmost address the
/// caller, unless it is blacklisted.
pub proof fn lemma_legacy_header_proximate(
    st: LimiterState,
    meta: RequestMeta,
    t: IpAddress,
    h: HeaderText,
    entries: Seq<Option<IpAddress>>,
    c: IpAddress,
)
    requires
        meta.peer == Some(t),
        st.trusted_proxies.contains(t),
        meta.forwarded is None,
        meta.x_forwarded_for == Some(h),
        h is Visible,
        x_forwarded_for_chain(h->Visible_0@) == Some(entries),
        proximate_of(entries) == Some(c),
        !st.blacklist.contains(c),
    ensures
        resolve(st, meta) == Ok::<IpAddress, AirdropLimiterError>(c),
{
}

/// A blacklisted address that connects directly is denied, whether or not
/// it is a trusted proxy and whatever headers it sends.
pub proof fn lemma_blacklisted_peer_denied(st: LimiterState, meta: RequestMeta, b: IpAddress)
    requires
        meta.peer == Some(b),
        st.blacklist.contains(b),
        !st.trusted_proxies.contains(b) || (meta.forwarded is None && meta.x_forwarded_for is None),
    ensures
        resolve(st, meta) == Err::<IpAddress, AirdropLimiterError>(denial()),
{
}

/// A blacklisted address that a trusted proxy reports as its client is
/// denied, whichever of the two headers carried it.
pub proof fn lemma_blacklisted_forwarded_denied(
    st: LimiterState,
    meta: RequestMeta,
    t: IpAddress,
    h: HeaderText,
    b: IpAddress,
)
    requires
        meta.peer == Some(t),
        st.trusted_proxies.contains(t),
        st.blacklist.contains(b),
        (meta.forwarded == Some(h) && header_claim(h, false) == Some(b)) || (meta.forwarded is None
            && meta.x_forwarded_for == Some(h) && header_claim(h, true) == Some(b)),
    ensures
        resolve(st, meta) == Err::<IpAddress, AirdropLimiterError>(denial()),
{
}

/// Clearing twice is clearing once: afterwards every caller has accumulated
/// nothing.
pub proof fn lemma_clear_twice(st: LimiterState, a: IpAddress)
    ensures
        cleared(cleared(st)) == cleared(st),
        usage(cleared(cleared(st)).ledger, a) == 0,
{
}

/// Within one window the total of a caller never decreases, and after a run
/// of accumulations it is what it was plus their sum, capped at `u64::MAX`.
pub proof fn lemma_running_total(ledger: Map<IpAddress, u64>, a: IpAddress, amounts: Seq<u64>)
    ensures
        usage(accumulate_all(ledger, a, amounts), a) == if usage(ledger, a) + total(amounts)
            > u64::MAX {
            u64::MAX as int
        } else {
            usage(ledger, a) + total(amounts)
        },
        forall|i: int|
            0 < i <= amounts.len() ==> usage(accumulate_all(ledger, a, amounts.take(i - 1)), a)
                <= usage(#[trigger] accumulate_all(ledger, a, amounts.take(i)), a),
    decreases amounts.len(),
{
    if amounts.len() > 0 {
        lemma_running_total(ledger, a, amounts.drop_last());
    }
    assert forall|i: int| 0 < i <= amounts.len() implies usage(
        accumulate_all(ledger, a, amounts.take(i - 1)),
        a,
    ) <= usage(#[trigger] accumulate_all(ledger, a, amounts.take(i)), a) by {
        assert(amounts.take(i).drop_last() =~= amounts.take(i - 1));
    }
}

/// Within one window, after a run of requests that all resolve to `caller`
/// and all pass the per-request cap, the caller's total is what it was plus
/// the sum of their amounts, capped at `u64::MAX`, whether or not some of
/// them failed the window check.
pub proof fn lemma_checked_total(
    st: LimiterState,
    caller: IpAddress,
    metas: Seq<RequestMeta>,
    airdrops: Seq<Airdrop>,
    amounts: Seq<u64>,
)
    requires
        metas.len() == airdrops.len(),
        amounts.len() == airdrops.len(),
        forall|i: int| 0 <= i < metas.len() ==> resolve(st, #[trigger] metas[i]) == Ok::<IpAddress, AirdropLimiterError>(caller),
        forall|i: int|
            0 <= i < airdrops.len() ==> converted_amount(#[trigger] airdrops[i]) == Some(amounts[i])
                && amounts[i] <= st.per_request_cap,
    ensures
        check_all(st, metas, airdrops) == accumulate_all(st.ledger, caller, amounts),
        usage(check_all(st, metas, airdrops), caller) == if usage(st.ledger, caller) + total(amounts)
            > u64::MAX {
            u64::MAX as int
        } else {
            usage(st.ledger, caller) + total(amounts)
        },
    decreases airdrops.len(),
{
    if airdrops.len() > 0 {
        let n = airdrops.len() - 1;
        assert(metas.last() == metas[n]);
        assert(airdrops.last() == airdrops[n]);
        lemma_checked_total(st, caller, metas.drop_last(), airdrops.drop_last(), amounts.drop_last());
    }
    lemma_running_total(st.ledger, caller, amounts);
}

/// A request above the per-request cap is refused and leaves the ledger as
/// it was.
pub proof fn lemma_per_request_cap_keeps_ledger(
    st: LimiterState,
    meta: RequestMeta,
    caller: IpAddress,
    a: Airdrop,
    x: u64,
)
    requires
        converted_amount(a) == Some(x),
        x > st.per_request_cap,
    ensures
        charge_outcome(st, caller, a) == (
            Err::<(), AirdropLimiterError>(
                AirdropLimiterError::CapExceeded(
                    AirdropCapExceeded { requested: x, limit: st.per_request_cap },
                ),
            ),
            st.ledger,
        ),
        check_outcome(st, meta, a).1 == st.ledger,
{
}

/// A first request of the per-window cap plus one fraction passes the
/// per-request cap, fails the window, and stays in the ledger.
pub proof fn lemma_per_time_cap_keeps_sum(st: LimiterState, caller: IpAddress, a: Airdrop)
    requires
        usage(st.ledger, caller) == 0,
        a.in_fractions,
        a.amount == st.per_time_cap + 1,
        st.per_request_cap >= a.amount,
    ensures
        charge_outcome(st, caller, a) == (
            Err::<(), AirdropLimiterError>(
                AirdropLimiterError::CapExceeded(
                    AirdropCapExceeded { requested: a.amount, limit: st.per_time_cap },
                ),
            ),
            st.ledger.insert(caller, a.amount),
        ),
{
}

/// One whole token is charged as the number of fractions in a token.
pub proof fn lemma_whole_token_conversion(st: LimiterState, caller: IpAddress, a: Airdrop)
    requires
        !a.in_fractions,
        a.amount == 1,
        usage(st.ledger, caller) == 0,
        st.per_request_cap >= FRACTIONS_PER_TOKEN,
    ensures
        converted_amount(a) == Some(FRACTIONS_PER_TOKEN),
        charge_outcome(st, caller, a).1 == st.ledger.insert(caller, FRACTIONS_PER_TOKEN),
{
}

} // verus!
