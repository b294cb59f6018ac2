//! The airdrop admission controller: caller resolution, unit conversion, and
//! a per-caller quota ledger that is cleared once per time window.

use std::collections::HashMap;
use vstd::prelude::*;

use crate::address::{AddressSet, HeaderText, IpAddress, RequestMeta};
use vstd::utf8::encode_utf8;

use crate::forwarded::{
    forwarded_chain, has_unclosed_quote, parse_forwarded, unclosed_quote, parse_x_forwarded_for, proximate_ip, proximate_of,
    x_forwarded_for_chain,
};

verus! {

broadcast use vstd::std_specs::hash::group_hash_axioms;

/// Fractions in one whole token: amounts have nine decimal places.
pub const FRACTIONS_PER_TOKEN: u64 = 1_000_000_000;

/// One airdrop request.
#[derive(Clone, Debug)]
pub struct Airdrop {
    /// Address of the recipient wallet.
    pub wallet: String,
    /// Amount of the token to be received.
    pub amount: u64,
    /// Whether `amount` counts fractions (true) or whole tokens (false).
    pub in_fractions: bool,
}

impl Airdrop {
    pub fn new(wallet: String, amount: u64, in_fractions: bool) -> (r: Airdrop)
        ensures
            r.wallet@ == wallet@,
            r.amount == amount,
            r.in_fractions == in_fractions,
    {
        Airdrop { wallet, amount, in_fractions }
    }
}

/// A request value above a limit.
#[derive(Clone, Copy, Debug, PartialEq, Eq, Structural)]
pub struct AirdropCapExceeded {
    pub requested: u64,
    pub limit: u64,
}

/// Why a request was not admitted.
#[derive(Clone, Copy, Debug, PartialEq, Eq, Structural)]
pub enum AirdropLimiterError {
    /// The caller's identity is missing or cannot be read.
    BadRequest,
    /// A cap was exceeded; a blacklisted caller meets a cap of zero.
    CapExceeded(AirdropCapExceeded),
    /// The amount cannot be converted to fractions.
    BadConversion,
}

/// The decimal digit of `d`, for `d < 10`.
pub open spec fn digit(d: nat) -> char {
    if d == 0 { '0' } else if d == 1 { '1' } else if d == 2 { '2' } else if d == 3 { '3' }
    else if d == 4 { '4' } else if d == 5 { '5' } else if d == 6 { '6' } else if d == 7 { '7' }
    else if d == 8 { '8' } else { '9' }
}

/// The decimal notation of `n`, without sign or leading zeros.
pub open spec fn decimal(n: nat) -> Seq<char>
    decreases n,
{
    if n < 10 {
        seq![digit(n)]
    } else {
        decimal(n / 10).push(digit(n % 10))
    }
}

/// The text of a cap that `requested` exceeds.
pub open spec fn cap_exceeded_text(requested: u64, limit: u64) -> Seq<char> {
    "Requested value "@ + decimal(requested as nat) + " exceeds the limit "@ + decimal(limit as nat)
}

/// Relies on `format!`, whose `{}` writes a `u64` in decimal.
#[verifier::external_body]
fn format_cap_exceeded(requested: u64, limit: u64) -> (r: String)
    ensures
        r@ == cap_exceeded_text(requested, limit),
{
    format!("Requested value {} exceeds the limit {}", requested, limit)
}

impl AirdropCapExceeded {
    /// What went wrong, for a human reader.
    pub fn message(&self) -> (r: String)
        ensures
            r@ == cap_exceeded_text(self.requested, self.limit),
    {
        format_cap_exceeded(self.requested, self.limit)
    }
}

impl AirdropLimiterError {
    /// What went wrong, for a human reader.
    pub fn message(&self) -> (r: String)
        ensures
            r@ == match *self {
                AirdropLimiterError::BadRequest => "Bad airdrop request"@,
                AirdropLimiterError::CapExceeded(c) => cap_exceeded_text(c.requested, c.limit),
                AirdropLimiterError::BadConversion => "Failed to convert to fractional token value"@,
            },
    {
        match self {
            AirdropLimiterError::BadRequest => "Bad airdrop request".to_owned(),
            AirdropLimiterError::CapExceeded(c) => c.message(),
            AirdropLimiterError::BadConversion => "Failed to convert to fractional token value".to_owned(),
        }
    }
}

/// The abstract state of an `AirdropLimiter`.
pub struct LimiterState {
    /// Peers whose forwarding headers are honoured.
    pub trusted_proxies: Set<IpAddress>,
    /// Callers that are always denied.
    pub blacklist: Set<IpAddress>,
    /// Fractions accumulated by each caller within the current window.
    pub ledger: Map<IpAddress, u64>,
    pub per_request_cap: u64,
    pub per_time_cap: u64,
}

/// `st` with its ledger replaced by `ledger`.
pub open spec fn with_ledger(st: LimiterState, ledger: Map<IpAddress, u64>) -> LimiterState {
    LimiterState {
        trusted_proxies: st.trusted_proxies,
        blacklist: st.blacklist,
        ledger,
        per_request_cap: st.per_request_cap,
        per_time_cap: st.per_time_cap,
    }
}

/// `st` at the start of a fresh window.
pub open spec fn cleared(st: LimiterState) -> LimiterState {
    with_ledger(st, Map::empty())
}

/// What `a` has accumulated in `ledger` (zero where it has no entry).
pub open spec fn usage(ledger: Map<IpAddress, u64>, a: IpAddress) -> u64 {
    if ledger.contains_key(a) {
        ledger[a]
    } else {
        0
    }
}

/// `x + y`, or `u64::MAX` where that sum does not fit.
pub open spec fn saturating_sum(x: u64, y: u64) -> u64 {
    if x + y > u64::MAX {
        u64::MAX
    } else {
        (x + y) as u64
    }
}

/// `ledger` after adding `amount` to the entry of `a`.
pub open spec fn accumulate(ledger: Map<IpAddress, u64>, a: IpAddress, amount: u64) -> Map<IpAddress, u64> {
    ledger.insert(a, saturating_sum(usage(ledger, a), amount))
}

/// The outcome for a blacklisted caller: a cap of zero.
pub open spec fn denial() -> AirdropLimiterError {
    AirdropLimiterError::CapExceeded(AirdropCapExceeded { requested: 0, limit: 0 })
}

/// Admits `a` unless it is blacklisted.
pub open spec fn screen(blacklist: Set<IpAddress>, a: IpAddress) -> Result<IpAddress, AirdropLimiterError> {
    if blacklist.contains(a) {
        Err(denial())
    } else {
        Ok(a)
    }
}

/// The outcome for the address that a trusted proxy reports, if it reports one.
pub open spec fn claim_outcome(blacklist: Set<IpAddress>, claim: Option<IpAddress>) -> Result<IpAddress, AirdropLimiterError> {
    match claim {
        None => Err(AirdropLimiterError::BadRequest),
        Some(c) => screen(blacklist, c),
    }
}

/// The proximate forwarded-for address of a header, where the header reads
/// as text, parses (as the legacy form where `legacy`), and names one. A
/// standard header with a quote left open is refused unread.
pub open spec fn header_claim(h: HeaderText, legacy: bool) -> Option<IpAddress> {
    match h {
        HeaderText::Opaque => None,
        HeaderText::Visible(s) => if !legacy && has_unclosed_quote(encode_utf8(s@)) {
            None
        } else {
            let chain = if legacy {
                x_forwarded_for_chain(s@)
            } else {
                forwarded_chain(s@)
            };
            match chain {
                Some(entries) => proximate_of(entries),
                None => None,
            }
        },
    }
}

/// The caller of a request with metadata `meta`. A blacklisted address is
/// denied whether or not it is a trusted proxy.
pub open spec fn resolve(st: LimiterState, meta: RequestMeta) -> Result<IpAddress, AirdropLimiterError> {
    match meta.peer {
        None => Err(AirdropLimiterError::BadRequest),
        Some(p) => if !st.trusted_proxies.contains(p) {
            screen(st.blacklist, p)
        } else {
            match meta.forwarded {
                Some(h) => claim_outcome(st.blacklist, header_claim(h, false)),
                None => match meta.x_forwarded_for {
                    Some(h) => claim_outcome(st.blacklist, header_claim(h, true)),
                    None => screen(st.blacklist, p),
                },
            }
        },
    }
}

/// `amount` whole tokens in fractions, where that fits in a `u64`.
pub open spec fn fractions_of_whole(amount: u64) -> Option<u64> {
    if amount * FRACTIONS_PER_TOKEN <= u64::MAX {
        Some((amount * FRACTIONS_PER_TOKEN) as u64)
    } else {
        None
    }
}

/// The amount of a request in fractions, where it fits in a `u64`.
pub open spec fn converted_amount(a: Airdrop) -> Option<u64> {
    if a.in_fractions {
        Some(a.amount)
    } else {
        fractions_of_whole(a.amount)
    }
}

/// Converts whole tokens to fractions; `None` where the result would not
/// fit in a `u64`.
pub fn whole_to_fractions(amount: u64) -> (r: Option<u64>)
    ensures
        r == fractions_of_whole(amount),
{
    if amount <= u64::MAX / FRACTIONS_PER_TOKEN {
        Some(amount * FRACTIONS_PER_TOKEN)
    } else {
        None
    }
}

/// Outcome and new ledger of charging `caller` for `a`.
pub open spec fn charge_outcome(st: LimiterState, caller: IpAddress, a: Airdrop) -> (Result<(), AirdropLimiterError>, Map<IpAddress, u64>) {
    match converted_amount(a) {
        None => (Err(AirdropLimiterError::BadConversion), st.ledger),
        Some(x) => if x > st.per_request_cap {
            (
                Err(AirdropLimiterError::CapExceeded(AirdropCapExceeded { requested: x, limit: st.per_request_cap })),
                st.ledger,
            )
        } else {
            let ledger = accumulate(st.ledger, caller, x);
            let total = ledger[caller];
            if total > st.per_time_cap {
                (
                    Err(AirdropLimiterError::CapExceeded(AirdropCapExceeded { requested: total, limit: st.per_time_cap })),
                    ledger,
                )
            } else {
                (Ok(()), ledger)
            }
        },
    }
}

/// Outcome and new ledger of admitting the request `meta` carrying `a`.
pub open spec fn check_outcome(st: LimiterState, meta: RequestMeta, a: Airdrop) -> (Result<(), AirdropLimiterError>, Map<IpAddress, u64>) {
    match resolve(st, meta) {
        Err(e) => (Err(e), st.ledger),
        Ok(caller) => charge_outcome(st, caller, a),
    }
}

/// The admission controller. Its ledger keeps version 4 and version 6
/// callers in separate maps, keyed by the address value.
pub struct AirdropLimiter {
    trusted_proxies: AddressSet,
    blacklist: AddressSet,
    ip_cache_v4: HashMap<u32, u64>,
    ip_cache_v6: HashMap<u128, u64>,
    per_request_cap: u64,
    per_time_cap: u64,
}

spec fn ledger_view(v4: Map<u32, u64>, v6: Map<u128, u64>) -> Map<IpAddress, u64> {
    Map::new(
        |a: IpAddress|
            match a {
                IpAddress::V4(x) => v4.contains_key(x),
                IpAddress::V6(y) => v6.contains_key(y),
            },
        |a: IpAddress|
            match a {
                IpAddress::V4(x) => v4[x],
                IpAddress::V6(y) => v6[y],
            },
    )
}

impl View for AirdropLimiter {
    type V = LimiterState;

    closed spec fn view(&self) -> LimiterState {
        LimiterState {
            trusted_proxies: self.trusted_proxies@,
            blacklist: self.blacklist@,
            ledger: ledger_view(self.ip_cache_v4@, self.ip_cache_v6@),
            per_request_cap: self.per_request_cap,
            per_time_cap: self.per_time_cap,
        }
    }
}

impl AirdropLimiter {
    pub fn new(
        trusted_proxies: Vec<IpAddress>,
        blacklist: Vec<IpAddress>,
        per_request_cap: u64,
        per_time_cap: u64,
    ) -> (r: Self)
        ensures
            r@.trusted_proxies == trusted_proxies@.to_set(),
            r@.blacklist == blacklist@.to_set(),
            r@.ledger == Map::<IpAddress, u64>::empty(),
            r@.per_request_cap == per_request_cap,
            r@.per_time_cap == per_time_cap,
    {
        let r = AirdropLimiter {
            trusted_proxies: AddressSet::from_vec(&trusted_proxies),
            blacklist: AddressSet::from_vec(&blacklist),
            ip_cache_v4: HashMap::new(),
            ip_cache_v6: HashMap::new(),
            per_request_cap,
            per_time_cap,
        };
        assert(r@.ledger =~= Map::<IpAddress, u64>::empty());
        r
    }

    /// Starts a new window: forgets what every caller has accumulated.
    pub fn clear_cache(&mut self)
        ensures
            final(self)@ == cleared(old(self)@),
    {
        self.ip_cache_v4.clear();
        self.ip_cache_v6.clear();
        assert(self@.ledger =~= Map::<IpAddress, u64>::empty());
    }

    /// What `a` has accumulated within the current window.
    pub fn usage_of(&self, a: IpAddress) -> (r: u64)
        ensures
            r == usage(self@.ledger, a),
    {
        match a {
            IpAddress::V4(x) => match self.ip_cache_v4.get(&x) {
                Some(v) => *v,
                None => 0,
            },
            IpAddress::V6(y) => match self.ip_cache_v6.get(&y) {
                Some(v) => *v,
                None => 0,
            },
        }
    }

    /// Adds `amount` to the entry of `a`, saturating, and returns the new total.
    fn accumulate_and_get(&mut self, a: IpAddress, amount: u64) -> (r: u64)
        ensures
            final(self)@ == with_ledger(old(self)@, accumulate(old(self)@.ledger, a, amount)),
            r == usage(final(self)@.ledger, a),
    {
        let current = self.usage_of(a);
        let total = if current > u64::MAX - amount {
            u64::MAX
        } else {
            current + amount
        };
        match a {
            IpAddress::V4(x) => {
                self.ip_cache_v4.insert(x, total);
            },
            IpAddress::V6(y) => {
                self.ip_cache_v6.insert(y, total);
            },
        }
        assert(self@.ledger =~= accumulate(old(self)@.ledger, a, amount));
        total
    }
    fn screen(&self, a: IpAddress) -> (r: Result<IpAddress, AirdropLimiterError>)
        ensures
            r == screen(self@.blacklist, a),
    {
        if self.blacklist.contains(a) {
            Err(AirdropLimiterError::CapExceeded(AirdropCapExceeded { requested: 0, limit: 0 }))
        } else {
            Ok(a)
        }
    }

    /// Decides on the address that a trusted proxy reports as its client
    /// (`None` where its header named none or could not be parsed).
    pub fn admit_forwarded(&self, claim: Option<IpAddress>) -> (r: Result<IpAddress, AirdropLimiterError>)
        ensures
            r == claim_outcome(self@.blacklist, claim),
    {
        match claim {
            None => Err(AirdropLimiterError::BadRequest),
            Some(c) => self.screen(c),
        }
    }

    /// Resolves the caller of a request: the direct peer unless that peer is
    /// a trusted proxy, in which case the proxy's forwarding header decides.
    pub fn get_peer(&self, meta: &RequestMeta) -> (r: Result<IpAddress, AirdropLimiterError>)
        ensures
            r == resolve(self@, *meta),
    {
        let peer = match meta.peer {
            Some(p) => p,
            None => {
                return Err(AirdropLimiterError::BadRequest);
            },
        };
        if !self.trusted_proxies.contains(peer) {
            return self.screen(peer);
        }
        match &meta.forwarded {
            Some(h) => self.admit_forwarded(read_header(h, false)),
            None => match &meta.x_forwarded_for {
                Some(h) => self.admit_forwarded(read_header(h, true)),
                None => self.screen(peer),
            },
        }
    }

    /// The amount of a request in fractions.
    pub fn parse_amount(airdrop: &Airdrop) -> (r: Result<u64, AirdropLimiterError>)
        ensures
            r == match converted_amount(*airdrop) {
                Some(x) => Ok(x),
                None => Err(AirdropLimiterError::BadConversion),
            },
    {
        if airdrop.in_fractions {
            Ok(airdrop.amount)
        } else {
            match whole_to_fractions(airdrop.amount) {
                Some(x) => Ok(x),
                None => Err(AirdropLimiterError::BadConversion),
            }
        }
    }

    /// Charges the resolved `caller` for `airdrop`: a request over the
    /// per-request cap leaves the ledger alone; any other is added to the
    /// caller's total, which must then stay within the per-window cap.
    pub fn charge(&mut self, caller: IpAddress, airdrop: &Airdrop) -> (r: Result<(), AirdropLimiterError>)
        ensures
            (r, final(self)@.ledger) == charge_outcome(old(self)@, caller, *airdrop),
            final(self)@ == with_ledger(old(self)@, final(self)@.ledger),
    {
        let request_amount = match Self::parse_amount(airdrop) {
            Ok(x) => x,
            Err(e) => {
                return Err(e);
            },
        };
        if request_amount > self.per_request_cap {
            return Err(
                AirdropLimiterError::CapExceeded(
                    AirdropCapExceeded { requested: request_amount, limit: self.per_request_cap },
                ),
            );
        }
        let total = self.accumulate_and_get(caller, request_amount);
        if total > self.per_time_cap {
            return Err(
                AirdropLimiterError::CapExceeded(
                    AirdropCapExceeded { requested: total, limit: self.per_time_cap },
                ),
            );
        }
        Ok(())
    }

    /// Admits or refuses one airdrop request, charging its caller's quota.
    pub fn check_cache(&mut self, meta: &RequestMeta, airdrop: &Airdrop) -> (r: Result<(), AirdropLimiterError>)
        ensures
            (r, final(self)@.ledger) == check_outcome(old(self)@, *meta, *airdrop),
            final(self)@ == with_ledger(old(self)@, final(self)@.ledger),
    {
        let peer = match self.get_peer(meta) {
            Ok(p) => p,
            Err(e) => {
                return Err(e);
            },
        };
        self.charge(peer, airdrop)
    }
}

/// The proximate forwarded-for address of a header, if it has one.
fn read_header(h: &HeaderText, legacy: bool) -> (r: Option<IpAddress>)
    ensures
        r == header_claim(*h, legacy),
{
    match h {
        HeaderText::Opaque => None,
        HeaderText::Visible(s) => {
            let text: &str = s.as_str();
            if !legacy && unclosed_quote(text) {
                return None;
            }
            let parsed = if legacy {
                parse_x_forwarded_for(text)
            } else {
                parse_forwarded(text)
            };
            match parsed {
                Ok(v) => proximate_ip(&v),
                Err(_) => None,
            }
        },
    }
}

} // verus!
