//! Admission control for a token faucet: resolves the calling address of a
//! request (through trusted reverse proxies) and meters how much each caller
//! may draw within one time window.

mod address;
mod forwarded;
mod laws;
mod limiter;

pub use address::{AddressSet, HeaderText, IpAddress, RequestMeta};
pub use forwarded::{
    forwarded_chain, forwarded_for_entries, has_unclosed_quote, is_separator, proximate_of,
    quote_left_open, unquoted_until, x_forwarded_for_chain,
};
pub use laws::{
    accumulate_all, check_all, lemma_blacklisted_forwarded_denied, lemma_checked_total, lemma_blacklisted_peer_denied,
    lemma_clear_twice, lemma_legacy_header_proximate, lemma_per_request_cap_keeps_ledger,
    lemma_per_time_cap_keeps_sum, lemma_running_total, lemma_standard_header_proximate,
    lemma_untrusted_peer_ignores_headers, lemma_whole_token_conversion, total,
};
pub use limiter::{
    accumulate, cap_exceeded_text, charge_outcome, decimal, digit, check_outcome, claim_outcome, cleared, converted_amount, denial, fractions_of_whole,
    header_claim, resolve, saturating_sum, screen, usage, with_ledger, Airdrop,
    AirdropCapExceeded, AirdropLimiter, AirdropLimiterError, LimiterState, whole_to_fractions,
    FRACTIONS_PER_TOKEN,
};
