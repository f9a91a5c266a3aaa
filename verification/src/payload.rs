//! Decoding of inbound update notifications and the per-update
//! decisions of the receive loop: which key to refetch, and which scan
//! mode an update triggers.

use vstd::prelude::*;

verus! {

/// Every this-many updates the driver runs a full scan instead of a
/// targeted one.
pub const COMPREHENSIVE_ANALYSIS_INTERVAL: u64 = 10;

/// The string value of the field named `key` when the payload parses
/// as a JSON object carrying one, by serde_json's grammar; a function
/// of the payload text alone.
pub uninterp spec fn json_key_field(payload: Seq<char>) -> Option<Seq<char>>;

/// Relies on `serde_json::from_str::<serde_json::Value>`,
/// `serde_json::Value::get` and `serde_json::Value::as_str`: extracts
/// the string field named `key` from a JSON object payload. Parsing is
/// deterministic in the payload text, which is all this contract
/// claims of it.
#[verifier::external_body]
fn json_extract_key(payload: &str) -> (r: Option<String>)
    ensures
        match r {
            Some(k) => json_key_field(payload@) == Some(k@),
            None => json_key_field(payload@) is None,
        },
{
    match serde_json::from_str::<serde_json::Value>(payload) {
        Ok(value) => match value.get("key") {
            Some(field) => field.as_str().map(|k| k.to_string()),
            None => None,
        },
        Err(_) => None,
    }
}

/// The book key a notification payload designates: the payload's
/// `key` field when it parses as a JSON object carrying one, else the
/// raw payload itself.
pub open spec fn key_of_payload(payload: Seq<char>) -> Seq<char> {
    match json_key_field(payload) {
        Some(k) => k,
        None => payload,
    }
}

/// Reads the book key out of a notification payload.
pub fn parse_key_from_payload(payload: &str) -> (r: String)
    ensures
        r@ == key_of_payload(payload@),
{
    match json_extract_key(payload) {
        Some(k) => k,
        None => String::from_str(payload),
    }
}

/// Whether the update with this ordinal triggers a full scan: every
/// tenth update does, all others trigger a targeted scan.
pub fn is_comprehensive_turn(update_counter: u64) -> (r: bool)
    ensures
        r == (update_counter % COMPREHENSIVE_ANALYSIS_INTERVAL == 0),
{
    update_counter % COMPREHENSIVE_ANALYSIS_INTERVAL == 0
}

/// The risk tier a reported opportunity is labelled with.
#[derive(Clone, Copy, PartialEq, Eq, Structural, Debug)]
pub enum RiskLevel {
    HighProfit,
    Moderate,
    LowMargin,
}

/// Labels an ROI (in micro percentage points): above two per cent is
/// high profit, above one per cent moderate, anything else low margin.
pub fn risk_level(roi_micro_pct: i128) -> (r: RiskLevel)
    ensures
        r == RiskLevel::HighProfit <==> roi_micro_pct > 2_000_000,
        r == RiskLevel::Moderate <==> (1_000_000 < roi_micro_pct <= 2_000_000),
        r == RiskLevel::LowMargin <==> roi_micro_pct <= 1_000_000,
{
    if roi_micro_pct > 2_000_000 {
        RiskLevel::HighProfit
    } else if roi_micro_pct > 1_000_000 {
        RiskLevel::Moderate
    } else {
        RiskLevel::LowMargin
    }
}

} // verus!
