//! History records: a completed request/response pair with derived summary
//! fields and a locally generated identifier.
use vstd::prelude::*;

use crate::encoding::{dec_nat, hex_nat, u128_to_dec, u32_to_hex};
use crate::models::{ApiRequest, ApiResponse};

verus! {

/// Relies on `chrono::Utc::now().timestamp_millis()`: the current wall-clock
/// time in milliseconds since the Unix epoch. Nothing is promised of its
/// value.
#[verifier::external_body]
pub fn now_timestamp_millis() -> (r: i64) {
    chrono::Utc::now().timestamp_millis()
}

/// Relies on `std::time::SystemTime::now`, `duration_since(UNIX_EPOCH)` and
/// `Duration::subsec_nanos`: the sub-second part of the current time, zero
/// when the clock stands before the epoch. Always below one billion, as the
/// documentation of `subsec_nanos` states; nothing else is promised.
#[verifier::external_body]
pub fn now_subsec_nanos() -> (r: u32)
    ensures
        r < 1000000000,
{
    std::time::SystemTime::now().duration_since(std::time::UNIX_EPOCH).map(
        |d| d.subsec_nanos(),
    ).unwrap_or(0)
}

/// The decimal rendering of a signed number: a minus sign before the digits
/// of the magnitude when it is negative.
pub open spec fn dec_i64(n: int) -> Seq<char> {
    if n < 0 {
        seq!['-'] + dec_nat((-n) as nat)
    } else {
        dec_nat(n as nat)
    }
}

pub fn i64_to_dec(n: i64) -> (r: String)
    ensures
        r@ == dec_i64(n as int),
{
    if n < 0 {
        let mag: u128 = (-(n as i128)) as u128;
        let digits = u128_to_dec(mag);
        let mut out = String::new();
        out.push('-');
        out.append(digits.as_str());
        proof {
            assert(out@ =~= dec_i64(n as int));
        }
        out
    } else {
        u128_to_dec(n as u128)
    }
}

/// A short identifier in the shape `<timestamp>-<hex>`, from the given
/// timestamp and a sub-second reading.
pub open spec fn id_shape(timestamp: int, nanos: nat) -> Seq<char> {
    dec_i64(timestamp) + seq!['-'] + hex_nat(nanos)
}

/// A simple locally unique identifier: the lowercase hexadecimal digits of a
/// sub-second clock reading.
pub fn uuid_simple() -> (r: String)
    ensures
        exists|n: u32| n < 1000000000 && r@ == hex_nat(n as nat),
{
    let nanos = now_subsec_nanos();
    let r = u32_to_hex(nanos);
    proof {
        assert(nanos < 1000000000 && r@ == hex_nat(nanos as nat));
    }
    r
}

/// One persisted history record: the completed pair plus derived summary
/// fields.
pub struct HistoryEntry {
    pub id: String,
    pub method: String,
    pub url: String,
    pub status: u16,
    pub time_ms: u128,
    pub timestamp: i64,
    pub request: ApiRequest,
    pub response: ApiResponse,
}

impl HistoryEntry {
    /// Builds the record for a completed pair: summary fields copied from the
    /// request and response, a current timestamp, and an identifier of the
    /// shape `<timestamp>-<hex of a sub-second reading>`.
    pub fn new(request: ApiRequest, response: ApiResponse) -> (r: HistoryEntry)
        ensures
            r.method@ == request@.method,
            r.url@ == request@.url,
            r.status == response@.status,
            r.time_ms == response@.time,
            r.request@ == request@,
            r.response@ == response@,
            exists|n: u32|
                n < 1000000000 && r.id@ == id_shape(r.timestamp as int, n as nat),
    {
        let timestamp = now_timestamp_millis();
        let nanos = now_subsec_nanos();
        let mut id = i64_to_dec(timestamp);
        id.push('-');
        let hex = u32_to_hex(nanos);
        id.append(hex.as_str());
        proof {
            assert(id@ =~= id_shape(timestamp as int, nanos as nat));
        }
        let entry = HistoryEntry {
            id,
            method: request.method.clone(),
            url: request.url.clone(),
            status: response.status,
            time_ms: response.time,
            timestamp,
            request,
            response,
        };
        proof {
            assert(exists|n: u32|
                n < 1000000000 && entry.id@ == id_shape(entry.timestamp as int, n as nat)) by {
                assert(nanos < 1000000000 && entry.id@ == id_shape(
                    entry.timestamp as int,
                    nanos as nat,
                ));
            }
        }
        entry
    }
}

} // verus!
