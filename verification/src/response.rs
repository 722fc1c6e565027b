//! The record that the identifier-generating route answers with: a fresh
//! random version-4 UUID together with the caller's address, user agent and
//! the current timestamp, with placeholders where the caller gave none.

use vstd::prelude::*;
use vstd::string::*;

verus! {

/// The body of one response: a fresh identifier plus request metadata.
pub struct UUIDv4Response {
    pub uuid: String,
    pub created_at: String,
    pub ip_address: String,
    pub user_agent: String,
}

/// Relies on uuid::Uuid::new_v4 and the Display form of uuid::Uuid: the
/// hyphenated text of a version-4 UUID is 36 characters, with hyphens at
/// positions 8, 13, 18 and 23 and the version digit '4' at position 14.
#[verifier::external_body]
fn new_uuid_v4_string() -> (r: String)
    ensures
        r@.len() == 36,
        r@[8] == '-',
        r@[13] == '-',
        r@[18] == '-',
        r@[23] == '-',
        r@[14] == '4',
{
    uuid::Uuid::new_v4().to_string()
}

/// Relies on chrono::Utc::now and chrono::DateTime::to_rfc3339: an RFC 3339
/// date-and-time string holds at least the 19 characters of its mandatory
/// date, 'T' and time-of-day parts, whatever instant the clock returns.
#[verifier::external_body]
fn current_time_rfc3339() -> (r: String)
    ensures
        r@.len() >= 19,
{
    chrono::Utc::now().to_rfc3339()
}

/// Builds the response for one request: a freshly generated version-4 UUID
/// in hyphenated form, the current timestamp, and the caller's address and
/// user agent, each replaced by its placeholder where the request carried
/// none.
pub fn generate_uuid_v4(ip: Option<String>, user_agent: Option<String>) -> (resp: UUIDv4Response)
    ensures
        resp.uuid@.len() == 36,
        resp.uuid@[8] == '-' && resp.uuid@[13] == '-' && resp.uuid@[18] == '-' && resp.uuid@[23]
            == '-',
        resp.uuid@[14] == '4',
        resp.created_at@.len() >= 19,
        ip matches Some(s) ==> resp.ip_address@ == s@,
        ip is None ==> resp.ip_address@ == "Unknown IP"@,
        user_agent matches Some(s) ==> resp.user_agent@ == s@,
        user_agent is None ==> resp.user_agent@ == "Unknown User-Agent"@,
{
    let ip_address = match ip {
        Some(s) => s,
        None => String::from_str("Unknown IP"),
    };
    let agent = match user_agent {
        Some(s) => s,
        None => String::from_str("Unknown User-Agent"),
    };
    UUIDv4Response { uuid: new_uuid_v4_string(), created_at: current_time_rfc3339(), ip_address, user_agent: agent }
}

} // verus!
