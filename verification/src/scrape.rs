//! The exposition-endpoint core: one scrape turns the outcome of the
//! upstream fetch into a response and, on success only, a registry update.
//!
//! The caller performs the single outbound fetch attempt and hands the typed
//! outcome in; this layer decides. A successful fetch replaces the
//! registry's state with the projection of the fresh snapshot and serializes
//! it; a failed fetch leaves the registry untouched — byte-for-byte
//! identical under serialization — and answers with a server error and a
//! non-empty diagnostic body.

use vstd::prelude::*;

use crate::domain::Room;
use crate::project::{project_details, project_occ, update_metrics};
use crate::render::{render, render_spec};
use crate::text::{dec_rep, u64_dec};

use crate::registry::Registry;

verus! {

/// Why one upstream fetch attempt failed.
pub enum FetchError {
    /// The upstream service could not be reached.
    Connection,
    /// The upstream service answered with this non-success HTTP status.
    Status(u16),
    /// The response body did not match the expected schema.
    Decode,
}

/// The response to one inbound scrape request.
pub struct ScrapeResponse {
    /// HTTP status code: 200 on success, 500 on a failed fetch.
    pub status: u16,
    /// Response body: the exposition text on success, a diagnostic on
    /// failure.
    pub body: String,
}

/// The diagnostic body reported for a failed fetch.
pub open spec fn diagnostic(e: FetchError) -> Seq<char> {
    match e {
        FetchError::Connection => "failed to fetch room data: connection error"@,
        FetchError::Status(code) => "failed to fetch room data: upstream returned HTTP status "@
            + dec_rep(code as nat),
        FetchError::Decode => "failed to fetch room data: could not decode upstream response"@,
    }
}

/// Renders the diagnostic body of a fetch failure.
pub fn diagnostic_text(e: &FetchError) -> (s: String)
    ensures
        s@ == diagnostic(*e),
        s@.len() > 0,
{
    match e {
        FetchError::Connection => {
            let s = String::from_str("failed to fetch room data: connection error");
            proof {
                reveal_strlit("failed to fetch room data: connection error");
            }
            s
        },
        FetchError::Status(code) => {
            let mut s = String::from_str(
                "failed to fetch room data: upstream returned HTTP status ",
            );
            proof {
                reveal_strlit("failed to fetch room data: upstream returned HTTP status ");
            }
            let digits = u64_dec(*code as u64);
            s.append(digits.as_str());
            s
        },
        FetchError::Decode => {
            let s = String::from_str("failed to fetch room data: could not decode upstream response");
            proof {
                reveal_strlit("failed to fetch room data: could not decode upstream response");
            }
            s
        },
    }
}

/// Handles one scrape, given the outcome of this scrape's single upstream
/// fetch attempt.
///
/// On `Ok` the registry is cleared and repopulated so that it reflects the
/// fresh snapshot alone, and the body is its serialization. On `Err` the
/// registry — and with it its serialization — is exactly what it was before
/// the attempt, and the body is a non-empty diagnostic.
pub fn handle_scrape(
    reg: &mut Registry,
    fetched: Result<Vec<Room>, FetchError>,
) -> (r: ScrapeResponse)
    ensures
        match fetched {
            Ok(rooms) => {
                &&& final(reg)@.wf()
                &&& final(reg)@.occupancy == project_occ(rooms.deep_view())
                &&& final(reg)@.details == project_details(rooms.deep_view())
                &&& r.status == 200
                &&& r.body@ == render_spec(final(reg)@)
            },
            Err(e) => {
                &&& final(reg)@ == old(reg)@
                &&& render_spec(final(reg)@) == render_spec(old(reg)@)
                &&& r.status == 500
                &&& r.body@ == diagnostic(e)
                &&& r.body@.len() > 0
            },
        },
{
    match fetched {
        Ok(rooms) => {
            update_metrics(reg, &rooms);
            let body = render(reg);
            ScrapeResponse { status: 200, body }
        },
        Err(e) => {
            let body = diagnostic_text(&e);
            ScrapeResponse { status: 500, body }
        },
    }
}

} // verus!
