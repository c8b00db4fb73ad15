//! The logical call surface: one message type per entry point and the reply
//! type of the bet query. Wire encoding is the host's concern; these types
//! carry plain values only.

use vstd::prelude::*;
use crate::state::Bet;

verus! {

/// The initialization call: the admin identity to record.
#[derive(Debug, Clone, PartialEq)]
pub struct InstantiateMsg {
    pub admin_address: String,
}

/// A state-mutating call.
#[derive(Debug, Clone, PartialEq)]
pub enum ExecuteMsg {
    /// Register a new wager under the `teams` label.
    CreateBet { teams: String },
    /// Cast one vote on the wager stored under `teams`; `choice` must be
    /// exactly `"yes"` or `"no"`.
    PlaceBet { teams: String, choice: String },
}

/// A read-only call.
#[derive(Debug, Clone, PartialEq)]
pub enum QueryMsg {
    /// Look up the wager stored under `teams`.
    GetTeams { teams: String },
    /// Read the configuration singleton.
    GetConfig {},
}

/// The reply to `QueryMsg::GetTeams`: the stored bet, or `None` when no bet
/// exists under the requested label — "not found" is a value here, not an
/// error, so callers can tell a missing bet from one with zero votes.
#[derive(Debug, Clone, PartialEq)]
pub struct GetBetResponse {
    pub bet: Option<Bet>,
}

} // verus!
