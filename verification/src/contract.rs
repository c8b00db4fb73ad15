//! The state machine: the transitions `instantiate`, `execute` (bet creation
//! and vote casting) and the read-only `query`, each specified against the
//! store's map view.

use vstd::prelude::*;
use crate::error::ContractError;
use crate::msg::{ExecuteMsg, GetBetResponse, InstantiateMsg, QueryMsg};
use crate::response::{action_attr, Response};
use crate::state::{Bet, BetView, Config, State, StateView};

verus! {

/// A choice `cast_vote` accepts: exactly the literal `"yes"` or `"no"`,
/// case-sensitive, with no trimming or normalization.
pub open spec fn valid_choice(choice: Seq<char>) -> bool {
    choice == "yes"@ || choice == "no"@
}

/// One counter increment. Counters saturate at the largest representable
/// value instead of wrapping; reaching it is a documented non-goal of this
/// core, not an expected state.
pub open spec fn spec_bump(c: u64) -> u64 {
    if c == u64::MAX {
        u64::MAX
    } else {
        (c + 1) as u64
    }
}

/// The map after a new wager is registered under `teams`: the zeroed record,
/// carrying its own key.
pub open spec fn spec_create_bet(bets: Map<Seq<char>, BetView>, teams: Seq<char>) -> Map<
    Seq<char>,
    BetView,
> {
    bets.insert(teams, BetView { teams, team_a: 0u64, team_b: 0u64 })
}

/// One vote applied to a bet record: `"yes"` bumps `team_a`, `"no"` bumps
/// `team_b`; the label never changes.
pub open spec fn spec_cast_vote(bet: BetView, choice: Seq<char>) -> BetView {
    if choice == "yes"@ {
        BetView { team_a: spec_bump(bet.team_a), ..bet }
    } else {
        BetView { team_b: spec_bump(bet.team_b), ..bet }
    }
}

/// Point query of the bets map: the record under `teams`, or `None` when
/// absent.
pub open spec fn spec_get_bet(bets: Map<Seq<char>, BetView>, teams: Seq<char>) -> Option<
    BetView,
> {
    if bets.contains_key(teams) {
        Some(bets[teams])
    } else {
        None
    }
}

/// Everything bet creation decides, as a relation between the store before
/// and after the call: a taken key is refused with `AlreadyExists` and the
/// store is untouched; a fresh key — the empty label included — gets the
/// zeroed record and a reply tagged `create_bet`.
pub open spec fn create_bet_outcome(
    pre: StateView,
    post: StateView,
    teams: Seq<char>,
    r: Result<Response, ContractError>,
) -> bool {
    &&& post.config == pre.config
    &&& if pre.bets.contains_key(teams) {
        r == Err::<Response, ContractError>(ContractError::AlreadyExists) && post.bets == pre.bets
    } else {
        &&& post.bets == spec_create_bet(pre.bets, teams)
        &&& r matches Ok(resp) && resp@ == action_attr("create_bet"@)
    }
}

/// Everything vote casting decides, as a relation between the store before
/// and after the call. Existence is checked before choice validity, so a
/// missing bet reports `NotFound` whatever the choice; an invalid choice on
/// an existing bet reports `InvalidChoice`; either error leaves the store
/// untouched. A valid vote rewrites exactly the one record and replies with
/// the tag `bet`.
pub open spec fn cast_vote_outcome(
    pre: StateView,
    post: StateView,
    teams: Seq<char>,
    choice: Seq<char>,
    r: Result<Response, ContractError>,
) -> bool {
    &&& post.config == pre.config
    &&& if !pre.bets.contains_key(teams) {
        r == Err::<Response, ContractError>(ContractError::NotFound) && post.bets == pre.bets
    } else if !valid_choice(choice) {
        r == Err::<Response, ContractError>(ContractError::InvalidChoice) && post.bets == pre.bets
    } else {
        &&& post.bets == pre.bets.insert(teams, spec_cast_vote(pre.bets[teams], choice))
        &&& r matches Ok(resp) && resp@ == action_attr("bet"@)
    }
}

/// Records the admin identity in the configuration singleton, overwriting any
/// prior value; the bets are untouched. The address arrives already accepted
/// by the host's validator, so the write itself always succeeds and replies
/// with the tag `instantiate`.
pub fn instantiate(state: &mut State, msg: InstantiateMsg) -> (r: Result<Response, ContractError>)
    requires
        old(state).wf(),
    ensures
        final(state).wf(),
        final(state)@.config == Some(msg.admin_address@),
        final(state)@.bets == old(state)@.bets,
        r matches Ok(resp) && resp@ == action_attr("instantiate"@),
{
    state.set_config(Config { admin_address: msg.admin_address });
    let resp = Response::new().add_attribute("action", "instantiate");
    proof {
        assert(resp@ =~= action_attr("instantiate"@));
    }
    Ok(resp)
}

/// Routes a state-mutating call to its transition.
pub fn execute(state: &mut State, msg: ExecuteMsg) -> (r: Result<Response, ContractError>)
    requires
        old(state).wf(),
    ensures
        final(state).wf(),
        match msg {
            ExecuteMsg::CreateBet { teams } => create_bet_outcome(
                old(state)@,
                final(state)@,
                teams@,
                r,
            ),
            ExecuteMsg::PlaceBet { teams, choice } => cast_vote_outcome(
                old(state)@,
                final(state)@,
                teams@,
                choice@,
                r,
            ),
        },
{
    match msg {
        ExecuteMsg::CreateBet { teams } => execute_create_bet(state, teams),
        ExecuteMsg::PlaceBet { teams, choice } => execute_bet(state, teams, choice),
    }
}

/// Registers a new wager under `teams`. No shape is demanded of the label —
/// an empty string is a legal key — only that it is not already taken.
pub fn execute_create_bet(state: &mut State, teams: String) -> (r: Result<
    Response,
    ContractError,
>)
    requires
        old(state).wf(),
    ensures
        final(state).wf(),
        create_bet_outcome(old(state)@, final(state)@, teams@, r),
{
    if state.has_bet(&teams) {
        return Err(ContractError::AlreadyExists);
    }
    state.save_bet(Bet::new(teams));
    let resp = Response::new().add_attribute("action", "create_bet");
    proof {
        assert(resp@ =~= action_attr("create_bet"@));
    }
    Ok(resp)
}

/// Casts one vote on the wager stored under `teams`: the bet is loaded,
/// exactly one counter is incremented, and the whole record is written back
/// under the same key.
pub fn execute_bet(state: &mut State, teams: String, choice: String) -> (r: Result<
    Response,
    ContractError,
>)
    requires
        old(state).wf(),
    ensures
        final(state).wf(),
        cast_vote_outcome(old(state)@, final(state)@, teams@, choice@, r),
{
    let counters: (u64, u64) = match state.get_bet(&teams) {
        Option::None => {
            return Err(ContractError::NotFound);
        },
        Option::Some(bet) => (bet.team_a, bet.team_b),
    };
    let yes: String = "yes".to_owned();
    let no: String = "no".to_owned();
    if choice != yes && choice != no {
        return Err(ContractError::InvalidChoice);
    }
    let updated = if choice == yes {
        Bet { teams, team_a: saturating_bump(counters.0), team_b: counters.1 }
    } else {
        Bet { teams, team_a: counters.0, team_b: saturating_bump(counters.1) }
    };
    state.save_bet(updated);
    let resp = Response::new().add_attribute("action", "bet");
    proof {
        assert(resp@ =~= action_attr("bet"@));
    }
    Ok(resp)
}

/// The executable counter increment: saturating, as `spec_bump` states.
fn saturating_bump(c: u64) -> (r: u64)
    ensures
        r == spec_bump(c),
{
    if c == u64::MAX {
        u64::MAX
    } else {
        c + 1
    }
}

/// The reply to a query: the looked-up bet, or the configuration.
#[derive(Debug, Clone, PartialEq)]
pub enum QueryResponse {
    Teams(GetBetResponse),
    Config(Config),
}

/// Routes a read-only call. A bet lookup never fails — absence is a value in
/// the reply — while reading the configuration of a store that was never
/// initialized fails with `RetrievalError`.
pub fn query(state: &State, msg: QueryMsg) -> (r: Result<QueryResponse, ContractError>)
    requires
        state.wf(),
    ensures
        match msg {
            QueryMsg::GetTeams { teams } => r matches Ok(QueryResponse::Teams(g))
                && (match g.bet {
                Option::Some(bet) => spec_get_bet(state@.bets, teams@) == Some(bet@),
                Option::None => spec_get_bet(state@.bets, teams@) is None,
            }),
            QueryMsg::GetConfig {  } => match state@.config {
                Option::Some(admin) => r matches Ok(QueryResponse::Config(c))
                    && c.admin_address@ == admin,
                Option::None => r == Err::<QueryResponse, ContractError>(
                    ContractError::RetrievalError,
                ),
            },
        },
{
    match msg {
        QueryMsg::GetTeams { teams } => Ok(QueryResponse::Teams(query_get_bets(state, teams))),
        QueryMsg::GetConfig {  } => match state.get_config() {
            Option::Some(c) => Ok(
                QueryResponse::Config(Config { admin_address: c.admin_address.clone() }),
            ),
            Option::None => Err(ContractError::RetrievalError),
        },
    }
}

/// Point lookup of the wager stored under `teams`: the reply distinguishes a
/// missing bet from an existing bet with zero votes.
pub fn query_get_bets(state: &State, teams: String) -> (r: GetBetResponse)
    requires
        state.wf(),
    ensures
        match r.bet {
            Option::Some(bet) => spec_get_bet(state@.bets, teams@) == Some(bet@),
            Option::None => spec_get_bet(state@.bets, teams@) is None,
        },
{
    match state.get_bet(&teams) {
        Option::Some(bet) => GetBetResponse {
            bet: Some(Bet { teams: bet.teams.clone(), team_a: bet.team_a, team_b: bet.team_b }),
        },
        Option::None => GetBetResponse { bet: None },
    }
}

} // verus!
