//! Laws of the transition system, stated over the specification-level
//! transitions of `contract` and proved once for all stores, labels and vote
//! sequences.

use vstd::prelude::*;
use crate::contract::{spec_cast_vote, spec_create_bet, spec_get_bet, valid_choice};
use crate::state::BetView;

verus! {

/// Creating a bet stores the zeroed record under its own label; on the
/// resulting store the key is taken, so by `create_bet_outcome` a second
/// creation under the same label is refused with `AlreadyExists` and leaves
/// the stored record exactly as the first creation wrote it.
pub proof fn lemma_create_bet_taken(bets: Map<Seq<char>, BetView>, teams: Seq<char>)
    ensures
        spec_create_bet(bets, teams).contains_key(teams),
        spec_create_bet(bets, teams)[teams] == (BetView { teams, team_a: 0u64, team_b: 0u64 }),
{
}

/// A lookup before any creation under `teams` reports the bet absent, and a
/// lookup right after the creation returns the record with both counters at
/// zero.
pub proof fn lemma_get_bet_around_create(bets: Map<Seq<char>, BetView>, teams: Seq<char>)
    requires
        !bets.contains_key(teams),
    ensures
        spec_get_bet(bets, teams) is None,
        spec_get_bet(spec_create_bet(bets, teams), teams) == Some(
            BetView { teams, team_a: 0u64, team_b: 0u64 },
        ),
{
}

/// The bet record after the votes in `choices` have been cast on it, first to
/// last.
pub open spec fn spec_tally(bet: BetView, choices: Seq<Seq<char>>) -> BetView
    decreases choices.len(),
{
    if choices.len() == 0 {
        bet
    } else {
        spec_cast_vote(spec_tally(bet, choices.drop_last()), choices.last())
    }
}

/// How many entries of `choices` equal `c`.
pub open spec fn count_choice(choices: Seq<Seq<char>>, c: Seq<char>) -> nat
    decreases choices.len(),
{
    if choices.len() == 0 {
        0nat
    } else {
        count_choice(choices.drop_last(), c) + (if choices.last() == c {
            1nat
        } else {
            0nat
        })
    }
}

/// For every sequence of valid votes cast on a bet, in whatever order the
/// `"yes"` and `"no"` votes are interleaved, `team_a` grows by exactly the
/// number of `"yes"` votes, `team_b` by exactly the number of `"no"` votes,
/// and the label never changes — as long as neither counter reaches the
/// representable maximum, where the increment saturates.
pub proof fn lemma_tally_counts(bet: BetView, choices: Seq<Seq<char>>)
    requires
        forall|i: int| 0 <= i < choices.len() ==> valid_choice(#[trigger] choices[i]),
        bet.team_a + count_choice(choices, "yes"@) <= u64::MAX,
        bet.team_b + count_choice(choices, "no"@) <= u64::MAX,
    ensures
        spec_tally(bet, choices).teams == bet.teams,
        spec_tally(bet, choices).team_a == bet.team_a + count_choice(choices, "yes"@),
        spec_tally(bet, choices).team_b == bet.team_b + count_choice(choices, "no"@),
    decreases choices.len(),
{
    reveal_strlit("yes");
    reveal_strlit("no");
    if choices.len() > 0 {
        let prefix = choices.drop_last();
        assert forall|i: int| 0 <= i < prefix.len() implies valid_choice(#[trigger] prefix[i]) by {
            assert(prefix[i] == choices[i]);
        }
        lemma_tally_counts(bet, prefix);
        assert(valid_choice(choices.last()));
        assert("yes"@.len() == 3 && "no"@.len() == 2);
        assert("yes"@ != "no"@);
    }
}

/// The whole bets map after the votes in `choices` have been cast on the bet
/// stored under `teams`, first to last.
pub open spec fn spec_tally_map(
    bets: Map<Seq<char>, BetView>,
    teams: Seq<char>,
    choices: Seq<Seq<char>>,
) -> Map<Seq<char>, BetView>
    decreases choices.len(),
{
    if choices.len() == 0 {
        bets
    } else {
        let prior = spec_tally_map(bets, teams, choices.drop_last());
        prior.insert(teams, spec_cast_vote(prior[teams], choices.last()))
    }
}

/// A sequence of votes on one existing bet rewrites exactly that record — to
/// the tally of the votes.
pub proof fn lemma_tally_map(
    bets: Map<Seq<char>, BetView>,
    teams: Seq<char>,
    choices: Seq<Seq<char>>,
)
    requires
        bets.contains_key(teams),
    ensures
        spec_tally_map(bets, teams, choices) == bets.insert(
            teams,
            spec_tally(bets[teams], choices),
        ),
    decreases choices.len(),
{
    if choices.len() == 0 {
        assert(spec_tally_map(bets, teams, choices) =~= bets.insert(teams, bets[teams]));
    } else {
        lemma_tally_map(bets, teams, choices.drop_last());
        assert(spec_tally_map(bets, teams, choices) =~= bets.insert(
            teams,
            spec_tally(bets[teams], choices),
        ));
    }
}

/// For every sequence of valid votes cast on one existing bet, the stored
/// record ends with `team_a` grown by exactly the number of `"yes"` votes and
/// `team_b` by exactly the number of `"no"` votes, whatever the interleaving,
/// while its label and every other key of the store are untouched — as long
/// as neither counter reaches the representable maximum, where the increment
/// saturates.
pub proof fn lemma_vote_sequence_counts(
    bets: Map<Seq<char>, BetView>,
    teams: Seq<char>,
    choices: Seq<Seq<char>>,
)
    requires
        bets.contains_key(teams),
        forall|i: int| 0 <= i < choices.len() ==> valid_choice(#[trigger] choices[i]),
        bets[teams].team_a + count_choice(choices, "yes"@) <= u64::MAX,
        bets[teams].team_b + count_choice(choices, "no"@) <= u64::MAX,
    ensures
        spec_tally_map(bets, teams, choices).contains_key(teams),
        spec_tally_map(bets, teams, choices)[teams].teams == bets[teams].teams,
        spec_tally_map(bets, teams, choices)[teams].team_a == bets[teams].team_a + count_choice(
            choices,
            "yes"@,
        ),
        spec_tally_map(bets, teams, choices)[teams].team_b == bets[teams].team_b + count_choice(
            choices,
            "no"@,
        ),
        forall|k: Seq<char>|
            k != teams ==> #[trigger] spec_tally_map(bets, teams, choices).contains_key(k)
                == bets.contains_key(k),
        forall|k: Seq<char>|
            k != teams && bets.contains_key(k) ==> #[trigger] spec_tally_map(
                bets,
                teams,
                choices,
            )[k] == bets[k],
{
    lemma_tally_map(bets, teams, choices);
    lemma_tally_counts(bets[teams], choices);
}

} // verus!
