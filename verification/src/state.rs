//! Persisted data model: the `Config` singleton, the keyed `Bet` records, and
//! the store abstraction `State` that the transition logic runs against.
//!
//! The host environment owns durability and atomicity of the real store; this
//! module models the store as a single addressable `Config` slot plus a flat
//! mapping from a `teams` label to its `Bet` record.

use vstd::prelude::*;
use vstd::pervasive::VecAdditionalExecFns;

verus! {

/// The singleton configuration record: the admin identity recorded at
/// initialization. The address is an opaque token that the host's validator
/// has already accepted; this core never enforces anything with it.
#[derive(Debug, Clone, PartialEq)]
pub struct Config {
    pub admin_address: String,
}

/// A single wager. `teams` is the label that identifies the wager and doubles
/// as its key in the store; `team_a` counts votes for the affirmative choice
/// and `team_b` counts votes for the negative one.
#[derive(Debug, Clone, PartialEq)]
pub struct Bet {
    pub teams: String,
    pub team_a: u64,
    pub team_b: u64,
}

/// The mathematical value of a `Bet`.
pub struct BetView {
    pub teams: Seq<char>,
    pub team_a: u64,
    pub team_b: u64,
}

impl View for Bet {
    type V = BetView;

    open spec fn view(&self) -> BetView {
        BetView { teams: self.teams@, team_a: self.team_a, team_b: self.team_b }
    }
}

impl Bet {
    /// The single place where a `Bet` record is constructed, so the stored key
    /// and the `teams` field can never diverge: both counters start at zero.
    pub fn new(teams: String) -> (bet: Bet)
        ensures
            bet@ == (BetView { teams: teams@, team_a: 0u64, team_b: 0u64 }),
    {
        Bet { teams, team_a: 0, team_b: 0 }
    }
}

/// No two records in the backing sequence share a key.
pub open spec fn keys_unique(s: Seq<Bet>) -> bool {
    forall|i: int, j: int| 0 <= i < j < s.len() ==> s[i].teams@ != s[j].teams@
}

/// Some record in `s` carries the key `k`.
pub open spec fn has_key(s: Seq<Bet>, k: Seq<char>) -> bool {
    exists|i: int| 0 <= i < s.len() && s[i].teams@ == k
}

/// The index of the record carrying key `k`, when one exists.
pub open spec fn index_of_key(s: Seq<Bet>, k: Seq<char>) -> int {
    choose|i: int| 0 <= i < s.len() && s[i].teams@ == k
}

/// The sequence of records, read as a map from key to record value.
pub open spec fn bets_map(s: Seq<Bet>) -> Map<Seq<char>, BetView> {
    Map::new(|k: Seq<char>| has_key(s, k), |k: Seq<char>| s[index_of_key(s, k)]@)
}

/// The mathematical value of the whole store: the admin address, if the
/// configuration was ever written, and the bets as a map.
pub struct StateView {
    pub config: Option<Seq<char>>,
    pub bets: Map<Seq<char>, BetView>,
}

/// In-memory model of the persistent store: one singleton slot for `Config`
/// and one keyed collection for `Bet`. Each external call runs against a
/// store like this; the host commits the result atomically.
pub struct State {
    config: Option<Config>,
    bets: Vec<Bet>,
}

impl View for State {
    type V = StateView;

    closed spec fn view(&self) -> StateView {
        StateView {
            config: match self.config {
                Option::Some(c) => Option::Some(c.admin_address@),
                Option::None => Option::None,
            },
            bets: bets_map(self.bets@),
        }
    }
}

/// A record with key `k` at index `i` is exactly what the map view returns
/// for `k`, provided keys are unique.
proof fn lemma_key_at(s: Seq<Bet>, k: Seq<char>, i: int)
    requires
        keys_unique(s),
        0 <= i < s.len(),
        s[i].teams@ == k,
    ensures
        bets_map(s).contains_key(k),
        bets_map(s)[k] == s[i]@,
{
    assert(has_key(s, k));
    let j = index_of_key(s, k);
    assert(0 <= j < s.len() && s[j].teams@ == k);
    if i < j {
        assert(s[i].teams@ != s[j].teams@);
    } else if j < i {
        assert(s[j].teams@ != s[i].teams@);
    }
}

/// Appending a record whose key is fresh extends the map view by exactly that
/// key and keeps keys unique.
proof fn lemma_push_view(s: Seq<Bet>, bet: Bet)
    requires
        keys_unique(s),
        forall|j: int| 0 <= j < s.len() ==> s[j].teams@ != bet.teams@,
    ensures
        keys_unique(s.push(bet)),
        bets_map(s.push(bet)) == bets_map(s).insert(bet.teams@, bet@),
{
    let s2 = s.push(bet);
    assert forall|i: int, j: int| 0 <= i < j < s2.len() implies s2[i].teams@ != s2[j].teams@ by {
        if j < s.len() {
            assert(s[i].teams@ != s[j].teams@);
        } else {
            assert(s2[j] == bet);
            assert(s[i].teams@ != bet.teams@);
        }
    }
    let m2 = bets_map(s).insert(bet.teams@, bet@);
    assert forall|k: Seq<char>| #[trigger] has_key(s2, k) implies m2.contains_key(k) by {
        let i = choose|i: int| 0 <= i < s2.len() && s2[i].teams@ == k;
        if i < s.len() {
            assert(has_key(s, k));
        }
    }
    assert forall|k: Seq<char>| #[trigger] m2.contains_key(k) implies has_key(s2, k) by {
        if k == bet.teams@ {
            assert(s2[s.len() as int].teams@ == k);
        } else {
            let i = choose|i: int| 0 <= i < s.len() && s[i].teams@ == k;
            assert(s2[i].teams@ == k);
        }
    }
    assert forall|k: Seq<char>| #[trigger] m2.contains_key(k) implies bets_map(s2)[k] == m2[k] by {
        if k == bet.teams@ {
            lemma_key_at(s2, k, s.len() as int);
        } else {
            let i = choose|i: int| 0 <= i < s.len() && s[i].teams@ == k;
            lemma_key_at(s, k, i);
            assert(s2[i].teams@ == k);
            lemma_key_at(s2, k, i);
        }
    }
    assert(bets_map(s2) =~= m2);
}

/// Overwriting the record at index `i` with one carrying the same key updates
/// the map view at exactly that key and keeps keys unique.
proof fn lemma_update_view(s: Seq<Bet>, i: int, bet: Bet)
    requires
        keys_unique(s),
        0 <= i < s.len(),
        s[i].teams@ == bet.teams@,
    ensures
        keys_unique(s.update(i, bet)),
        bets_map(s.update(i, bet)) == bets_map(s).insert(bet.teams@, bet@),
{
    let s2 = s.update(i, bet);
    assert forall|p: int, q: int| 0 <= p < q < s2.len() implies s2[p].teams@ != s2[q].teams@ by {
        assert(s[p].teams@ != s[q].teams@);
        assert(s2[p].teams@ == s[p].teams@ && s2[q].teams@ == s[q].teams@);
    }
    let m2 = bets_map(s).insert(bet.teams@, bet@);
    assert forall|k: Seq<char>| #[trigger] has_key(s2, k) implies m2.contains_key(k) by {
        let p = choose|p: int| 0 <= p < s2.len() && s2[p].teams@ == k;
        assert(s[p].teams@ == s2[p].teams@);
        assert(has_key(s, k));
    }
    assert forall|k: Seq<char>| #[trigger] m2.contains_key(k) implies has_key(s2, k) by {
        if k == bet.teams@ {
            assert(s2[i].teams@ == k);
        } else {
            let p = choose|p: int| 0 <= p < s.len() && s[p].teams@ == k;
            assert(s2[p].teams@ == k);
        }
    }
    assert forall|k: Seq<char>| #[trigger] m2.contains_key(k) implies bets_map(s2)[k] == m2[k] by {
        if k == bet.teams@ {
            lemma_key_at(s2, k, i);
        } else {
            let p = choose|p: int| 0 <= p < s.len() && s[p].teams@ == k;
            lemma_key_at(s, k, p);
            assert(p != i);
            assert(s2[p].teams@ == k);
            lemma_key_at(s2, k, p);
        }
    }
    assert(bets_map(s2) =~= m2);
}

impl State {
    /// Well-formedness: the backing records carry pairwise distinct keys, so
    /// the store really is a map.
    pub closed spec fn wf(self) -> bool {
        keys_unique(self.bets@)
    }

    /// A fresh store: no configuration written, no bets registered.
    pub fn new() -> (s: State)
        ensures
            s.wf(),
            s@.config is None,
            s@.bets == Map::<Seq<char>, BetView>::empty(),
    {
        let s = State { config: None, bets: Vec::new() };
        proof {
            assert(s@.bets =~= Map::<Seq<char>, BetView>::empty());
        }
        s
    }

    /// The index of the record stored under `teams`, when one exists.
    fn find_bet(&self, teams: &String) -> (r: Option<usize>)
        ensures
            match r {
                Option::Some(i) => i < self.bets@.len() && self.bets@[i as int].teams@ == teams@,
                Option::None => forall|j: int|
                    0 <= j < self.bets@.len() ==> self.bets@[j].teams@ != teams@,
            },
    {
        let n = self.bets.len();
        let mut i: usize = 0;
        while i < n
            invariant
                n == self.bets@.len(),
                i <= n,
                forall|j: int| 0 <= j < i ==> self.bets@[j].teams@ != teams@,
            decreases n - i,
        {
            if self.bets[i].teams == *teams {
                return Some(i);
            }
            i += 1;
        }
        None
    }

    /// Whether a bet is stored under `teams`.
    pub fn has_bet(&self, teams: &String) -> (r: bool)
        requires
            self.wf(),
        ensures
            r == self@.bets.contains_key(teams@),
    {
        match self.find_bet(teams) {
            Some(i) => {
                proof {
                    assert(has_key(self.bets@, teams@));
                }
                true
            },
            None => {
                proof {
                    assert(!has_key(self.bets@, teams@));
                }
                false
            },
        }
    }

    /// Point lookup of the bet stored under `teams`.
    pub fn get_bet(&self, teams: &String) -> (r: Option<&Bet>)
        requires
            self.wf(),
        ensures
            match r {
                Option::Some(bet) => self@.bets.contains_key(teams@)
                    && bet@ == self@.bets[teams@] && bet.teams@ == teams@,
                Option::None => !self@.bets.contains_key(teams@),
            },
    {
        match self.find_bet(teams) {
            Some(i) => {
                proof {
                    lemma_key_at(self.bets@, teams@, i as int);
                }
                Some(&self.bets[i])
            },
            None => {
                proof {
                    assert(!has_key(self.bets@, teams@));
                }
                None
            },
        }
    }

    /// Writes `bet` under its own `teams` key, overwriting any record already
    /// stored there.
    pub fn save_bet(&mut self, bet: Bet)
        requires
            old(self).wf(),
        ensures
            final(self).wf(),
            final(self)@.bets == old(self)@.bets.insert(bet.teams@, bet@),
            final(self)@.config == old(self)@.config,
    {
        let ghost s0 = self.bets@;
        match self.find_bet(&bet.teams) {
            Some(i) => {
                self.bets.set(i, bet);
                proof {
                    lemma_update_view(s0, i as int, self.bets@[i as int]);
                }
            },
            None => {
                self.bets.push(bet);
                proof {
                    lemma_push_view(s0, self.bets@[s0.len() as int]);
                }
            },
        }
    }

    /// Writes the configuration singleton, overwriting any prior value.
    pub fn set_config(&mut self, config: Config)
        ensures
            final(self)@.config == Some(config.admin_address@),
            final(self)@.bets == old(self)@.bets,
            final(self).wf() == old(self).wf(),
    {
        self.config = Some(config);
    }

    /// Reads the configuration singleton, if it was ever written.
    pub fn get_config(&self) -> (r: Option<&Config>)
        ensures
            match r {
                Option::Some(c) => self@.config == Some(c.admin_address@),
                Option::None => self@.config is None,
            },
    {
        match &self.config {
            Some(c) => Some(c),
            None => None,
        }
    }
}

} // verus!
