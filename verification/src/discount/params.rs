//! Queries over the discount phases of a sale.
use crate::types::{DiscountParams, DiscountPhase, IntentsAccount};
use vstd::prelude::*;

verus! {

impl IntentsAccount {
    /// A copy of the account.
    pub fn duplicate(&self) -> (r: IntentsAccount)
        ensures
            r == *self,
    {
        IntentsAccount(self.0.clone())
    }
}

/// `accounts` holds an account with the same name as `account`.
pub open spec fn holds_account(accounts: Seq<IntentsAccount>, account: IntentsAccount) -> bool {
    exists|i: int| 0 <= i < accounts.len() && accounts[i].0@ == account.0@
}

/// Whether `accounts` holds `account`.
pub fn contains_account(accounts: &Vec<IntentsAccount>, account: &IntentsAccount) -> (r: bool)
    ensures
        r == holds_account(accounts@, *account),
{
    let mut i: usize = 0;
    while i < accounts.len()
        invariant
            i <= accounts.len(),
            forall|j: int| 0 <= j < i ==> accounts@[j].0@ != account.0@,
        decreases accounts.len() - i,
    {
        if accounts[i].0 == account.0 {
            return true;
        }
        i = i + 1;
    }
    false
}

impl DiscountPhase {
    /// The phase is running at `timestamp` (start inclusive, end exclusive).
    pub open spec fn is_active_at(self, timestamp: u64) -> bool {
        self.start_time <= timestamp && timestamp < self.end_time
    }

    /// Buying `sale_tokens` more reaches the per-account minimum of the phase.
    pub open spec fn spec_min_limit_passed(self, sale_tokens: u128, existed: u128) -> bool {
        match self.min_limit_per_account {
            Some(min) => existed + sale_tokens >= min,
            None => true,
        }
    }

    /// Returns whether buying `sale_tokens` more, on top of the `existed_account_sale_tokens`
    /// already bought in the phase, reaches the per-account minimum.
    pub fn is_min_limit_passed(&self, sale_tokens: u128, existed_account_sale_tokens: u128) -> (r:
        bool)
        ensures
            r == self.spec_min_limit_passed(sale_tokens, existed_account_sale_tokens),
    {
        match self.min_limit_per_account {
            Some(min) => existed_account_sale_tokens.saturating_add(sale_tokens) >= min,
            None => true,
        }
    }

    /// How far `account_sale_tokens` goes beyond the per-account maximum of the phase.
    pub open spec fn spec_account_limit_excess(self, account_sale_tokens: u128) -> u128 {
        match self.max_limit_per_account {
            Some(max) => account_sale_tokens.saturating_sub(max),
            None => 0,
        }
    }

    /// Returns how many sale tokens of `sale_tokens_per_account` exceed the per-account
    /// maximum of the phase (zero without a maximum).
    pub fn check_sale_account_limit_exceeded(&self, sale_tokens_per_account: u128) -> (r: u128)
        ensures
            r == self.spec_account_limit_excess(sale_tokens_per_account),
    {
        match self.max_limit_per_account {
            Some(max) => sale_tokens_per_account.saturating_sub(max),
            None => 0,
        }
    }
}

/// The indices of the phases running at `timestamp`, in the order of the phases.
pub open spec fn active_indices(phases: Seq<DiscountPhase>, timestamp: u64) -> Seq<usize>
    decreases phases.len(),
{
    if phases.len() == 0 {
        Seq::empty()
    } else {
        let rest = active_indices(phases.drop_last(), timestamp);
        if phases.last().is_active_at(timestamp) {
            rest.push((phases.len() - 1) as usize)
        } else {
            rest
        }
    }
}

/// Index `i` is the first phase with id `id`.
pub open spec fn is_first_with_id(phases: Seq<DiscountPhase>, id: u16, i: int) -> bool {
    0 <= i < phases.len() && phases[i].id == id && forall|j: int| 0 <= j < i ==> phases[j].id != id
}

/// The id of the phase that receives the unsold limit of the phase at index `i`: its explicit
/// target, or else the next phase.
pub open spec fn successor(phases: Seq<DiscountPhase>, i: int) -> Option<u16> {
    match phases[i].remaining_go_to_phase_id {
        Some(id) => Some(id),
        None => if i + 1 < phases.len() {
            Some(phases[i + 1].id)
        } else {
            None
        },
    }
}

/// The ids reached by following successors from the phase at index `i`, at most `steps` times.
pub open spec fn chain(phases: Seq<DiscountPhase>, i: int, steps: nat) -> Seq<u16>
    decreases steps,
{
    if steps == 0 {
        Seq::empty()
    } else {
        match successor(phases, i) {
            None => Seq::empty(),
            Some(next) => if exists|k: int| is_first_with_id(phases, next, k) {
                let k = choose|k: int| is_first_with_id(phases, next, k);
                seq![next] + chain(phases, k, (steps - 1) as nat)
            } else {
                seq![next]
            },
        }
    }
}

/// The unsold limit of the phase at index `i` reaches the phase `target` (directly or through
/// other phases).
pub open spec fn feeds(phases: Seq<DiscountPhase>, i: int, target: u16) -> bool {
    chain(phases, i, phases.len()).contains(target) && phases[i].id != target
}

/// The ids of the phases among the first `n` whose unsold limits reach the phase `target`, in
/// phase order.
pub open spec fn feeders_upto(phases: Seq<DiscountPhase>, n: int, target: u16) -> Seq<u16>
    decreases n,
{
    if n <= 0 {
        Seq::empty()
    } else {
        let rest = feeders_upto(phases, n - 1, target);
        if feeds(phases, n - 1, target) {
            rest.push(phases[n - 1].id)
        } else {
            rest
        }
    }
}

/// The ids of the phases whose unsold limits reach the phase `target`, in phase order.
pub open spec fn feeders(phases: Seq<DiscountPhase>, target: u16) -> Seq<u16> {
    feeders_upto(phases, phases.len() as int, target)
}

/// The parameters of the first phase with id `id`, if any.
pub open spec fn params_of(phases: Seq<DiscountPhase>, id: u16) -> Option<DiscountPhase>
    decreases phases.len(),
{
    if phases.len() == 0 {
        None
    } else if phases[0].id == id {
        Some(phases[0])
    } else {
        params_of(phases.drop_first(), id)
    }
}

proof fn lemma_params_of_split(phases: Seq<DiscountPhase>, id: u16, i: int)
    requires
        0 <= i < phases.len(),
    ensures
        params_of(phases.subrange(i, phases.len() as int), id) == if phases[i].id == id {
            Some(phases[i])
        } else {
            params_of(phases.subrange(i + 1, phases.len() as int), id)
        },
{
    assert(phases.subrange(i, phases.len() as int).drop_first() =~= phases.subrange(
        i + 1,
        phases.len() as int,
    ));
}

impl DiscountParams {
    /// Returns the indices of the phases running at `timestamp`, in phase order.
    pub fn get_phases_by_time(&self, timestamp: u64) -> (r: Vec<usize>)
        ensures
            r@ == active_indices(self.phases@, timestamp),
    {
        let mut r: Vec<usize> = Vec::new();
        let mut i: usize = 0;
        while i < self.phases.len()
            invariant
                i <= self.phases.len(),
                r@ == active_indices(self.phases@.subrange(0, i as int), timestamp),
            decreases self.phases.len() - i,
        {
            let ghost prefix = self.phases@.subrange(0, i + 1);
            assert(prefix.drop_last() =~= self.phases@.subrange(0, i as int));
            let phase = &self.phases[i];
            if phase.start_time <= timestamp && timestamp < phase.end_time {
                r.push(i);
            }
            i = i + 1;
        }
        assert(self.phases@.subrange(0, i as int) =~= self.phases@);
        r
    }

    /// Returns the parameters of the first phase with the given id.
    pub fn get_phase_params_by_id(&self, id: u16) -> (r: Result<&DiscountPhase, &'static str>)
        ensures
            match params_of(self.phases@, id) {
                Some(p) => r matches Ok(q) && *q == p,
                None => r == Err::<&DiscountPhase, &'static str>("Discount phase not found"),
            },
    {
        let mut i: usize = 0;
        assert(self.phases@.subrange(0, self.phases@.len() as int) =~= self.phases@);
        while i < self.phases.len()
            invariant
                i <= self.phases.len(),
                params_of(self.phases@, id) == params_of(
                    self.phases@.subrange(i as int, self.phases@.len() as int),
                    id,
                ),
            decreases self.phases.len() - i,
        {
            proof {
                lemma_params_of_split(self.phases@, id, i as int);
            }
            if self.phases[i].id == id {
                return Ok(&self.phases[i]);
            }
            i = i + 1;
        }
        assert(self.phases@.subrange(i as int, self.phases@.len() as int) =~= Seq::<
            DiscountPhase,
        >::empty());
        Err("Discount phase not found")
    }
}

} // verus!

verus! {

/// Two first-index witnesses for the same id are the same index.
pub proof fn lemma_first_with_id_unique(phases: Seq<DiscountPhase>, id: u16, a: int, b: int)
    requires
        is_first_with_id(phases, id, a),
        is_first_with_id(phases, id, b),
    ensures
        a == b,
{
    if a < b {
        assert(phases[a].id != id);
    } else if b < a {
        assert(phases[b].id != id);
    }
}

/// The index of the first phase with the given id, if any.
pub fn first_index_with_id(phases: &Vec<DiscountPhase>, id: u16) -> (r: Option<usize>)
    ensures
        match r {
            Some(k) => is_first_with_id(phases@, id, k as int),
            None => forall|j: int| 0 <= j < phases@.len() ==> phases@[j].id != id,
        },
{
    let mut k: usize = 0;
    while k < phases.len()
        invariant
            k <= phases.len(),
            forall|j: int| 0 <= j < k ==> phases@[j].id != id,
        decreases phases.len() - k,
    {
        if phases[k].id == id {
            return Some(k);
        }
        k = k + 1;
    }
    None
}

/// The id of the phase that receives the unsold limit of the phase at index `i`.
pub fn successor_of(phases: &Vec<DiscountPhase>, i: usize) -> (r: Option<u16>)
    requires
        i < phases.len(),
    ensures
        r == successor(phases@, i as int),
{
    match phases[i].remaining_go_to_phase_id {
        Some(id) => Some(id),
        None => if i + 1 < phases.len() {
            Some(phases[i + 1].id)
        } else {
            None
        },
    }
}

/// Whether the unsold limit of the phase at index `i` reaches the phase `target`.
pub fn reaches(phases: &Vec<DiscountPhase>, i: usize, target: u16) -> (r: bool)
    requires
        i < phases.len(),
    ensures
        r == chain(phases@, i as int, phases@.len()).contains(target),
{
    let mut cur: usize = i;
    let mut steps: usize = phases.len();
    while steps > 0
        invariant
            cur < phases.len(),
            steps <= phases.len(),
            chain(phases@, i as int, phases@.len()).contains(target) == chain(
                phases@,
                cur as int,
                steps as nat,
            ).contains(target),
        decreases steps,
    {
        let ghost c = chain(phases@, cur as int, steps as nat);
        match successor_of(phases, cur) {
            None => {
                assert(c =~= Seq::<u16>::empty());
                return false;
            },
            Some(next) => {
                if next == target {
                    assert(c[0] == next);
                    return true;
                }
                match first_index_with_id(phases, next) {
                    None => {
                        assert(!exists|k: int| is_first_with_id(phases@, next, k));
                        assert(c =~= seq![next]);
                        assert(!c.contains(target)) by {
                            if c.contains(target) {
                                let w = choose|w: int| 0 <= w < c.len() && c[w] == target;
                                assert(c[w] == next);
                            }
                        }
                        return false;
                    },
                    Some(k) => {
                        proof {
                            let kk = choose|kk: int| is_first_with_id(phases@, next, kk);
                            lemma_first_with_id_unique(phases@, next, kk, k as int);
                            let rest = chain(phases@, k as int, (steps - 1) as nat);
                            assert(c =~= seq![next] + rest);
                            assert(c.contains(target) == rest.contains(target)) by {
                                if c.contains(target) {
                                    let w = choose|w: int| 0 <= w < c.len() && c[w] == target;
                                    assert(w > 0);
                                    assert(rest[w - 1] == target);
                                }
                                if rest.contains(target) {
                                    let w = choose|w: int| 0 <= w < rest.len() && rest[w] == target;
                                    assert(c[w + 1] == target);
                                }
                            }
                        }
                        cur = k;
                        steps = steps - 1;
                    },
                }
            },
        }
    }
    assert(chain(phases@, cur as int, 0) =~= Seq::<u16>::empty());
    false
}

/// The ids of the phases whose unsold limits reach the phase `target`, in phase order.
pub fn collect_feeders(phases: &Vec<DiscountPhase>, target: u16) -> (r: Vec<u16>)
    ensures
        r@ == feeders(phases@, target),
{
    let mut r: Vec<u16> = Vec::new();
    let mut i: usize = 0;
    while i < phases.len()
        invariant
            i <= phases.len(),
            r@ == feeders_upto(phases@, i as int, target),
        decreases phases.len() - i,
    {
        if phases[i].id != target && reaches(phases, i, target) {
            r.push(phases[i].id);
        }
        i = i + 1;
    }
    r
}

} // verus!
