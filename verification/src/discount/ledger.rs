//! Building the sale state of the discount phases, recording sales in it, and the queries
//! that the deposit distribution makes of it.
use crate::discount::params::{collect_feeders, feeders};
use crate::discount::state::{
    add_tokens, find_entry, fresh_view, is_first_state, lemma_phase_state_at_first,
    lemma_phase_state_update, linked_of, phase_state, tokens_of, views_of, DiscountState,
    DiscountStatePerPhase, PhaseView,
};
use crate::mechanics::deposit::{calculate_amount_of_sale_tokens, spec_amount_of_sale_tokens};
use crate::types::{
    DepositDistribution, DiscountParams, DiscountPhase, DistributionView, IntentsAccount,
};
use vstd::prelude::*;

verus! {

/// `views` with `v` in place of the first state with the same id, or with `v` appended.
pub open spec fn put_phase(views: Seq<PhaseView>, v: PhaseView) -> Seq<PhaseView>
    decreases views.len(),
{
    if views.len() == 0 {
        seq![v]
    } else if views[0].id == v.id {
        views.update(0, v)
    } else {
        seq![views[0]] + put_phase(views.drop_first(), v)
    }
}

/// The states of the phases before any sale: one per phase id, in the order in which the ids
/// first appear; a later phase with the same id replaces the earlier state.
pub open spec fn initial_views(phases: Seq<DiscountPhase>) -> Seq<PhaseView>
    decreases phases.len(),
{
    if phases.len() == 0 {
        Seq::empty()
    } else {
        put_phase(initial_views(phases.drop_last()), fresh_view(phases.last()))
    }
}

/// For each phase, in phase order, its id and the ids of the phases that feed it.
pub open spec fn initial_links(phases: Seq<DiscountPhase>) -> Seq<(u16, Seq<u16>)> {
    Seq::new(phases.len(), |i: int| (phases[i].id, feeders(phases, phases[i].id)))
}

/// A phase state after `tokens` more sale tokens were sold in it to `account`.
pub open spec fn credited(p: PhaseView, account: IntentsAccount, tokens: u128) -> PhaseView {
    PhaseView {
        id: p.id,
        total_sale_tokens: p.total_sale_tokens.saturating_add(tokens),
        limit_per_phase: p.limit_per_phase,
        account_sale_tokens: add_tokens(p.account_sale_tokens, account, tokens),
        whitelist: p.whitelist,
    }
}

/// `views` with the first state of phase `id` credited; unchanged without such a state.
pub open spec fn credit_phase(
    views: Seq<PhaseView>,
    id: u16,
    account: IntentsAccount,
    tokens: u128,
) -> Seq<PhaseView>
    decreases views.len(),
{
    if views.len() == 0 {
        views
    } else if views[0].id == id {
        views.update(0, credited(views[0], account, tokens))
    } else {
        seq![views[0]] + credit_phase(views.drop_first(), id, account, tokens)
    }
}

/// The sale tokens bought by `weight` at the price, zero when that does not fit in `u128`.
pub open spec fn sale_tokens_or_zero(weight: u128, deposit_token: u128, sale_token: u128) -> u128 {
    match spec_amount_of_sale_tokens(weight, deposit_token, sale_token) {
        Ok(v) => v,
        Err(_) => 0,
    }
}

/// `views` after crediting each phase weight in turn.
pub open spec fn credit_all(
    views: Seq<PhaseView>,
    account: IntentsAccount,
    weights: Seq<(u16, u128)>,
    deposit_token: u128,
    sale_token: u128,
) -> Seq<PhaseView>
    decreases weights.len(),
{
    if weights.len() == 0 {
        views
    } else {
        let before = credit_all(views, account, weights.drop_last(), deposit_token, sale_token);
        credit_phase(
            before,
            weights.last().0,
            account,
            sale_tokens_or_zero(weights.last().1, deposit_token, sale_token),
        )
    }
}

/// The sale tokens that `account` bought in phase `id`.
pub open spec fn account_tokens_in_phase(views: Seq<PhaseView>, account: IntentsAccount, id: u16)
    -> u128 {
    match phase_state(views, id) {
        Some(p) => tokens_of(p.account_sale_tokens, account),
        None => 0,
    }
}

/// Phase `other` feeds phase `id` by the recorded links.
pub open spec fn linked(links: Seq<(u16, Seq<u16>)>, id: u16, other: u16) -> bool {
    match linked_of(links, id) {
        Some(list) => list.contains(other),
        None => false,
    }
}

/// Phase `other` shares its limit with phase `id`: it is that phase or feeds it.
pub open spec fn in_group(links: Seq<(u16, Seq<u16>)>, id: u16, other: u16) -> bool {
    other == id || linked(links, id, other)
}

/// The sale tokens sold in the limited phases among `views` that share their limits with
/// phase `id`, saturating at `u128::MAX`.
pub open spec fn group_sold(views: Seq<PhaseView>, links: Seq<(u16, Seq<u16>)>, id: u16) -> u128
    decreases views.len(),
{
    if views.len() == 0 {
        0
    } else {
        let rest = group_sold(views.drop_last(), links, id);
        let p = views.last();
        if p.limit_per_phase is Some && in_group(links, id, p.id) {
            rest.saturating_add(p.total_sale_tokens)
        } else {
            rest
        }
    }
}

/// The limits of the phases among `views` that share their limits with phase `id` (an
/// unlimited phase counts as zero), saturating at `u128::MAX`.
pub open spec fn group_limits(views: Seq<PhaseView>, links: Seq<(u16, Seq<u16>)>, id: u16) -> u128
    decreases views.len(),
{
    if views.len() == 0 {
        0
    } else {
        let rest = group_limits(views.drop_last(), links, id);
        let p = views.last();
        if in_group(links, id, p.id) {
            rest.saturating_add(
                match p.limit_per_phase {
                    Some(l) => l,
                    None => 0,
                },
            )
        } else {
            rest
        }
    }
}

/// How far `sale_tokens` goes beyond the shared limit of phase `id`; zero when the phase is
/// unknown or has no limit.
pub open spec fn phases_limit_excess(
    views: Seq<PhaseView>,
    links: Seq<(u16, Seq<u16>)>,
    sale_tokens: u128,
    id: u16,
) -> u128 {
    match phase_state(views, id) {
        Some(p) => if p.limit_per_phase is Some {
            sale_tokens.saturating_sub(group_limits(views, links, id))
        } else {
            0
        },
        None => 0,
    }
}

proof fn lemma_put_phase(views: Seq<PhaseView>, v: PhaseView, k: Option<int>)
    requires
        match k {
            Some(i) => is_first_state(views, v.id, i),
            None => forall|j: int| 0 <= j < views.len() ==> views[j].id != v.id,
        },
    ensures
        put_phase(views, v) == match k {
            Some(i) => views.update(i, v),
            None => views.push(v),
        },
    decreases views.len(),
{
    if views.len() == 0 {
        assert(put_phase(views, v) =~= views.push(v));
    } else if views[0].id == v.id {
        if let Some(i) = k {
            if i > 0 {
                assert(views[0].id != v.id);
            }
        }
    } else {
        let rest = views.drop_first();
        let kk = match k {
            Some(i) => Some(i - 1),
            None => None,
        };
        if let Some(i) = k {
            assert(i != 0);
            assert(is_first_state(rest, v.id, i - 1));
        } else {
            assert(forall|j: int| 0 <= j < rest.len() ==> rest[j].id == views[j + 1].id);
        }
        lemma_put_phase(rest, v, kk);
        match k {
            Some(i) => assert(put_phase(views, v) =~= views.update(i, v)),
            None => assert(put_phase(views, v) =~= views.push(v)),
        }
    }
}

proof fn lemma_credit_phase(
    views: Seq<PhaseView>,
    id: u16,
    account: IntentsAccount,
    tokens: u128,
    k: Option<int>,
)
    requires
        match k {
            Some(i) => is_first_state(views, id, i),
            None => forall|j: int| 0 <= j < views.len() ==> views[j].id != id,
        },
    ensures
        credit_phase(views, id, account, tokens) == match k {
            Some(i) => views.update(i, credited(views[i], account, tokens)),
            None => views,
        },
    decreases views.len(),
{
    if views.len() == 0 {
    } else if views[0].id == id {
        if let Some(i) = k {
            if i > 0 {
                assert(views[0].id != id);
            }
        }
    } else {
        let rest = views.drop_first();
        let kk = match k {
            Some(i) => Some(i - 1),
            None => None,
        };
        if let Some(i) = k {
            assert(i != 0);
            assert(is_first_state(rest, id, i - 1));
        } else {
            assert(forall|j: int| 0 <= j < rest.len() ==> rest[j].id == views[j + 1].id);
        }
        lemma_credit_phase(rest, id, account, tokens, kk);
        match k {
            Some(i) => assert(credit_phase(views, id, account, tokens) =~= views.update(
                i,
                credited(views[i], account, tokens),
            )),
            None => assert(credit_phase(views, id, account, tokens) =~= views),
        }
    }
}

proof fn lemma_add_tokens(
    entries: Seq<(IntentsAccount, u128)>,
    account: IntentsAccount,
    amount: u128,
    k: Option<int>,
)
    requires
        match k {
            Some(i) => 0 <= i < entries.len() && entries[i].0.0@ == account.0@ && forall|j: int|
                0 <= j < i ==> entries[j].0.0@ != account.0@,
            None => forall|j: int| 0 <= j < entries.len() ==> entries[j].0.0@ != account.0@,
        },
    ensures
        add_tokens(entries, account, amount) == match k {
            Some(i) => entries.update(i, (entries[i].0, entries[i].1.saturating_add(amount))),
            None => entries.push((account, amount)),
        },
    decreases entries.len(),
{
    if entries.len() == 0 {
        assert(add_tokens(entries, account, amount) =~= entries.push((account, amount)));
    } else if entries[0].0.0@ == account.0@ {
        if let Some(i) = k {
            if i > 0 {
                assert(entries[0].0.0@ != account.0@);
            }
        }
    } else {
        let rest = entries.drop_first();
        let kk = match k {
            Some(i) => Some(i - 1),
            None => None,
        };
        if let Some(i) = k {
            assert(i != 0);
            assert(forall|j: int| 0 <= j < i - 1 ==> rest[j] == entries[j + 1]);
        } else {
            assert(forall|j: int| 0 <= j < rest.len() ==> rest[j] == entries[j + 1]);
        }
        lemma_add_tokens(rest, account, amount, kk);
        match k {
            Some(i) => assert(add_tokens(entries, account, amount) =~= entries.update(
                i,
                (entries[i].0, entries[i].1.saturating_add(amount)),
            )),
            None => assert(add_tokens(entries, account, amount) =~= entries.push(
                (account, amount),
            )),
        }
    }
}

/// Adds `amount` (saturating) to the entry of `account`, creating the entry when missing.
fn add_account_tokens(
    entries: &mut Vec<(IntentsAccount, u128)>,
    account: &IntentsAccount,
    amount: u128,
)
    ensures
        final(entries)@ == add_tokens(old(entries)@, *account, amount),
{
    match find_entry(entries, account) {
        Some(i) => {
            proof {
                lemma_add_tokens(entries@, *account, amount, Some(i as int));
            }
            let (name, held) = entries.remove(i);
            entries.insert(i, (name, held.saturating_add(amount)));
            assert(entries@ =~= old(entries)@.update(
                i as int,
                (old(entries)@[i as int].0, old(entries)@[i as int].1.saturating_add(amount)),
            ));
        },
        None => {
            proof {
                assert forall|j: int| 0 <= j < entries@.len() implies entries@[j].0.0@
                    != account.0@ by {
                    if entries@[j].0.0@ == account.0@ {
                        assert(crate::discount::state::entry_of(entries@, *account) is Some)
                            by {
                            lemma_entry_found(entries@, *account, j);
                        }
                    }
                }
                lemma_add_tokens(entries@, *account, amount, None);
            }
            entries.push((account.duplicate(), amount));
        },
    }
}

proof fn lemma_entry_found(entries: Seq<(IntentsAccount, u128)>, account: IntentsAccount, j: int)
    requires
        0 <= j < entries.len(),
        entries[j].0.0@ == account.0@,
    ensures
        crate::discount::state::entry_of(entries, account) is Some,
    decreases j,
{
    if j > 0 && entries[0].0.0@ != account.0@ {
        lemma_entry_found(entries.drop_first(), account, j - 1);
    }
}

/// The index of the first phase state with the given id, if any.
pub fn find_phase_index(phases: &Vec<DiscountStatePerPhase>, id: u16) -> (r: Option<usize>)
    ensures
        match r {
            Some(k) => is_first_state(views_of(phases@), id, k as int),
            None => forall|j: int| 0 <= j < phases@.len() ==> views_of(phases@)[j].id != id,
        },
{
    let mut k: usize = 0;
    while k < phases.len()
        invariant
            k <= phases.len(),
            forall|j: int| 0 <= j < k ==> views_of(phases@)[j].id != id,
        decreases phases.len() - k,
    {
        if phases[k].id == id {
            return Some(k);
        }
        k = k + 1;
    }
    None
}

impl DiscountState {
    /// Creates the sale state of the discount phases: a fresh state per phase and, for each
    /// phase, the phases whose unsold limits it receives.
    pub fn init(discounts: &DiscountParams) -> (r: Self)
        ensures
            r@.phases == initial_views(discounts.phases@),
            r@.linked_phases == initial_links(discounts.phases@),
    {
        let mut phases: Vec<DiscountStatePerPhase> = Vec::new();
        let mut i: usize = 0;
        while i < discounts.phases.len()
            invariant
                i <= discounts.phases.len(),
                views_of(phases@) == initial_views(discounts.phases@.subrange(0, i as int)),
            decreases discounts.phases.len() - i,
        {
            let phase = &discounts.phases[i];
            let fresh = DiscountStatePerPhase::new(phase);
            let ghost before = views_of(phases@);
            proof {
                let prefix = discounts.phases@.subrange(0, i + 1);
                assert(prefix.drop_last() =~= discounts.phases@.subrange(0, i as int));
                assert(prefix.last() == *phase);
            }
            match find_phase_index(&phases, phase.id) {
                Some(k) => {
                    proof {
                        lemma_put_phase(before, fresh@, Some(k as int));
                    }
                    phases.remove(k);
                    phases.insert(k, fresh);
                    assert(views_of(phases@) =~= before.update(k as int, fresh_view(*phase)));
                },
                None => {
                    proof {
                        lemma_put_phase(before, fresh@, None);
                    }
                    phases.push(fresh);
                    assert(views_of(phases@) =~= before.push(fresh_view(*phase)));
                },
            }
            i = i + 1;
        }
        assert(discounts.phases@.subrange(0, i as int) =~= discounts.phases@);
        let mut linked_phases: Vec<(u16, Vec<u16>)> = Vec::new();
        let mut j: usize = 0;
        while j < discounts.phases.len()
            invariant
                j <= discounts.phases.len(),
                linked_phases@.len() == j,
                linked_phases@.map_values(|e: (u16, Vec<u16>)| (e.0, e.1@)) == initial_links(
                    discounts.phases@,
                ).subrange(0, j as int),
            decreases discounts.phases.len() - j,
        {
            let id = discounts.phases[j].id;
            let fed_by = collect_feeders(&discounts.phases, id);
            let ghost before = linked_phases@;
            linked_phases.push((id, fed_by));
            proof {
                let mapped = linked_phases@.map_values(|e: (u16, Vec<u16>)| (e.0, e.1@));
                let expected = initial_links(discounts.phases@).subrange(0, j + 1);
                assert(mapped.len() == expected.len());
                assert forall|m: int| 0 <= m < mapped.len() implies mapped[m] == expected[m] by {
                    if m < j {
                        assert(linked_phases@[m] == before[m]);
                    } else {
                        assert(linked_phases@[m] == (id, fed_by));
                    }
                }
            }
            j = j + 1;
            assert(linked_phases@.map_values(|e: (u16, Vec<u16>)| (e.0, e.1@)) =~= initial_links(
                discounts.phases@,
            ).subrange(0, j as int));
        }
        let r = DiscountState { phases, linked_phases };
        assert(r@.linked_phases =~= initial_links(discounts.phases@));
        r
    }

    /// Records a deposit distribution of `account`: each phase weight is converted to sale
    /// tokens at the price (zero when that does not fit in `u128`) and added to the phase
    /// total and to the account's share in the phase. Other distributions change nothing.
    pub fn update(
        &mut self,
        account: &IntentsAccount,
        distribution: &DepositDistribution,
        deposit_token: u128,
        sale_token: u128,
    )
        requires
            deposit_token > 0,
        ensures
            final(self)@.linked_phases == old(self)@.linked_phases,
            final(self)@.phases == match distribution@ {
                DistributionView::WithDiscount { phase_weights, .. } => credit_all(
                    old(self)@.phases,
                    *account,
                    phase_weights,
                    deposit_token,
                    sale_token,
                ),
                _ => old(self)@.phases,
            },
    {
        if let DepositDistribution::WithDiscount { phase_weights, .. } = distribution {
            let mut i: usize = 0;
            while i < phase_weights.len()
                invariant
                    i <= phase_weights.len(),
                    deposit_token > 0,
                    self@.linked_phases == old(self)@.linked_phases,
                    self@.phases == credit_all(
                        old(self)@.phases,
                        *account,
                        phase_weights@.subrange(0, i as int),
                        deposit_token,
                        sale_token,
                    ),
                decreases phase_weights.len() - i,
            {
                let (id, weight) = phase_weights[i];
                let ghost before = self@.phases;
                proof {
                    let prefix = phase_weights@.subrange(0, i + 1);
                    assert(prefix.drop_last() =~= phase_weights@.subrange(0, i as int));
                    assert(prefix.last() == (id, weight));
                }
                let sale_tokens = match calculate_amount_of_sale_tokens(
                    weight,
                    deposit_token,
                    sale_token,
                ) {
                    Ok(v) => v,
                    Err(_) => 0,
                };
                match find_phase_index(&self.phases, id) {
                    Some(k) => {
                        proof {
                            lemma_credit_phase(before, id, *account, sale_tokens, Some(k as int));
                        }
                        let mut phase = self.phases.remove(k);
                        add_account_tokens(&mut phase.account_sale_tokens, account, sale_tokens);
                        phase.total_sale_tokens = phase.total_sale_tokens.saturating_add(
                            sale_tokens,
                        );
                        self.phases.insert(k, phase);
                        assert(self@.phases =~= before.update(
                            k as int,
                            credited(before[k as int], *account, sale_tokens),
                        ));
                    },
                    None => {
                        proof {
                            lemma_credit_phase(before, id, *account, sale_tokens, None);
                        }
                    },
                }
                i = i + 1;
            }
            assert(phase_weights@.subrange(0, i as int) =~= phase_weights@);
        }
    }

    /// Returns the sale tokens that `account` bought in phase `phase_id` (zero when none).
    pub fn get_account_sale_tokens_for_phase(&self, account: &IntentsAccount, phase_id: u16) -> (r:
        u128)
        ensures
            r == account_tokens_in_phase(self@.phases, *account, phase_id),
    {
        match find_phase_index(&self.phases, phase_id) {
            Some(k) => {
                proof {
                    lemma_phase_state_at_first(self@.phases, phase_id, k as int);
                }
                match find_entry(&self.phases[k].account_sale_tokens, account) {
                    Some(e) => self.phases[k].account_sale_tokens[e].1,
                    None => 0,
                }
            },
            None => {
                proof {
                    lemma_no_phase_state(self@.phases, phase_id);
                }
                0
            },
        }
    }

    /// Returns whether phase `linked_id` passes its unsold limit on to phase `phase_id`.
    pub fn is_phases_linked(&self, phase_id: u16, linked_id: u16) -> (r: bool)
        ensures
            r == linked(self@.linked_phases, phase_id, linked_id),
    {
        let mut i: usize = 0;
        let ghost links = self@.linked_phases;
        assert(links.subrange(0, links.len() as int) =~= links);
        while i < self.linked_phases.len()
            invariant
                i <= self.linked_phases.len(),
                links == self@.linked_phases,
                linked_of(links, phase_id) == linked_of(
                    links.subrange(i as int, links.len() as int),
                    phase_id,
                ),
            decreases self.linked_phases.len() - i,
        {
            proof {
                lemma_linked_of_split(links, phase_id, i as int);
            }
            assert(links[i as int] == (self.linked_phases@[i as int].0,
                self.linked_phases@[i as int].1@));
            if self.linked_phases[i].0 == phase_id {
                let list = &self.linked_phases[i].1;
                assert(linked_of(links, phase_id) == Some(list@));
                let mut j: usize = 0;
                while j < list.len()
                    invariant
                        j <= list.len(),
                        linked_of(self@.linked_phases, phase_id) == Some(list@),
                        forall|m: int| 0 <= m < j ==> list@[m] != linked_id,
                    decreases list.len() - j,
                {
                    if list[j] == linked_id {
                        assert(list@[j as int] == linked_id);
                        return true;
                    }
                    j = j + 1;
                }
                return false;
            }
            i = i + 1;
        }
        false
    }

    /// Returns the sale tokens already sold in the limited phases that share their limits
    /// with phase `phase_id`: the phase itself and the phases that feed it, whatever their ids.
    pub fn get_total_sale_tokens_for_phases_with_limits(&self, phase_id: u16) -> (r: u128)
        ensures
            r == group_sold(self@.phases, self@.linked_phases, phase_id),
    {
        let mut total: u128 = 0;
        let mut i: usize = 0;
        while i < self.phases.len()
            invariant
                i <= self.phases.len(),
                total == group_sold(
                    self@.phases.subrange(0, i as int),
                    self@.linked_phases,
                    phase_id,
                ),
            decreases self.phases.len() - i,
        {
            proof {
                let prefix = self@.phases.subrange(0, i + 1);
                assert(prefix.drop_last() =~= self@.phases.subrange(0, i as int));
            }
            let phase = &self.phases[i];
            if phase.limit_per_phase.is_some() && (phase.id == phase_id || self.is_phases_linked(
                phase_id,
                phase.id,
            )) {
                total = total.saturating_add(phase.total_sale_tokens);
            }
            i = i + 1;
        }
        assert(self@.phases.subrange(0, i as int) =~= self@.phases);
        total
    }

    /// Returns how far `sale_tokens` goes beyond the limit that phase `phase_id` shares with
    /// the phases that feed it; zero when the phase has no limit.
    pub fn check_sale_phases_limit_exceeded(&self, sale_tokens: u128, phase_id: u16) -> (r: u128)
        ensures
            r == phases_limit_excess(self@.phases, self@.linked_phases, sale_tokens, phase_id),
    {
        match find_phase_index(&self.phases, phase_id) {
            Some(k) => {
                proof {
                    lemma_phase_state_at_first(self@.phases, phase_id, k as int);
                }
                if self.phases[k].limit_per_phase.is_none() {
                    return 0;
                }
            },
            None => {
                proof {
                    lemma_no_phase_state(self@.phases, phase_id);
                }
                return 0;
            },
        }
        let mut total_limits: u128 = 0;
        let mut i: usize = 0;
        while i < self.phases.len()
            invariant
                i <= self.phases.len(),
                total_limits == group_limits(
                    self@.phases.subrange(0, i as int),
                    self@.linked_phases,
                    phase_id,
                ),
            decreases self.phases.len() - i,
        {
            proof {
                let prefix = self@.phases.subrange(0, i + 1);
                assert(prefix.drop_last() =~= self@.phases.subrange(0, i as int));
            }
            let phase = &self.phases[i];
            if phase.id == phase_id || self.is_phases_linked(phase_id, phase.id) {
                let limit = match phase.limit_per_phase {
                    Some(l) => l,
                    None => 0,
                };
                total_limits = total_limits.saturating_add(limit);
            }
            i = i + 1;
        }
        assert(self@.phases.subrange(0, i as int) =~= self@.phases);
        sale_tokens.saturating_sub(total_limits)
    }
}

/// Without a state of id `id`, `phase_state` finds none.
pub proof fn lemma_no_phase_state(views: Seq<PhaseView>, id: u16)
    requires
        forall|j: int| 0 <= j < views.len() ==> views[j].id != id,
    ensures
        phase_state(views, id) is None,
    decreases views.len(),
{
    if views.len() > 0 {
        assert(forall|j: int| 0 <= j < views.drop_first().len() ==> views.drop_first()[j]
            == views[j + 1]);
        lemma_no_phase_state(views.drop_first(), id);
    }
}

proof fn lemma_linked_of_split(links: Seq<(u16, Seq<u16>)>, id: u16, i: int)
    requires
        0 <= i < links.len(),
    ensures
        linked_of(links.subrange(i, links.len() as int), id) == if links[i].0 == id {
            Some(links[i].1)
        } else {
            linked_of(links.subrange(i + 1, links.len() as int), id)
        },
{
    assert(links.subrange(i, links.len() as int).drop_first() =~= links.subrange(
        i + 1,
        links.len() as int,
    ));
}

} // verus!
