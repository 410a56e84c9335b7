//! The sale state of the discount phases: tokens sold per phase and per account, phase limits,
//! whitelists and the phases that share their unsold limits.
use crate::discount::params::{contains_account, holds_account};
use crate::types::{DiscountPhase, IntentsAccount};
use vstd::prelude::*;

verus! {

/// The sale state of one discount phase.
pub struct DiscountStatePerPhase {
    /// ID of the phase.
    pub id: u16,
    /// The total number of sold tokens with discount in the phase.
    pub total_sale_tokens: u128,
    /// Limit of sale tokens for this phase. The limit grows by the limits of the phases that
    /// feed their unsold tokens into this one.
    pub limit_per_phase: Option<u128>,
    /// The number of sold tokens with discount per account in the phase.
    pub account_sale_tokens: Vec<(IntentsAccount, u128)>,
    /// The accounts allowed to participate in the phase; any account when absent.
    pub whitelist: Option<Vec<IntentsAccount>>,
}

/// The sale state of all discount phases.
pub struct DiscountState {
    /// The per-phase states, in the order of the phases.
    pub phases: Vec<DiscountStatePerPhase>,
    /// For each phase id, the ids of the phases whose unsold limits it receives.
    pub linked_phases: Vec<(u16, Vec<u16>)>,
}

/// The abstract state of one phase.
pub struct PhaseView {
    pub id: u16,
    pub total_sale_tokens: u128,
    pub limit_per_phase: Option<u128>,
    pub account_sale_tokens: Seq<(IntentsAccount, u128)>,
    pub whitelist: Option<Seq<IntentsAccount>>,
}

impl View for DiscountStatePerPhase {
    type V = PhaseView;

    open spec fn view(&self) -> PhaseView {
        PhaseView {
            id: self.id,
            total_sale_tokens: self.total_sale_tokens,
            limit_per_phase: self.limit_per_phase,
            account_sale_tokens: self.account_sale_tokens@,
            whitelist: match self.whitelist {
                Some(w) => Some(w@),
                None => None,
            },
        }
    }
}

/// The abstract state of all phases.
pub struct DiscountStateView {
    pub phases: Seq<PhaseView>,
    pub linked_phases: Seq<(u16, Seq<u16>)>,
}

impl View for DiscountState {
    type V = DiscountStateView;

    open spec fn view(&self) -> DiscountStateView {
        DiscountStateView {
            phases: views_of(self.phases@),
            linked_phases: self.linked_phases@.map_values(|e: (u16, Vec<u16>)| (e.0, e.1@)),
        }
    }
}

/// The abstract states of a sequence of phase states.
pub open spec fn views_of(phases: Seq<DiscountStatePerPhase>) -> Seq<PhaseView> {
    phases.map_values(|p: DiscountStatePerPhase| p@)
}

/// The state of a phase before anything is sold in it.
pub open spec fn fresh_view(phase: DiscountPhase) -> PhaseView {
    PhaseView {
        id: phase.id,
        total_sale_tokens: 0,
        limit_per_phase: phase.phase_sale_limit,
        account_sale_tokens: Seq::empty(),
        whitelist: match phase.whitelist {
            Some(list) => Some(without_repeats(list@)),
            None => None,
        },
    }
}

/// `accounts` with each account kept at its first position only.
pub open spec fn without_repeats(accounts: Seq<IntentsAccount>) -> Seq<IntentsAccount>
    decreases accounts.len(),
{
    if accounts.len() == 0 {
        Seq::empty()
    } else {
        let rest = without_repeats(accounts.drop_last());
        if holds_account(rest, accounts.last()) {
            rest
        } else {
            rest.push(accounts.last())
        }
    }
}

/// No account occurs twice in `accounts`.
pub open spec fn no_repeats(accounts: Seq<IntentsAccount>) -> bool {
    forall|i: int, j: int|
        #![trigger accounts[i], accounts[j]]
        0 <= i < j < accounts.len() ==> accounts[i].0@ != accounts[j].0@
}

impl PhaseView {
    /// The account may take part in the phase.
    pub open spec fn allowed(self, account: IntentsAccount) -> bool {
        match self.whitelist {
            Some(list) => holds_account(list, account),
            None => true,
        }
    }

    /// The account already bought its maximum in the phase.
    pub open spec fn limit_reached(self, account: IntentsAccount, phase: DiscountPhase) -> bool {
        match entry_of(self.account_sale_tokens, account) {
            Some(bought) => match phase.max_limit_per_account {
                Some(limit) => bought >= limit,
                None => false,
            },
            None => false,
        }
    }
}

/// The first entry recorded for `account`, if any.
pub open spec fn entry_of(entries: Seq<(IntentsAccount, u128)>, account: IntentsAccount) -> Option<
    u128,
>
    decreases entries.len(),
{
    if entries.len() == 0 {
        None
    } else if entries[0].0.0@ == account.0@ {
        Some(entries[0].1)
    } else {
        entry_of(entries.drop_first(), account)
    }
}

/// The tokens recorded for `account`, zero when there is no entry.
pub open spec fn tokens_of(entries: Seq<(IntentsAccount, u128)>, account: IntentsAccount) -> u128 {
    match entry_of(entries, account) {
        Some(v) => v,
        None => 0,
    }
}

/// `entries` with `amount` added (saturating) to the first entry of `account`, or with a new
/// entry for it.
pub open spec fn add_tokens(
    entries: Seq<(IntentsAccount, u128)>,
    account: IntentsAccount,
    amount: u128,
) -> Seq<(IntentsAccount, u128)>
    decreases entries.len(),
{
    if entries.len() == 0 {
        seq![(account, amount)]
    } else if entries[0].0.0@ == account.0@ {
        entries.update(0, (entries[0].0, entries[0].1.saturating_add(amount)))
    } else {
        seq![entries[0]] + add_tokens(entries.drop_first(), account, amount)
    }
}

/// The state of the first phase with id `id`, if any.
pub open spec fn phase_state(phases: Seq<PhaseView>, id: u16) -> Option<PhaseView>
    decreases phases.len(),
{
    if phases.len() == 0 {
        None
    } else if phases[0].id == id {
        Some(phases[0])
    } else {
        phase_state(phases.drop_first(), id)
    }
}

/// Index `i` holds the first phase state with id `id`.
pub open spec fn is_first_state(phases: Seq<PhaseView>, id: u16, i: int) -> bool {
    0 <= i < phases.len() && phases[i].id == id && forall|j: int| 0 <= j < i ==> phases[j].id != id
}

/// The first linked list recorded for phase `id`, if any.
pub open spec fn linked_of(linked: Seq<(u16, Seq<u16>)>, id: u16) -> Option<Seq<u16>>
    decreases linked.len(),
{
    if linked.len() == 0 {
        None
    } else if linked[0].0 == id {
        Some(linked[0].1)
    } else {
        linked_of(linked.drop_first(), id)
    }
}

proof fn lemma_entry_of_split(entries: Seq<(IntentsAccount, u128)>, account: IntentsAccount, i: int)
    requires
        0 <= i < entries.len(),
    ensures
        entry_of(entries.subrange(i, entries.len() as int), account) == if entries[i].0.0@
            == account.0@ {
            Some(entries[i].1)
        } else {
            entry_of(entries.subrange(i + 1, entries.len() as int), account)
        },
{
    assert(entries.subrange(i, entries.len() as int).drop_first() =~= entries.subrange(
        i + 1,
        entries.len() as int,
    ));
}

/// The entry recorded for `account`.
pub fn find_entry(entries: &Vec<(IntentsAccount, u128)>, account: &IntentsAccount) -> (r: Option<usize>)
    ensures
        match r {
            Some(i) => i < entries@.len() && entries@[i as int].0.0@ == account.0@ && entry_of(
                entries@,
                *account,
            ) == Some(entries@[i as int].1) && forall|j: int|
                0 <= j < i ==> entries@[j].0.0@ != account.0@,
            None => entry_of(entries@, *account) is None,
        },
{
    let mut i: usize = 0;
    assert(entries@.subrange(0, entries@.len() as int) =~= entries@);
    while i < entries.len()
        invariant
            i <= entries.len(),
            entry_of(entries@, *account) == entry_of(
                entries@.subrange(i as int, entries@.len() as int),
                *account,
            ),
            forall|j: int| 0 <= j < i ==> entries@[j].0.0@ != account.0@,
        decreases entries.len() - i,
    {
        proof {
            lemma_entry_of_split(entries@, *account, i as int);
        }
        if entries[i].0.0 == account.0 {
            return Some(i);
        }
        i = i + 1;
    }
    None
}

/// A phase state at the first index with its id is the one `phase_state` finds.
pub proof fn lemma_phase_state_at_first(phases: Seq<PhaseView>, id: u16, i: int)
    requires
        is_first_state(phases, id, i),
    ensures
        phase_state(phases, id) == Some(phases[i]),
    decreases i,
{
    if i > 0 {
        assert(phases[0].id != id);
        assert(is_first_state(phases.drop_first(), id, i - 1));
        lemma_phase_state_at_first(phases.drop_first(), id, i - 1);
    }
}

/// Replacing the first phase state with its id by another with that id is what `phase_state`
/// then finds, and phase states of other ids are unchanged.
pub proof fn lemma_phase_state_update(
    phases: Seq<PhaseView>,
    id: u16,
    i: int,
    x: PhaseView,
    other: u16,
)
    requires
        is_first_state(phases, id, i),
        x.id == id,
    ensures
        phase_state(phases.update(i, x), id) == Some(x),
        other != id ==> phase_state(phases.update(i, x), other) == phase_state(phases, other),
    decreases i,
{
    let u = phases.update(i, x);
    if i == 0 {
        if other != id {
            assert(u.drop_first() =~= phases.drop_first());
        }
    } else {
        assert(u.drop_first() =~= phases.drop_first().update(i - 1, x));
        lemma_phase_state_update(phases.drop_first(), id, i - 1, x, other);
    }
}

/// An account is held after a push iff it was held before or it is the pushed one.
pub proof fn lemma_holds_push(s: Seq<IntentsAccount>, x: IntentsAccount, a: IntentsAccount)
    ensures
        holds_account(s.push(x), a) <==> (holds_account(s, a) || x.0@ == a.0@),
{
    let t = s.push(x);
    if holds_account(t, a) {
        let w = choose|w: int| 0 <= w < t.len() && t[w].0@ == a.0@;
        if w < s.len() {
            assert(s[w] == t[w]);
        }
    }
    if holds_account(s, a) {
        let w = choose|w: int| 0 <= w < s.len() && s[w].0@ == a.0@;
        assert(t[w] == s[w]);
    }
    if x.0@ == a.0@ {
        assert(t[s.len() as int] == x);
    }
}

/// Pushing an account that is not held yet keeps a list free of repetitions.
pub proof fn lemma_push_keeps_no_repeats(s: Seq<IntentsAccount>, x: IntentsAccount)
    requires
        no_repeats(s),
        !holds_account(s, x),
    ensures
        no_repeats(s.push(x)),
{
    let t = s.push(x);
    assert forall|i: int, j: int| 0 <= i < j < t.len() implies #[trigger] t[i].0@ != #[trigger] t[j].0@ by {
        assert(t[i] == s[i]);
        if j < s.len() {
            assert(t[j] == s[j]);
        } else if t[i].0@ == t[j].0@ {
            assert(s[i].0@ == x.0@);
        }
    }
}

/// Dropping repetitions keeps exactly the accounts held, each once.
pub proof fn lemma_without_repeats(accounts: Seq<IntentsAccount>)
    ensures
        no_repeats(without_repeats(accounts)),
        forall|a: IntentsAccount|
            #[trigger] holds_account(without_repeats(accounts), a) <==> holds_account(accounts, a),
    decreases accounts.len(),
{
    if accounts.len() > 0 {
        let init = accounts.drop_last();
        let x = accounts.last();
        lemma_without_repeats(init);
        let rest = without_repeats(init);
        assert(accounts =~= init.push(x));
        assert forall|a: IntentsAccount|
            #[trigger] holds_account(without_repeats(accounts), a) <==> holds_account(accounts, a) by {
            lemma_holds_push(init, x, a);
            lemma_holds_push(rest, x, a);
            if holds_account(rest, x) && x.0@ == a.0@ {
                let w = choose|w: int| 0 <= w < rest.len() && rest[w].0@ == x.0@;
                assert(rest[w].0@ == a.0@);
            }
        }
        if !holds_account(rest, x) {
            lemma_push_keeps_no_repeats(rest, x);
        }
    }
}

impl DiscountStatePerPhase {
    /// Creates the initial state of a phase: nothing sold, the phase's own limit and whitelist.
    pub fn new(phase: &DiscountPhase) -> (r: Self)
        ensures
            r@ == fresh_view(*phase),
            r.id == phase.id,
            r.total_sale_tokens == 0,
            r.limit_per_phase == phase.phase_sale_limit,
            r.account_sale_tokens@.len() == 0,
            match phase.whitelist {
                Some(list) => r.whitelist matches Some(w) && w@ == without_repeats(list@)
                    && no_repeats(w@) && forall|a: IntentsAccount|
                    #[trigger] holds_account(w@, a) <==> holds_account(list@, a),
                None => r.whitelist is None,
            },
    {
        let whitelist = match &phase.whitelist {
            Some(list) => {
                let mut copy: Vec<IntentsAccount> = Vec::new();
                let mut i: usize = 0;
                while i < list.len()
                    invariant
                        i <= list.len(),
                        copy@ == without_repeats(list@.subrange(0, i as int)),
                    decreases list.len() - i,
                {
                    assert(list@.subrange(0, i + 1).drop_last() =~= list@.subrange(0, i as int));
                    assert(list@.subrange(0, i + 1).last() == list@[i as int]);
                    if !contains_account(&copy, &list[i]) {
                        copy.push(list[i].duplicate());
                    }
                    i = i + 1;
                }
                assert(list@.subrange(0, i as int) =~= list@);
                proof {
                    lemma_without_repeats(list@);
                }
                Some(copy)
            },
            None => None,
        };
        let r = DiscountStatePerPhase {
            id: phase.id,
            total_sale_tokens: 0,
            limit_per_phase: phase.phase_sale_limit,
            account_sale_tokens: Vec::new(),
            whitelist,
        };
        assert(r@.account_sale_tokens =~= Seq::<(IntentsAccount, u128)>::empty());
        r
    }

    /// Returns whether the account may take part in the phase: every account when there is
    /// no whitelist, the whitelisted ones otherwise.
    pub fn is_account_allowed(&self, account: &IntentsAccount) -> (r: bool)
        ensures
            r == self@.allowed(*account),
    {
        match &self.whitelist {
            Some(list) => contains_account(list, account),
            None => true,
        }
    }

    /// Returns whether the account already bought the maximum allowed per account in the
    /// phase.
    pub fn is_exceeded_account_limit(&self, account: &IntentsAccount, discount_phase: &DiscountPhase)
        -> (r: bool)
        ensures
            r == self@.limit_reached(*account, *discount_phase),
    {
        match find_entry(&self.account_sale_tokens, account) {
            Some(i) => match discount_phase.max_limit_per_account {
                Some(limit) => self.account_sale_tokens[i].1 >= limit,
                None => false,
            },
            None => false,
        }
    }

    /// Returns the accounts of the whitelist, if the phase has one.
    pub fn get_whitelist(&self) -> (r: Option<Vec<IntentsAccount>>)
        ensures
            match self.whitelist {
                Some(list) => r matches Some(w) && w@ == list@,
                None => r is None,
            },
    {
        match &self.whitelist {
            Some(list) => {
                let mut copy: Vec<IntentsAccount> = Vec::new();
                let mut i: usize = 0;
                while i < list.len()
                    invariant
                        i <= list.len(),
                        copy@ == list@.subrange(0, i as int),
                    decreases list.len() - i,
                {
                    copy.push(list[i].duplicate());
                    i = i + 1;
                    assert(copy@ =~= list@.subrange(0, i as int));
                }
                assert(list@.subrange(0, i as int) =~= list@);
                Some(copy)
            },
            None => None,
        }
    }

    /// Adds the accounts to the whitelist, creating it when the phase has none. Accounts
    /// already in it are not added twice.
    pub fn extend_whitelist(&mut self, accounts: Vec<IntentsAccount>)
        ensures
            final(self).id == old(self).id,
            final(self).total_sale_tokens == old(self).total_sale_tokens,
            final(self).limit_per_phase == old(self).limit_per_phase,
            final(self).account_sale_tokens == old(self).account_sale_tokens,
            final(self).whitelist is Some,
            forall|a: IntentsAccount|
                final(self)@.allowed(a) <==> (holds_account(accounts@, a) || (old(
                    self,
                ).whitelist is Some && old(self)@.allowed(a))),
            (old(self).whitelist matches Some(w) ==> no_repeats(w@)) ==> (
            final(self).whitelist matches Some(w) && no_repeats(w@)),
    {
        let mut list = match self.whitelist.take() {
            Some(list) => list,
            None => Vec::new(),
        };
        let ghost start = list@;
        assert(old(self).whitelist is None ==> start.len() == 0);
        let ghost start_unique = old(self).whitelist matches Some(w) ==> no_repeats(w@);
        let mut i: usize = 0;
        while i < accounts.len()
            invariant
                i <= accounts.len(),
                start_unique ==> no_repeats(list@),
                forall|a: IntentsAccount|
                    #![trigger holds_account(list@, a)]
                    holds_account(list@, a) <==> (holds_account(start, a) || holds_account(
                        accounts@.subrange(0, i as int),
                        a,
                    )),
            decreases accounts.len() - i,
        {
            let account = &accounts[i];
            let ghost before = list@;
            let present = contains_account(&list, account);
            if !present {
                proof {
                    if start_unique {
                        lemma_push_keeps_no_repeats(list@, *account);
                    }
                }
                list.push(account.duplicate());
            }
            proof {
                let pre = accounts@.subrange(0, i as int);
                assert(accounts@.subrange(0, i + 1) =~= pre.push(accounts@[i as int]));
                assert forall|a: IntentsAccount|
                    #![trigger holds_account(list@, a)]
                    holds_account(list@, a) <==> (holds_account(start, a) || holds_account(
                        accounts@.subrange(0, i + 1),
                        a,
                    )) by {
                    lemma_holds_push(pre, accounts@[i as int], a);
                    lemma_holds_push(before, accounts@[i as int], a);
                    assert(holds_account(before, a) <==> (holds_account(start, a) || holds_account(pre, a)));
                    if present {
                        assert(list@ == before);
                        if accounts@[i as int].0@ == a.0@ {
                            let w = choose|w: int|
                                0 <= w < before.len() && before[w].0@ == accounts@[i as int].0@;
                            assert(before[w].0@ == a.0@);
                        }
                    } else {
                        assert(list@ == before.push(accounts@[i as int]));
                    }
                }
            }
            let ghost seen = accounts@.subrange(0, i + 1);
            i = i + 1;
            assert(accounts@.subrange(0, i as int) =~= seen);
        }
        assert(accounts@.subrange(0, i as int) =~= accounts@);
        self.whitelist = Some(list);
    }

    /// Removes the accounts from the whitelist. Returns `None` when the phase has no
    /// whitelist.
    pub fn remove_from_whitelist(&mut self, accounts: Vec<IntentsAccount>) -> (r: Option<()>)
        ensures
            final(self).id == old(self).id,
            final(self).total_sale_tokens == old(self).total_sale_tokens,
            final(self).limit_per_phase == old(self).limit_per_phase,
            final(self).account_sale_tokens == old(self).account_sale_tokens,
            old(self).whitelist is None ==> r is None && final(self).whitelist is None,
            old(self).whitelist is Some ==> r is Some && final(self).whitelist is Some && forall|
                a: IntentsAccount,
            |
                #![trigger final(self)@.allowed(a)]
                final(self)@.allowed(a) <==> (old(self)@.allowed(a)
                    && !holds_account(accounts@, a)),
            old(self).whitelist matches Some(w) && no_repeats(w@) ==> (
            final(self).whitelist matches Some(v) && no_repeats(v@)),
    {
        let list = match self.whitelist.take() {
            Some(list) => list,
            None => return None,
        };
        let mut kept: Vec<IntentsAccount> = Vec::new();
        let mut i: usize = 0;
        while i < list.len()
            invariant
                i <= list.len(),
                self.whitelist is None,
                forall|a: IntentsAccount|
                    holds_account(kept@, a) <==> (holds_account(list@.subrange(0, i as int), a)
                        && !holds_account(accounts@, a)),
                no_repeats(list@) ==> no_repeats(kept@),
            decreases list.len() - i,
        {
            let account = &list[i];
            let ghost before = kept@;
            if !contains_account(&accounts, account) {
                proof {
                    if no_repeats(list@) {
                        if holds_account(kept@, *account) {
                            assert(holds_account(list@.subrange(0, i as int), *account));
                            let w = choose|w: int|
                                0 <= w < i && list@.subrange(0, i as int)[w].0@ == account.0@;
                            assert(list@[w] == list@.subrange(0, i as int)[w]);
                        }
                        lemma_push_keeps_no_repeats(kept@, *account);
                    }
                }
                kept.push(account.duplicate());
            }
            proof {
                let pre = list@.subrange(0, i as int);
                assert(list@.subrange(0, i + 1) =~= pre.push(list@[i as int]));
                assert forall|a: IntentsAccount|
                    holds_account(kept@, a) <==> (holds_account(list@.subrange(0, i + 1), a)
                        && !holds_account(accounts@, a)) by {
                    lemma_holds_push(pre, list@[i as int], a);
                    lemma_holds_push(before, list@[i as int], a);
                    if holds_account(accounts@, list@[i as int]) && list@[i as int].0@ == a.0@ {
                        let w = choose|w: int|
                            0 <= w < accounts@.len() && accounts@[w].0@ == list@[i as int].0@;
                        assert(accounts@[w].0@ == a.0@);
                    }
                }
            }
            i = i + 1;
        }
        assert(list@.subrange(0, i as int) =~= list@);
        self.whitelist = Some(kept);
        Some(())
    }
}

} // verus!
