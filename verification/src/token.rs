use vstd::prelude::*;

use crate::account::Address;
use crate::allowances::AllowanceTable;
use crate::balances::BalanceTable;

verus! {

/// A record emitted to external observers on every successful mutating
/// operation. Records are append-only and fire-and-forget: the ledger never
/// reads them back.
#[derive(Clone, Copy, PartialEq, Eq, Structural, Debug)]
pub enum Event {
    /// Value moved from `from` to `to`.
    Transfer { from: Address, to: Address, value: u128 },
    /// `owner` set the allowance of `spender` to `value` (absolute).
    Approval { owner: Address, spender: Address, value: u128 },
}

/// The fungible-token ledger: total supply, balance table, allowance table,
/// and the queue of emitted records.
pub struct Erc20 {
    total_supply: u128,
    balances: BalanceTable,
    allowances: AllowanceTable,
    events: Vec<Event>,
}

/// Every balance of `post` equals the one of `pre`.
pub open spec fn balances_unchanged(pre: Erc20, post: Erc20) -> bool {
    forall|a: Address| #[trigger] post.spec_balance_of(a) == pre.spec_balance_of(a)
}

/// Every allowance of `post` equals the one of `pre`.
pub open spec fn allowances_unchanged(pre: Erc20, post: Erc20) -> bool {
    forall|o: Address, p: Address| #[trigger] post.spec_allowance(o, p) == pre.spec_allowance(o, p)
}

/// The balances of `post` are those of `pre` after `value` moved from `from`
/// to `to`: `from` is debited, `to` is credited, everyone else is untouched.
/// A self-transfer leaves every balance unchanged.
pub open spec fn moved_value(
    pre: Erc20,
    post: Erc20,
    from: Address,
    to: Address,
    value: u128,
) -> bool {
    if from == to {
        balances_unchanged(pre, post)
    } else {
        &&& post.spec_balance_of(from) == pre.spec_balance_of(from) - value
        &&& post.spec_balance_of(to) == pre.spec_balance_of(to) + value
        &&& forall|a: Address|
            a != from && a != to ==> #[trigger] post.spec_balance_of(a) == pre.spec_balance_of(a)
    }
}

impl Erc20 {
    /// The quantity issued at construction; constant for the lifetime of the
    /// ledger (no mint or burn operation exists).
    pub closed spec fn spec_total_supply(self) -> u128 {
        self.total_supply
    }

    /// The balance of account `a`; zero for accounts never seen.
    pub closed spec fn spec_balance_of(self, a: Address) -> u128 {
        self.balances.spec_get(a)
    }

    /// The allowance granted by `owner` to `spender`; zero for pairs never
    /// seen.
    pub closed spec fn spec_allowance(self, owner: Address, spender: Address) -> u128 {
        self.allowances.spec_get(owner, spender)
    }

    /// The sum of the balances of all accounts.
    pub closed spec fn sum_of_balances(self) -> int {
        self.balances.sum()
    }

    /// The records emitted so far, oldest first.
    pub closed spec fn spec_events(self) -> Seq<Event> {
        self.events@
    }

    /// Well-formedness: both tables keep unique keys, and the balances sum
    /// to the total supply — the conservation invariant. Every operation
    /// requires and preserves it.
    pub closed spec fn wf(self) -> bool {
        &&& self.balances.wf()
        &&& self.allowances.wf()
        &&& self.balances.sum() == self.total_supply as int
    }

    /// Conservation: in a well-formed ledger the sum over all accounts of
    /// their balances equals the total supply, at every observation point.
    pub proof fn lemma_conservation(self)
        requires
            self.wf(),
        ensures
            self.sum_of_balances() == self.spec_total_supply() as int,
    {
    }

    /// No balance is negative, and none exceeds the total supply: a single
    /// account can never hold more than was ever issued.
    pub proof fn lemma_balance_bounded(self, a: Address)
        requires
            self.wf(),
        ensures
            0 <= self.spec_balance_of(a) <= self.spec_total_supply(),
    {
        self.balances.lemma_get_le_sum(a);
    }

    /// Constructs the ledger: sets the total supply to `initial_supply`,
    /// credits the constructing caller with the full amount, and leaves every
    /// other balance and every allowance at zero. A ledger has exactly one
    /// construction event in its lifetime.
    pub fn new(caller: Address, initial_supply: u128) -> (token: Erc20)
        ensures
            token.wf(),
            token.spec_total_supply() == initial_supply,
            token.spec_balance_of(caller) == initial_supply,
            forall|a: Address| a != caller ==> token.spec_balance_of(a) == 0,
            forall|o: Address, p: Address| token.spec_allowance(o, p) == 0,
            token.spec_events() == Seq::<Event>::empty(),
    {
        let mut balances = BalanceTable::new();
        balances.set(caller, initial_supply);
        let token = Erc20 {
            total_supply: initial_supply,
            balances,
            allowances: AllowanceTable::new(),
            events: Vec::new(),
        };
        proof {
            assert(token.spec_events() =~= Seq::<Event>::empty());
        }
        token
    }

    /// Reads the balance of `owner`. Total: never fails, no side effect;
    /// unknown accounts hold zero.
    pub fn balance_of(&self, owner: Address) -> (r: u128)
        ensures
            r == self.spec_balance_of(owner),
    {
        self.balances.get(owner)
    }

    /// Reads the allowance granted by `owner` to `spender`. Total: never
    /// fails, no side effect; unknown pairs hold zero.
    pub fn allowance(&self, owner: Address, spender: Address) -> (r: u128)
        ensures
            r == self.spec_allowance(owner, spender),
    {
        self.allowances.get(owner, spender)
    }

    /// The total supply issued at construction.
    pub fn total_supply(&self) -> (r: u128)
        ensures
            r == self.spec_total_supply(),
    {
        self.total_supply
    }

    /// The records emitted so far, oldest first.
    pub fn events(&self) -> (r: &Vec<Event>)
        ensures
            r@ == self.spec_events(),
    {
        &self.events
    }

    /// The transfer engine. Moves `value` from `from` to `to` when `from`
    /// holds at least `value`; otherwise reports failure and mutates nothing.
    /// The failure is a reported business outcome, not a fault. A transfer of
    /// zero succeeds unconditionally, and a self-transfer leaves the balance
    /// unchanged; both still emit a record. The credit can never overflow:
    /// conservation bounds every balance by the total supply.
    fn inner_transfer(&mut self, from: Address, to: Address, value: u128) -> (ok: bool)
        requires
            old(self).wf(),
        ensures
            final(self).wf(),
            final(self).spec_total_supply() == old(self).spec_total_supply(),
            ok == (value <= old(self).spec_balance_of(from)),
            allowances_unchanged(*old(self), *final(self)),
            ok ==> moved_value(*old(self), *final(self), from, to, value),
            !ok ==> balances_unchanged(*old(self), *final(self)),
            ok ==> final(self).spec_events() == old(self).spec_events().push(
                (Event::Transfer { from, to, value }),
            ),
            !ok ==> final(self).spec_events() == old(self).spec_events(),
    {
        let from_balance: u128 = self.balances.get(from);
        if from_balance < value {
            return false;
        }
        self.balances.set(from, from_balance - value);
        let to_balance: u128 = self.balances.get(to);
        proof {
            self.balances.lemma_get_le_sum(to);
        }
        self.balances.set(to, to_balance + value);
        self.events.push(Event::Transfer { from, to, value });
        true
    }

    /// Moves `value` from the caller to `to`. Returns false — and changes
    /// nothing — exactly when the caller's balance is below `value`; emits a
    /// transfer record on success.
    pub fn transfer(&mut self, caller: Address, to: Address, value: u128) -> (ok: bool)
        requires
            old(self).wf(),
        ensures
            final(self).wf(),
            final(self).spec_total_supply() == old(self).spec_total_supply(),
            ok == (value <= old(self).spec_balance_of(caller)),
            allowances_unchanged(*old(self), *final(self)),
            ok ==> moved_value(*old(self), *final(self), caller, to, value),
            !ok ==> balances_unchanged(*old(self), *final(self)),
            ok ==> final(self).spec_events() == old(self).spec_events().push(
                (Event::Transfer { from: caller, to, value }),
            ),
            !ok ==> final(self).spec_events() == old(self).spec_events(),
    {
        self.inner_transfer(caller, to, value)
    }

    /// Moves `value` from `from` to `to` on the strength of the allowance
    /// `from` granted to the caller. Two independent gates are checked in
    /// order: the allowance, then the balance. When the allowance gate
    /// passes, the allowance is decremented by exactly `value` at once —
    /// even if the balance gate then fails, the consumed allowance is not
    /// restored. This is the documented intended behavior, not a bug.
    pub fn transfer_from(
        &mut self,
        caller: Address,
        from: Address,
        to: Address,
        value: u128,
    ) -> (ok: bool)
        requires
            old(self).wf(),
        ensures
            final(self).wf(),
            final(self).spec_total_supply() == old(self).spec_total_supply(),
            ok == (value <= old(self).spec_allowance(from, caller) && value <= old(
                self,
            ).spec_balance_of(from)),
            value <= old(self).spec_allowance(from, caller) ==> final(self).spec_allowance(
                from,
                caller,
            ) == old(self).spec_allowance(from, caller) - value,
            value <= old(self).spec_allowance(from, caller) ==> forall|o: Address, p: Address|
                !(o == from && p == caller) ==> #[trigger] final(self).spec_allowance(o, p) == old(
                    self,
                ).spec_allowance(o, p),
            value > old(self).spec_allowance(from, caller) ==> allowances_unchanged(
                *old(self),
                *final(self),
            ),
            ok ==> moved_value(*old(self), *final(self), from, to, value),
            !ok ==> balances_unchanged(*old(self), *final(self)),
            ok ==> final(self).spec_events() == old(self).spec_events().push(
                (Event::Transfer { from, to, value }),
            ),
            !ok ==> final(self).spec_events() == old(self).spec_events(),
    {
        let current: u128 = self.allowances.get(from, caller);
        if current < value {
            return false;
        }
        self.allowances.set(from, caller, current - value);
        self.inner_transfer(from, to, value)
    }

    /// Sets the allowance of `(caller, spender)` to `value` — an absolute
    /// overwrite, never an increment: re-approving replaces what was there.
    /// Always succeeds and emits an approval record.
    pub fn approve(&mut self, caller: Address, spender: Address, value: u128) -> (ok: bool)
        requires
            old(self).wf(),
        ensures
            final(self).wf(),
            ok,
            final(self).spec_total_supply() == old(self).spec_total_supply(),
            final(self).spec_allowance(caller, spender) == value,
            forall|o: Address, p: Address|
                !(o == caller && p == spender) ==> #[trigger] final(self).spec_allowance(o, p)
                    == old(self).spec_allowance(o, p),
            balances_unchanged(*old(self), *final(self)),
            final(self).spec_events() == old(self).spec_events().push(
                (Event::Approval { owner: caller, spender, value }),
            ),
    {
        self.allowances.set(caller, spender, value);
        self.events.push(Event::Approval { owner: caller, spender, value });
        true
    }
}

} // verus!
