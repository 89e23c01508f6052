//! The multi-currency ledger interface the adapter settles against, and an
//! in-memory implementation of it. The interface is a narrow capability:
//! an implementation names its balance table and its acceptance rules as
//! spec functions, and the deposit and withdraw primitives are held to them
//! exactly — on success exactly one balance moves by the requested amount,
//! on failure no balance moves at all.

use vstd::prelude::*;

verus! {

/// Error from a ledger primitive. The adapter collapses it to its own
/// generic error kind; the variants exist so an implementation can say why
/// it rejected a mutation.
#[derive(Clone, Copy, Debug, PartialEq, Eq, Structural)]
pub enum LedgerError {
    /// Crediting would take the stored balance past its representable
    /// range.
    Overflow,
    /// Debiting asked for more than the stored balance.
    InsufficientBalance,
}

/// A ledger of per-account, per-currency balances.
pub trait MultiCurrency<CurrencyId, AccountId>: Sized {
    /// The balance the ledger holds for `account` in `currency`.
    spec fn balance_of(&self, currency: CurrencyId, account: AccountId) -> nat;

    /// Whether the ledger would accept a deposit of `amount` for this key.
    spec fn deposit_accepts(&self, currency: CurrencyId, account: AccountId, amount: u64) -> bool;

    /// Whether the ledger would accept a withdrawal of `amount` for this
    /// key.
    spec fn withdraw_accepts(&self, currency: CurrencyId, account: AccountId, amount: u64) -> bool;

    /// Credits `account` by `amount` in `currency`. Succeeds exactly when
    /// the ledger accepts the deposit; on success that one balance grows by
    /// `amount` and every other balance is untouched; on failure every
    /// balance is untouched.
    fn deposit(&mut self, currency: CurrencyId, who: &AccountId, amount: u64) -> (r: Result<
        (),
        LedgerError,
    >)
        ensures
            r is Ok <==> old(self).deposit_accepts(currency, *who, amount),
            r is Ok ==> forall|c: CurrencyId, a: AccountId|
                #![trigger final(self).balance_of(c, a)]
                final(self).balance_of(c, a) == if c == currency && a == *who {
                    old(self).balance_of(c, a) + amount
                } else {
                    old(self).balance_of(c, a) as int
                },
            r is Err ==> forall|c: CurrencyId, a: AccountId|
                #![trigger final(self).balance_of(c, a)]
                final(self).balance_of(c, a) == old(self).balance_of(c, a),
    ;

    /// Debits `account` by `amount` in `currency`. Succeeds exactly when
    /// the ledger accepts the withdrawal; on success that one balance
    /// shrinks by `amount` and every other balance is untouched; on failure
    /// every balance is untouched.
    fn withdraw(&mut self, currency: CurrencyId, who: &AccountId, amount: u64) -> (r: Result<
        (),
        LedgerError,
    >)
        ensures
            r is Ok <==> old(self).withdraw_accepts(currency, *who, amount),
            r is Ok ==> forall|c: CurrencyId, a: AccountId|
                #![trigger final(self).balance_of(c, a)]
                if c == currency && a == *who {
                    final(self).balance_of(c, a) + amount == old(self).balance_of(c, a)
                } else {
                    final(self).balance_of(c, a) == old(self).balance_of(c, a)
                },
            r is Err ==> forall|c: CurrencyId, a: AccountId|
                #![trigger final(self).balance_of(c, a)]
                final(self).balance_of(c, a) == old(self).balance_of(c, a),
    ;
}

/// `after` is `before` with the balance for (`currency`, `who`) grown by
/// `amount` and every other balance untouched.
pub open spec fn credited<CurrencyId, AccountId, L: MultiCurrency<CurrencyId, AccountId>>(
    before: L,
    after: L,
    currency: CurrencyId,
    who: AccountId,
    amount: u64,
) -> bool {
    forall|c: CurrencyId, a: AccountId|
        #![trigger after.balance_of(c, a)]
        after.balance_of(c, a) == if c == currency && a == who {
            before.balance_of(c, a) + amount
        } else {
            before.balance_of(c, a) as int
        }
}

/// `after` is `before` with the balance for (`currency`, `who`) shrunk by
/// `amount` and every other balance untouched.
pub open spec fn debited<CurrencyId, AccountId, L: MultiCurrency<CurrencyId, AccountId>>(
    before: L,
    after: L,
    currency: CurrencyId,
    who: AccountId,
    amount: u64,
) -> bool {
    forall|c: CurrencyId, a: AccountId|
        #![trigger after.balance_of(c, a)]
        if c == currency && a == who {
            after.balance_of(c, a) + amount == before.balance_of(c, a)
        } else {
            after.balance_of(c, a) == before.balance_of(c, a)
        }
}

/// No balance differs between `before` and `after`.
pub open spec fn balances_unchanged<CurrencyId, AccountId, L: MultiCurrency<
    CurrencyId,
    AccountId,
>>(before: L, after: L) -> bool {
    forall|c: CurrencyId, a: AccountId|
        #![trigger after.balance_of(c, a)]
        after.balance_of(c, a) == before.balance_of(c, a)
}

/// A credit followed by a debit of the same currency, account and amount
/// leaves every balance as it was. By the adapter's contracts this is the
/// round trip of a deposit followed by a withdrawal of an identical asset
/// and location, when both succeed: the resolution pipeline is a pure
/// function of the pair, so both operations settle the same currency,
/// account and amount.
pub proof fn lemma_deposit_withdraw_round_trip<CurrencyId, AccountId, L: MultiCurrency<
    CurrencyId,
    AccountId,
>>(before: L, mid: L, after: L, currency: CurrencyId, who: AccountId, amount: u64)
    requires
        credited(before, mid, currency, who, amount),
        debited(mid, after, currency, who, amount),
    ensures
        balances_unchanged(before, after),
{
    assert forall|c: CurrencyId, a: AccountId| #![trigger after.balance_of(c, a)]
        after.balance_of(c, a) == before.balance_of(c, a) by {
        assert(mid.balance_of(c, a) >= 0);
    }
}

/// One row of the in-memory ledger: a balance keyed by currency and
/// account.
#[derive(Clone, Copy, Debug, PartialEq, Eq, Structural)]
pub struct LedgerEntry {
    pub currency: u64,
    pub account: u64,
    pub balance: u64,
}

/// Whether `e` is keyed by (`currency`, `account`).
pub open spec fn entry_matches(e: LedgerEntry, currency: u64, account: u64) -> bool {
    e.currency == currency && e.account == account
}

/// What `e` contributes to the balance for (`currency`, `account`).
pub open spec fn entry_contribution(e: LedgerEntry, currency: u64, account: u64) -> nat {
    if entry_matches(e, currency, account) {
        e.balance as nat
    } else {
        0
    }
}

/// The balance a row sequence holds for (`currency`, `account`): the sum of
/// the contributions of its rows.
pub open spec fn total_for(entries: Seq<LedgerEntry>, currency: u64, account: u64) -> nat
    decreases entries.len(),
{
    if entries.len() == 0 {
        0
    } else {
        total_for(entries.drop_last(), currency, account) + entry_contribution(
            entries.last(),
            currency,
            account,
        )
    }
}

proof fn lemma_total_push(s: Seq<LedgerEntry>, e: LedgerEntry, currency: u64, account: u64)
    ensures
        total_for(s.push(e), currency, account) == total_for(s, currency, account)
            + entry_contribution(e, currency, account),
{
    let t = s.push(e);
    assert(t.drop_last() =~= s);
    assert(t.last() == e);
}

proof fn lemma_total_update(
    s: Seq<LedgerEntry>,
    i: int,
    e: LedgerEntry,
    currency: u64,
    account: u64,
)
    requires
        0 <= i < s.len(),
    ensures
        total_for(s.update(i, e), currency, account) + entry_contribution(s[i], currency, account)
            == total_for(s, currency, account) + entry_contribution(e, currency, account),
    decreases s.len(),
{
    let t = s.update(i, e);
    if i == s.len() - 1 {
        assert(t.drop_last() =~= s.drop_last());
        assert(t.last() == e);
    } else {
        assert(t.drop_last() =~= s.drop_last().update(i, e));
        assert(t.last() == s.last());
        lemma_total_update(s.drop_last(), i, e, currency, account);
        assert(s.drop_last()[i] == s[i]);
    }
}

proof fn lemma_total_no_match(s: Seq<LedgerEntry>, currency: u64, account: u64)
    requires
        forall|j: int| 0 <= j < s.len() ==> !entry_matches(#[trigger] s[j], currency, account),
    ensures
        total_for(s, currency, account) == 0,
    decreases s.len(),
{
    if s.len() > 0 {
        assert forall|j: int| 0 <= j < s.drop_last().len() implies !entry_matches(
            #[trigger] s.drop_last()[j],
            currency,
            account,
        ) by {
            assert(s.drop_last()[j] == s[j]);
        }
        lemma_total_no_match(s.drop_last(), currency, account);
    }
}

proof fn lemma_total_single_match(s: Seq<LedgerEntry>, i: int, currency: u64, account: u64)
    requires
        0 <= i < s.len(),
        entry_matches(s[i], currency, account),
        forall|j: int|
            0 <= j < s.len() && j != i ==> !entry_matches(#[trigger] s[j], currency, account),
    ensures
        total_for(s, currency, account) == s[i].balance,
    decreases s.len(),
{
    if i == s.len() - 1 {
        assert forall|j: int| 0 <= j < s.drop_last().len() implies !entry_matches(
            #[trigger] s.drop_last()[j],
            currency,
            account,
        ) by {
            assert(s.drop_last()[j] == s[j]);
        }
        lemma_total_no_match(s.drop_last(), currency, account);
    } else {
        assert forall|j: int|
            0 <= j < s.drop_last().len() && j != i implies !entry_matches(
            #[trigger] s.drop_last()[j],
            currency,
            account,
        ) by {
            assert(s.drop_last()[j] == s[j]);
        }
        assert(s.drop_last()[i] == s[i]);
        lemma_total_single_match(s.drop_last(), i, currency, account);
        assert(!entry_matches(s.last(), currency, account));
    }
}

/// An in-memory ledger: one balance row per (currency, account) key.
pub struct InMemoryLedger {
    entries: Vec<LedgerEntry>,
}

impl InMemoryLedger {
    /// No two rows share a key, so the balance for a key is the balance of
    /// its row, if any.
    #[verifier::type_invariant]
    spec fn distinct_keys(&self) -> bool {
        forall|p: int, q: int|
            #![trigger self.entries@[p], self.entries@[q]]
            0 <= p < q < self.entries@.len() ==> !entry_matches(
                self.entries@[q],
                self.entries@[p].currency,
                self.entries@[p].account,
            )
    }

    /// An empty ledger: every balance is zero.
    pub fn new() -> (r: InMemoryLedger)
        ensures
            forall|c: u64, a: u64| #[trigger] r.balance_of(c, a) == 0,
    {
        InMemoryLedger { entries: Vec::new() }
    }

    /// The index of the row for (`currency`, `account`), if any.
    fn find_entry(&self, currency: u64, account: u64) -> (r: Option<usize>)
        ensures
            match r {
                Option::Some(i) => i < self.entries@.len() && entry_matches(
                    self.entries@[i as int],
                    currency,
                    account,
                ) && forall|j: int|
                    0 <= j < i ==> !entry_matches(#[trigger] self.entries@[j], currency, account),
                Option::None => forall|j: int|
                    0 <= j < self.entries@.len() ==> !entry_matches(
                        #[trigger] self.entries@[j],
                        currency,
                        account,
                    ),
            },
    {
        let mut i: usize = 0;
        while i < self.entries.len()
            invariant
                i <= self.entries@.len(),
                forall|j: int|
                    0 <= j < i ==> !entry_matches(#[trigger] self.entries@[j], currency, account),
            decreases self.entries@.len() - i,
        {
            let e = self.entries[i];
            if e.currency == currency && e.account == account {
                return Option::Some(i);
            }
            i = i + 1;
        }
        Option::None
    }

    /// Every row but the one at `i` misses the key that the row at `i`
    /// carries.
    proof fn lemma_only_match(&self, i: int, currency: u64, account: u64)
        requires
            self.distinct_keys(),
            0 <= i < self.entries@.len(),
            entry_matches(self.entries@[i], currency, account),
        ensures
            forall|j: int|
                0 <= j < self.entries@.len() && j != i ==> !entry_matches(
                    #[trigger] self.entries@[j],
                    currency,
                    account,
                ),
            total_for(self.entries@, currency, account) == self.entries@[i].balance,
    {
        assert forall|j: int|
            0 <= j < self.entries@.len() && j != i implies !entry_matches(
            #[trigger] self.entries@[j],
            currency,
            account,
        ) by {
            if j < i {
                assert(!entry_matches(
                    self.entries@[i],
                    self.entries@[j].currency,
                    self.entries@[j].account,
                ));
            }
        }
        lemma_total_single_match(self.entries@, i, currency, account);
    }

    /// The balance held for (`currency`, `account`).
    pub fn balance(&self, currency: u64, account: u64) -> (r: u64)
        ensures
            r == self.balance_of(currency, account),
    {
        proof {
            use_type_invariant(&*self);
        }
        match self.find_entry(currency, account) {
            Option::Some(i) => {
                proof {
                    self.lemma_only_match(i as int, currency, account);
                }
                self.entries[i].balance
            },
            Option::None => {
                proof {
                    lemma_total_no_match(self.entries@, currency, account);
                }
                0
            },
        }
    }
}

/// A deposit is accepted exactly when the grown balance still fits the
/// 64-bit balance type; a withdrawal exactly when the held balance covers
/// the amount.
pub proof fn lemma_in_memory_ledger_accepts(
    l: InMemoryLedger,
    currency: u64,
    account: u64,
    amount: u64,
)
    ensures
        l.deposit_accepts(currency, account, amount) <==> l.balance_of(currency, account) + amount
            <= u64::MAX,
        l.withdraw_accepts(currency, account, amount) <==> amount <= l.balance_of(
            currency,
            account,
        ),
{
}

impl MultiCurrency<u64, u64> for InMemoryLedger {
    /// The sum of the balances of the rows keyed by (`currency`,
    /// `account`) — by the key-uniqueness invariant, the balance of the one
    /// such row, or zero.
    closed spec fn balance_of(&self, currency: u64, account: u64) -> nat {
        total_for(self.entries@, currency, account)
    }

    /// A deposit is accepted when the grown balance still fits the 64-bit
    /// balance type.
    closed spec fn deposit_accepts(&self, currency: u64, account: u64, amount: u64) -> bool {
        total_for(self.entries@, currency, account) + amount <= u64::MAX
    }

    /// A withdrawal is accepted when the held balance covers it.
    closed spec fn withdraw_accepts(&self, currency: u64, account: u64, amount: u64) -> bool {
        amount <= total_for(self.entries@, currency, account)
    }

    fn deposit(&mut self, currency: u64, who: &u64, amount: u64) -> (r: Result<(), LedgerError>) {
        let account = *who;
        proof {
            use_type_invariant(&*self);
        }
        match self.find_entry(currency, account) {
            Option::Some(i) => {
                let bal = self.entries[i].balance;
                proof {
                    self.lemma_only_match(i as int, currency, account);
                }
                if amount <= u64::MAX - bal {
                    let updated = LedgerEntry { currency, account, balance: bal + amount };
                    let ghost s_old = self.entries@;
                    let mut entries: Vec<LedgerEntry> = Vec::new();
                    core::mem::swap(&mut entries, &mut self.entries);
                    entries[i] = updated;
                    proof {
                        assert forall|p: int, q: int|
                            #![trigger entries@[p], entries@[q]]
                            0 <= p < q < entries@.len() implies !entry_matches(
                            entries@[q],
                            entries@[p].currency,
                            entries@[p].account,
                        ) by {
                            assert(!entry_matches(s_old[q], s_old[p].currency, s_old[p].account));
                        }
                    }
                    self.entries = entries;
                    proof {
                        assert forall|c: u64, a: u64|
                            #![trigger total_for(self.entries@, c, a)]
                            total_for(self.entries@, c, a) == if c == currency && a == account {
                                total_for(s_old, c, a) + amount
                            } else {
                                total_for(s_old, c, a) as int
                            } by {
                            lemma_total_update(s_old, i as int, updated, c, a);
                        }
                    }
                    Result::Ok(())
                } else {
                    Result::Err(LedgerError::Overflow)
                }
            },
            Option::None => {
                proof {
                    lemma_total_no_match(self.entries@, currency, account);
                }
                let fresh = LedgerEntry { currency, account, balance: amount };
                let ghost s_old = self.entries@;
                let mut entries: Vec<LedgerEntry> = Vec::new();
                core::mem::swap(&mut entries, &mut self.entries);
                entries.push(fresh);
                proof {
                    assert forall|p: int, q: int|
                        #![trigger entries@[p], entries@[q]]
                        0 <= p < q < entries@.len() implies !entry_matches(
                        entries@[q],
                        entries@[p].currency,
                        entries@[p].account,
                    ) by {
                        if q < s_old.len() {
                            assert(!entry_matches(s_old[q], s_old[p].currency, s_old[p].account));
                        } else {
                            assert(!entry_matches(s_old[p], currency, account));
                        }
                    }
                }
                self.entries = entries;
                proof {
                    assert forall|c: u64, a: u64|
                        #![trigger total_for(self.entries@, c, a)]
                        total_for(self.entries@, c, a) == if c == currency && a == account {
                            total_for(s_old, c, a) + amount
                        } else {
                            total_for(s_old, c, a) as int
                        } by {
                        lemma_total_push(s_old, fresh, c, a);
                    }
                }
                Result::Ok(())
            },
        }
    }

    fn withdraw(&mut self, currency: u64, who: &u64, amount: u64) -> (r: Result<(), LedgerError>) {
        let account = *who;
        proof {
            use_type_invariant(&*self);
        }
        match self.find_entry(currency, account) {
            Option::Some(i) => {
                let bal = self.entries[i].balance;
                proof {
                    self.lemma_only_match(i as int, currency, account);
                }
                if amount <= bal {
                    let updated = LedgerEntry { currency, account, balance: bal - amount };
                    let ghost s_old = self.entries@;
                    let mut entries: Vec<LedgerEntry> = Vec::new();
                    core::mem::swap(&mut entries, &mut self.entries);
                    entries[i] = updated;
                    proof {
                        assert forall|p: int, q: int|
                            #![trigger entries@[p], entries@[q]]
                            0 <= p < q < entries@.len() implies !entry_matches(
                            entries@[q],
                            entries@[p].currency,
                            entries@[p].account,
                        ) by {
                            assert(!entry_matches(s_old[q], s_old[p].currency, s_old[p].account));
                        }
                    }
                    self.entries = entries;
                    proof {
                        assert forall|c: u64, a: u64|
                            #![trigger total_for(self.entries@, c, a)]
                            if c == currency && a == account {
                                total_for(self.entries@, c, a) + amount == total_for(s_old, c, a)
                            } else {
                                total_for(self.entries@, c, a) == total_for(s_old, c, a)
                            } by {
                            lemma_total_update(s_old, i as int, updated, c, a);
                        }
                    }
                    Result::Ok(())
                } else {
                    Result::Err(LedgerError::InsufficientBalance)
                }
            },
            Option::None => {
                proof {
                    lemma_total_no_match(self.entries@, currency, account);
                }
                if amount == 0 {
                    Result::Ok(())
                } else {
                    Result::Err(LedgerError::InsufficientBalance)
                }
            },
        }
    }
}

} // verus!
