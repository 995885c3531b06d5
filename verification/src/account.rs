//! The account ledger: an append-only record of the transfers applied to one
//! account, split into credits (incoming) and debits (outgoing).
//!
//! Invariants: every debit is by the owner and the debit counters are dense
//! from zero; every credit is to the owner from someone else; the debit total
//! never exceeds the credit total, so the balance never underflows.

use vstd::prelude::*;

use crate::crypto::public_key_eq;
use crate::types::{Dot, Error, Transfer};
use safe_nd::PublicKey;

verus! {

/// The total amount, in nanos, of a sequence of transfers.
pub open spec fn sum_amounts(s: Seq<Transfer>) -> int
    decreases s.len(),
{
    if s.len() == 0 {
        0
    } else {
        sum_amounts(s.drop_last()) + s.last().amount
    }
}

pub proof fn lemma_sum_nonneg(s: Seq<Transfer>)
    ensures
        0 <= sum_amounts(s),
    decreases s.len(),
{
    if s.len() > 0 {
        lemma_sum_nonneg(s.drop_last());
    }
}

pub proof fn lemma_sum_push(s: Seq<Transfer>, t: Transfer)
    ensures
        sum_amounts(s.push(t)) == sum_amounts(s) + t.amount,
{
    assert(s.push(t).drop_last() =~= s);
    assert(s.push(t).last() == t);
}

pub proof fn lemma_sum_take_succ(s: Seq<Transfer>, i: int)
    requires
        0 <= i < s.len(),
    ensures
        sum_amounts(s.take(i + 1)) == sum_amounts(s.take(i)) + s[i].amount,
{
    assert(s.take(i + 1).drop_last() =~= s.take(i));
    assert(s.take(i + 1).last() == s[i]);
}

/// Every prefix total is bounded by the total of the whole sequence.
pub proof fn lemma_sum_take_bound(s: Seq<Transfer>, i: int)
    requires
        0 <= i <= s.len(),
    ensures
        sum_amounts(s.take(i)) <= sum_amounts(s),
    decreases s.len() - i,
{
    if i == s.len() {
        assert(s.take(i) =~= s);
    } else {
        lemma_sum_take_succ(s, i);
        lemma_sum_take_bound(s, i + 1);
    }
}

/// The sum of a concatenation is the sum of the parts.
pub proof fn lemma_sum_add(a: Seq<Transfer>, b: Seq<Transfer>)
    ensures
        sum_amounts(a + b) == sum_amounts(a) + sum_amounts(b),
    decreases b.len(),
{
    if b.len() == 0 {
        assert(a + b =~= a);
    } else {
        assert((a + b).drop_last() =~= a + b.drop_last());
        lemma_sum_add(a, b.drop_last());
    }
}

/// The mathematical content of an account: its owner and the two transfer
/// histories.
#[verifier::ext_equal]
pub struct AccountModel {
    /// The owner.
    pub owner: PublicKey,
    /// Applied credits, in order of application.
    pub credits: Seq<Transfer>,
    /// Applied debits, in order of application; counters are dense from zero.
    pub debits: Seq<Transfer>,
}

/// Whether a transfer enters the given owner's account as a credit.
pub open spec fn is_credit_for(t: Transfer, owner: PublicKey) -> bool {
    t.to == owner && t.id.actor != owner
}

/// Whether a transfer leaves the given owner's account as a debit.
pub open spec fn is_debit_for(t: Transfer, owner: PublicKey) -> bool {
    t.id.actor == owner
}

/// Well-formedness of an account model.
pub open spec fn account_model_inv(m: AccountModel) -> bool {
    &&& forall|i: int|
        0 <= i < m.credits.len() ==> is_credit_for(#[trigger] m.credits[i], m.owner)
    &&& forall|i: int|
        0 <= i < m.debits.len() ==> is_debit_for(#[trigger] m.debits[i], m.owner)
            && m.debits[i].id.counter == i
    &&& sum_amounts(m.credits) <= u64::MAX
    &&& sum_amounts(m.debits) <= sum_amounts(m.credits)
}

/// The balance of an account model: credits in, debits out.
pub open spec fn account_balance(m: AccountModel) -> int {
    sum_amounts(m.credits) - sum_amounts(m.debits)
}

/// The balance of a well-formed account never goes below zero.
pub proof fn lemma_balance_nonnegative(m: AccountModel)
    requires
        account_model_inv(m),
    ensures
        0 <= account_balance(m),
{
}

/// A record of all transfers applied to one account.
pub struct Account {
    /// The account owner.
    pub id: PublicKey,
    /// Incoming transfers, in order of application.
    pub credits: Vec<Transfer>,
    /// Outgoing transfers, in order of application.
    pub debits: Vec<Transfer>,
}

impl Account {
    /// The mathematical content of this account.
    pub open spec fn model(&self) -> AccountModel {
        AccountModel { owner: self.id, credits: self.credits@, debits: self.debits@ }
    }

    /// Well-formedness: see [`account_model_inv`].
    pub open spec fn inv(&self) -> bool {
        account_model_inv(self.model())
    }

    /// Balance as a mathematical integer.
    pub open spec fn spec_balance(&self) -> int {
        account_balance(self.model())
    }

    /// Creates an empty account for the given owner.
    pub fn new(id: PublicKey) -> (r: Account)
        ensures
            r.inv(),
            r.id == id,
            r.credits@ =~= Seq::<Transfer>::empty(),
            r.debits@ =~= Seq::<Transfer>::empty(),
    {
        Account { id, credits: Vec::new(), debits: Vec::new() }
    }

    /// The balance: everything credited minus everything debited. Never
    /// underflows on a well-formed account.
    pub fn balance(&self) -> (r: u64)
        requires
            self.inv(),
        ensures
            r == self.spec_balance(),
    {
        let mut c: u64 = 0;
        let mut i: usize = 0;
        while i < self.credits.len()
            invariant
                self.inv(),
                0 <= i <= self.credits@.len(),
                c == sum_amounts(self.credits@.take(i as int)),
            decreases self.credits@.len() - i,
        {
            proof {
                lemma_sum_take_succ(self.credits@, i as int);
                lemma_sum_take_bound(self.credits@, i + 1);
            }
            c = c + self.credits[i].amount;
            i = i + 1;
        }
        proof {
            assert(self.credits@.take(self.credits@.len() as int) =~= self.credits@);
        }
        let mut d: u64 = 0;
        let mut j: usize = 0;
        while j < self.debits.len()
            invariant
                self.inv(),
                0 <= j <= self.debits@.len(),
                d == sum_amounts(self.debits@.take(j as int)),
            decreases self.debits@.len() - j,
        {
            proof {
                lemma_sum_take_succ(self.debits@, j as int);
                lemma_sum_take_bound(self.debits@, j + 1);
                lemma_sum_nonneg(self.debits@.take(j as int));
            }
            d = d + self.debits[j].amount;
            j = j + 1;
        }
        proof {
            assert(self.debits@.take(self.debits@.len() as int) =~= self.debits@);
            lemma_sum_nonneg(self.debits@);
        }
        c - d
    }

    /// The counter the next debit must carry: the length of the debit
    /// history.
    pub fn next_debit(&self) -> (r: u64)
        ensures
            r == self.debits@.len(),
    {
        self.debits.len() as u64
    }

    /// The credits from index `index` to the end; empty if the index is past
    /// the end.
    pub fn credits_since(&self, index: usize) -> (r: Vec<Transfer>)
        ensures
            r@ == if index <= self.credits@.len() {
                self.credits@.skip(index as int)
            } else {
                Seq::<Transfer>::empty()
            },
    {
        Self::slice_since(&self.credits, index)
    }

    /// The debits from index `index` to the end; empty if the index is past
    /// the end.
    pub fn debits_since(&self, index: usize) -> (r: Vec<Transfer>)
        ensures
            r@ == if index <= self.debits@.len() {
                self.debits@.skip(index as int)
            } else {
                Seq::<Transfer>::empty()
            },
    {
        Self::slice_since(&self.debits, index)
    }

    fn slice_since(list: &Vec<Transfer>, index: usize) -> (r: Vec<Transfer>)
        ensures
            r@ == if index <= list@.len() {
                list@.skip(index as int)
            } else {
                Seq::<Transfer>::empty()
            },
    {
        let mut r: Vec<Transfer> = Vec::new();
        if index >= list.len() {
            proof {
                if index <= list@.len() {
                    assert(list@.skip(index as int) =~= Seq::<Transfer>::empty());
                }
            }
            return r;
        }
        let mut i: usize = index;
        while i < list.len()
            invariant
                index <= i <= list@.len(),
                r@ == list@.subrange(index as int, i as int),
            decreases list@.len() - i,
        {
            proof {
                assert(list@.subrange(index as int, i as int).push(list@[i as int]) =~= list@
                    .subrange(index as int, i + 1));
            }
            r.push(list[i]);
            i = i + 1;
        }
        proof {
            assert(list@.subrange(index as int, list@.len() as int) =~= list@.skip(index as int));
        }
        r
    }

    /// Whether some applied credit or debit carries the given identity.
    pub open spec fn spec_contains(&self, id: Dot) -> bool {
        (exists|i: int| 0 <= i < self.credits@.len() && (#[trigger] self.credits@[i]).id == id)
            || (exists|i: int| 0 <= i < self.debits@.len() && (#[trigger] self.debits@[i]).id == id)
    }

    /// Whether some applied credit or debit carries the given identity.
    pub fn contains(&self, id: &Dot) -> (r: bool)
        ensures
            r == self.spec_contains(*id),
    {
        let mut i: usize = 0;
        while i < self.credits.len()
            invariant
                0 <= i <= self.credits@.len(),
                forall|k: int| 0 <= k < i ==> (#[trigger] self.credits@[k]).id != *id,
            decreases self.credits@.len() - i,
        {
            if self.credits[i].id == *id {
                return true;
            }
            i = i + 1;
        }
        let mut j: usize = 0;
        while j < self.debits.len()
            invariant
                0 <= j <= self.debits@.len(),
                forall|k: int| 0 <= k < j ==> (#[trigger] self.debits@[k]).id != *id,
            decreases self.debits@.len() - j,
        {
            if self.debits[j].id == *id {
                return true;
            }
            j = j + 1;
        }
        false
    }

    /// Whether the transfer is the next debit of this account's owner:
    /// an error if it does not debit the owner at all, otherwise whether its
    /// counter is the next expected one.
    pub fn is_sequential(&self, t: &Transfer) -> (r: Result<bool, Error>)
        ensures
            match r {
                Ok(b) => t.id.actor == self.id && b == (t.id.counter == self.debits@.len()),
                Err(e) => t.id.actor != self.id && e == Error::InvalidOperation,
            },
    {
        if !public_key_eq(&t.id.actor, &self.id) {
            return Err(Error::InvalidOperation);
        }
        Ok(t.id.counter == self.next_debit())
    }

    /// What a caller must have validated before appending: a credit must keep
    /// the credit total representable; a debit must be the owner's next one
    /// and must not outrun the credits.
    pub open spec fn can_append(&self, t: Transfer) -> bool {
        if is_credit_for(t, self.id) {
            sum_amounts(self.credits@) + t.amount <= u64::MAX
        } else {
            &&& is_debit_for(t, self.id)
            &&& t.id.counter == self.debits@.len()
            &&& sum_amounts(self.debits@) + t.amount <= sum_amounts(self.credits@)
        }
    }

    /// Appends a validated transfer: to the credit history if it credits the
    /// owner from someone else, otherwise to the debit history. The caller
    /// must have validated the transfer (see [`Self::can_append`]).
    pub fn append(&mut self, t: Transfer)
        requires
            old(self).inv(),
            old(self).can_append(t),
        ensures
            final(self).inv(),
            final(self).id == old(self).id,
            is_credit_for(t, old(self).id) ==> final(self).credits@ == old(self).credits@.push(t)
                && final(self).debits@ == old(self).debits@,
            !is_credit_for(t, old(self).id) ==> final(self).debits@ == old(self).debits@.push(t)
                && final(self).credits@ == old(self).credits@,
    {
        if public_key_eq(&t.to, &self.id) && !public_key_eq(&t.id.actor, &self.id) {
            proof {
                lemma_sum_push(self.credits@, t);
            }
            self.credits.push(t);
        } else {
            proof {
                lemma_sum_push(self.debits@, t);
            }
            self.debits.push(t);
        }
    }
}

} // verus!
