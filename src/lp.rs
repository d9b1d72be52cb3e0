//! The LP token's ledger: a total supply and one balance per holder.
use crate::address::Address;
use crate::error::Error;
use crate::uint::{modulus, Uint256};
use vstd::prelude::*;

verus! {

/// The sum of all balances in `s`.
pub open spec fn sum_balances(s: Seq<(Address, Uint256)>) -> nat
    decreases s.len(),
{
    if s.len() == 0 {
        0
    } else {
        sum_balances(s.drop_last()) + s.last().1.value()
    }
}

/// The balance of `a` in `s`: its entry nearest the end, or zero.
pub open spec fn balance_in(s: Seq<(Address, Uint256)>, a: Address) -> nat
    decreases s.len(),
{
    if s.len() == 0 {
        0
    } else if s.last().0 == a {
        s.last().1.value()
    } else {
        balance_in(s.drop_last(), a)
    }
}

/// `i` is the entry of `a` nearest the end of `s`.
pub open spec fn last_entry(s: Seq<(Address, Uint256)>, a: Address, i: int) -> bool {
    0 <= i < s.len() && s[i].0 == a && forall|k: int| i < k < s.len() ==> s[k].0 != a
}

proof fn lemma_balance_at_last_entry(s: Seq<(Address, Uint256)>, a: Address, i: int)
    requires
        last_entry(s, a, i),
    ensures
        balance_in(s, a) == s[i].1.value(),
    decreases s.len(),
{
    if i < s.len() - 1 {
        assert(last_entry(s.drop_last(), a, i));
        lemma_balance_at_last_entry(s.drop_last(), a, i);
    }
}

proof fn lemma_absent(s: Seq<(Address, Uint256)>, a: Address)
    requires
        forall|k: int| 0 <= k < s.len() ==> s[k].0 != a,
    ensures
        balance_in(s, a) == 0,
    decreases s.len(),
{
    if s.len() > 0 {
        lemma_absent(s.drop_last(), a);
    }
}

proof fn lemma_balance_le_sum(s: Seq<(Address, Uint256)>, a: Address)
    ensures
        balance_in(s, a) <= sum_balances(s),
    decreases s.len(),
{
    if s.len() > 0 {
        lemma_balance_le_sum(s.drop_last(), a);
    }
}

/// Setting the last entry of `a` to `v` changes its balance to `v`, no other
/// balance, and the sum by the difference.
proof fn lemma_update_entry(s: Seq<(Address, Uint256)>, a: Address, i: int, v: Uint256)
    requires
        last_entry(s, a, i),
    ensures
        sum_balances(s.update(i, (a, v))) + s[i].1.value() == sum_balances(s) + v.value(),
        balance_in(s.update(i, (a, v)), a) == v.value(),
        forall|b: Address| b != a ==> balance_in(s.update(i, (a, v)), b) == balance_in(s, b),
    decreases s.len(),
{
    let t = s.update(i, (a, v));
    if i == s.len() - 1 {
        assert(t.drop_last() =~= s.drop_last());
    } else {
        assert(t.drop_last() =~= s.drop_last().update(i, (a, v)));
        assert(last_entry(s.drop_last(), a, i));
        lemma_update_entry(s.drop_last(), a, i, v);
    }
    assert forall|b: Address| b != a implies balance_in(t, b) == balance_in(s, b) by {
        if i == s.len() - 1 {
            assert(t.last().0 == a);
            assert(s.last().0 == a);
            assert(balance_in(t, b) == balance_in(t.drop_last(), b));
        } else {
            assert(t.last() == s.last());
            if s.last().0 != b {
                assert(balance_in(t, b) == balance_in(t.drop_last(), b));
                assert(balance_in(t.drop_last(), b) == balance_in(s.drop_last(), b));
            }
        }
    }
}

/// A new entry at the end adds to the sum and sets the balance of its holder.
proof fn lemma_push_entry(s: Seq<(Address, Uint256)>, a: Address, v: Uint256)
    ensures
        sum_balances(s.push((a, v))) == sum_balances(s) + v.value(),
        balance_in(s.push((a, v)), a) == v.value(),
        forall|b: Address| b != a ==> balance_in(s.push((a, v)), b) == balance_in(s, b),
{
    assert(s.push((a, v)).drop_last() =~= s);
}

/// The LP token's ledger.
pub struct LpToken {
    total_supply: Uint256,
    holders: Vec<(Address, Uint256)>,
}

impl LpToken {
    /// The balances add up to the total supply.
    pub closed spec fn wf(&self) -> bool {
        sum_balances(self.holders@) == self.total_supply.value()
    }

    pub closed spec fn supply(&self) -> nat {
        self.total_supply.value()
    }

    pub closed spec fn balance(&self, a: Address) -> nat {
        balance_in(self.holders@, a)
    }

    pub fn new() -> (r: LpToken)
        ensures
            r.wf(),
            r.supply() == 0,
            forall|a: Address| r.balance(a) == 0,
    {
        let r = LpToken { total_supply: Uint256::zero(), holders: Vec::new() };
        assert forall|a: Address| r.balance(a) == 0 by {
            lemma_absent(r.holders@, a);
        }
        r
    }

    pub fn total_supply(&self) -> (r: Uint256)
        ensures
            r.value() == self.supply(),
    {
        self.total_supply
    }

    /// Where the entry of `a` nearest the end is, if there is one.
    fn find(&self, a: Address) -> (r: Option<usize>)
        ensures
            r matches Some(i) ==> last_entry(self.holders@, a, i as int),
            r is None ==> forall|k: int| 0 <= k < self.holders@.len() ==> self.holders@[k].0 != a,
    {
        let mut j: usize = self.holders.len();
        while j > 0
            invariant
                j <= self.holders@.len(),
                forall|k: int| j <= k < self.holders@.len() ==> self.holders@[k].0 != a,
            decreases j,
        {
            if self.holders[j - 1].0 == a {
                return Some(j - 1);
            }
            j = j - 1;
        }
        None
    }

    pub fn balance_of(&self, a: Address) -> (r: Uint256)
        requires
            self.wf(),
        ensures
            r.value() == self.balance(a),
    {
        match self.find(a) {
            Some(i) => {
                proof {
                    lemma_balance_at_last_entry(self.holders@, a, i as int);
                }
                self.holders[i].1
            },
            None => {
                proof {
                    lemma_absent(self.holders@, a);
                }
                Uint256::zero()
            },
        }
    }

    /// Adds `value` units to `to` and to the total supply.
    pub fn mint(&mut self, to: Address, value: Uint256) -> (r: Result<(), Error>)
        requires
            old(self).wf(),
        ensures
            final(self).wf(),
            r is Ok == (old(self).supply() + value.value() < modulus()),
            r is Ok ==> final(self).supply() == old(self).supply() + value.value(),
            r is Ok ==> final(self).balance(to) == old(self).balance(to) + value.value(),
            r is Ok ==> forall|b: Address| b != to ==> final(self).balance(b) == old(self).balance(b),
            r is Err ==> r == Err::<(), Error>(Error::Overflow) && *final(self) == *old(self),
    {
        let total = match self.total_supply.checked_add(&value) {
            Some(t) => t,
            None => return Err(Error::Overflow),
        };
        match self.find(to) {
            Some(i) => {
                let cur = self.holders[i].1;
                proof {
                    lemma_balance_at_last_entry(self.holders@, to, i as int);
                    lemma_balance_le_sum(self.holders@, to);
                }
                let (nb, _) = cur.overflowing_add(&value);
                proof {
                    lemma_update_entry(self.holders@, to, i as int, nb);
                }
                self.holders.set(i, (to, nb));
            },
            None => {
                proof {
                    lemma_absent(self.holders@, to);
                    lemma_push_entry(self.holders@, to, value);
                }
                self.holders.push((to, value));
            },
        }
        self.total_supply = total;
        Ok(())
    }

    /// Takes `value` units from `from` and from the total supply.
    pub fn burn(&mut self, from: Address, value: Uint256) -> (r: Result<(), Error>)
        requires
            old(self).wf(),
        ensures
            final(self).wf(),
            r is Ok == (old(self).balance(from) >= value.value()),
            r is Ok ==> final(self).supply() == old(self).supply() - value.value(),
            r is Ok ==> final(self).balance(from) == old(self).balance(from) - value.value(),
            r is Ok ==> forall|b: Address| b != from ==> final(self).balance(b) == old(self).balance(b),
            r is Err ==> r == Err::<(), Error>(Error::InsufficientBalance) && *final(self) == *old(self),
    {
        match self.find(from) {
            Some(i) => {
                let cur = self.holders[i].1;
                proof {
                    lemma_balance_at_last_entry(self.holders@, from, i as int);
                    lemma_balance_le_sum(self.holders@, from);
                }
                let nb = match cur.checked_sub(&value) {
                    Some(v) => v,
                    None => return Err(Error::InsufficientBalance),
                };
                proof {
                    lemma_update_entry(self.holders@, from, i as int, nb);
                }
                self.holders.set(i, (from, nb));
                self.total_supply = self.total_supply.saturating_sub(&value);
                Ok(())
            },
            None => {
                proof {
                    lemma_absent(self.holders@, from);
                }
                if value.is_zero() {
                    Ok(())
                } else {
                    Err(Error::InsufficientBalance)
                }
            },
        }
    }
}

} // verus!
