use vstd::prelude::*;
use crate::types::{Address, Error, Holding};

verus! {

/// Whether `x` fits in an `i32`.
pub open spec fn fits_i32(x: int) -> bool {
    i32::MIN <= x <= i32::MAX
}

/// Whether some holding in `h` belongs to `m`.
pub open spec fn has_holding(h: Seq<Holding>, m: Address) -> bool {
    exists|i: int| 0 <= i < h.len() && #[trigger] h[i].member == m
}

/// The position of `m`'s holding in `h`, or -1 when `m` holds none.
pub open spec fn slot_of(h: Seq<Holding>, m: Address) -> int {
    if has_holding(h, m) {
        choose|i: int| 0 <= i < h.len() && #[trigger] h[i].member == m
    } else {
        -1
    }
}

/// No member has two holdings.
pub open spec fn members_unique(h: Seq<Holding>) -> bool {
    forall|i: int, j: int|
        0 <= i < h.len() && 0 <= j < h.len() && #[trigger] h[i].member == #[trigger] h[j].member
            ==> i == j
}

/// The balance of `m`: its holding's shares, 0 for a member never credited.
pub open spec fn balance_of(h: Seq<Holding>, m: Address) -> int {
    if has_holding(h, m) {
        h[slot_of(h, m)].shares as int
    } else {
        0
    }
}

/// The sum of all holdings.
pub open spec fn total_of(h: Seq<Holding>) -> int
    decreases h.len(),
{
    if h.len() == 0 {
        0
    } else {
        total_of(h.drop_last()) + h.last().shares
    }
}

/// `h` with the balance of `m` set to `v`.
pub open spec fn with_balance(h: Seq<Holding>, m: Address, v: i32) -> Seq<Holding> {
    if has_holding(h, m) {
        h.update(slot_of(h, m), Holding { member: m, shares: v })
    } else {
        h.push(Holding { member: m, shares: v })
    }
}

/// Adding `amount` (negative to burn) to the balance of `to` and to the total;
/// refused when either leaves the `i32` range.
pub open spec fn mint_result(h: Seq<Holding>, total: int, amount: int, to: Address) -> Result<
    (Seq<Holding>, int),
    Error,
> {
    let b = balance_of(h, to) + amount;
    let t = total + amount;
    if !fits_i32(b) || !fits_i32(t) {
        Err(Error::Overflow)
    } else {
        Ok((with_balance(h, to, b as i32), t))
    }
}

pub(crate) proof fn lemma_slot(h: Seq<Holding>, m: Address, i: int)
    requires
        members_unique(h),
        0 <= i < h.len(),
        h[i].member == m,
    ensures
        has_holding(h, m),
        slot_of(h, m) == i,
        balance_of(h, m) == h[i].shares,
{
    assert(h[i].member == m);
}

proof fn lemma_total_push(h: Seq<Holding>, x: Holding)
    ensures
        total_of(h.push(x)) == total_of(h) + x.shares,
{
    assert(h.push(x).drop_last() =~= h);
}

proof fn lemma_total_update(h: Seq<Holding>, i: int, x: Holding)
    requires
        0 <= i < h.len(),
    ensures
        total_of(h.update(i, x)) == total_of(h) - h[i].shares + x.shares,
    decreases h.len(),
{
    if i == h.len() - 1 {
        assert(h.update(i, x).drop_last() =~= h.drop_last());
    } else {
        lemma_total_update(h.drop_last(), i, x);
        assert(h.update(i, x).drop_last() =~= h.drop_last().update(i, x));
    }
}

/// Setting one balance keeps members unique, sets that balance, leaves the
/// others as they were, and moves the total by the difference.
pub proof fn lemma_with_balance(h: Seq<Holding>, m: Address, v: i32)
    requires
        members_unique(h),
    ensures
        members_unique(with_balance(h, m, v)),
        balance_of(with_balance(h, m, v), m) == v,
        forall|x: Address| x != m ==> balance_of(with_balance(h, m, v), x) == balance_of(h, x),
        total_of(with_balance(h, m, v)) == total_of(h) - balance_of(h, m) + v,
{
    let h2 = with_balance(h, m, v);
    let x = Holding { member: m, shares: v };
    if has_holding(h, m) {
        let s = slot_of(h, m);
        lemma_total_update(h, s, x);
        assert(members_unique(h2));
        lemma_slot(h2, m, s);
        assert forall|a: Address| a != m implies balance_of(h2, a) == balance_of(h, a) by {
            if has_holding(h, a) {
                lemma_slot(h2, a, slot_of(h, a));
            } else {
                assert(!has_holding(h2, a));
            }
        }
    } else {
        lemma_total_push(h, x);
        assert(members_unique(h2));
        lemma_slot(h2, m, h.len() as int);
        assert forall|a: Address| a != m implies balance_of(h2, a) == balance_of(h, a) by {
            if has_holding(h, a) {
                lemma_slot(h2, a, slot_of(h, a));
            } else {
                assert(!has_holding(h2, a));
            }
        }
    }
}

/// The per-member share balances and their running total.
pub struct Ledger {
    holdings: Vec<Holding>,
    total: i32,
}

impl Ledger {
    /// The holdings, one per member ever credited.
    pub closed spec fn holdings(&self) -> Seq<Holding> {
        self.holdings@
    }

    /// The total supply.
    pub closed spec fn total(&self) -> int {
        self.total as int
    }

    /// Members are unique and the total is the sum of all balances.
    pub open spec fn wf(&self) -> bool {
        &&& members_unique(self.holdings())
        &&& self.total() == total_of(self.holdings())
    }

    /// The ledger with no members.
    pub fn new() -> (r: Ledger)
        ensures
            r.wf(),
            r.holdings() == Seq::<Holding>::empty(),
            r.total() == 0,
    {
        Ledger { holdings: Vec::new(), total: 0 }
    }

    /// The ledger made of `holdings` and `total`, when members are unique and
    /// `total` is the sum of the holdings.
    pub fn from_holdings(holdings: Vec<Holding>, total: i32) -> (r: Option<Ledger>)
        ensures
            match r {
                Some(l) => l.wf() && l.holdings() == holdings@ && l.total() == total,
                None => !(members_unique(holdings@) && total == total_of(holdings@)),
            },
    {
        let n = holdings.len();
        let mut i: usize = 0;
        while i < n
            invariant
                n == holdings@.len(),
                i <= n,
                members_unique(holdings@.take(i as int)),
            decreases n - i,
        {
            let mut j: usize = 0;
            while j < i
                invariant
                    n == holdings@.len(),
                    j <= i < n,
                    forall|b: int| 0 <= b < j ==> #[trigger] holdings@[b].member != holdings@[i as int].member,
                decreases i - j,
            {
                if holdings[j].member == holdings[i].member {
                    assert(!members_unique(holdings@)) by {
                        assert(holdings@[j as int].member == holdings@[i as int].member);
                    }
                    return None;
                }
                j = j + 1;
            }
            assert(members_unique(holdings@.take(i + 1))) by {
                let t = holdings@.take(i + 1);
                assert forall|a: int, b: int|
                    0 <= a < t.len() && 0 <= b < t.len() && #[trigger] t[a].member == #[trigger] t[b].member
                    implies a == b by {
                    if a < i && b < i {
                        assert(holdings@.take(i as int)[a] == t[a]);
                        assert(holdings@.take(i as int)[b] == t[b]);
                    }
                }
            }
            i = i + 1;
        }
        assert(holdings@.take(n as int) =~= holdings@);
        let mut acc: i128 = 0;
        let mut k: usize = 0;
        while k < n
            invariant
                n == holdings@.len(),
                k <= n,
                acc == total_of(holdings@.take(k as int)),
                -(k * 2147483648) <= acc <= k * 2147483648,
            decreases n - k,
        {
            assert(holdings@.take(k + 1).drop_last() =~= holdings@.take(k as int));
            acc = acc + holdings[k].shares as i128;
            k = k + 1;
        }
        if acc != total as i128 {
            return None;
        }
        Some(Ledger { holdings, total })
    }

    /// The holdings, one per member ever credited.
    pub fn into_holdings(self) -> (r: Vec<Holding>)
        ensures
            r@ == self.holdings(),
    {
        self.holdings
    }

    /// A copy of this ledger.
    pub fn copy(&self) -> (r: Ledger)
        ensures
            r.holdings() == self.holdings(),
            r.total() == self.total(),
    {
        let mut holdings: Vec<Holding> = Vec::new();
        let mut i: usize = 0;
        while i < self.holdings.len()
            invariant
                i <= self.holdings@.len(),
                holdings@ == self.holdings@.take(i as int),
            decreases self.holdings@.len() - i,
        {
            holdings.push(self.holdings[i]);
            i = i + 1;
            assert(holdings@ =~= self.holdings@.take(i as int));
        }
        assert(holdings@ =~= self.holdings@);
        Ledger { holdings, total: self.total }
    }

    fn find(&self, m: Address) -> (r: Option<usize>)
        requires
            self.wf(),
        ensures
            match r {
                Some(i) => i < self.holdings().len() && slot_of(self.holdings(), m) == i
                    && balance_of(self.holdings(), m) == self.holdings()[i as int].shares,
                None => !has_holding(self.holdings(), m) && balance_of(self.holdings(), m) == 0,
            },
    {
        let mut i: usize = 0;
        while i < self.holdings.len()
            invariant
                self.wf(),
                i <= self.holdings@.len(),
                forall|j: int| 0 <= j < i ==> #[trigger] self.holdings@[j].member != m,
            decreases self.holdings@.len() - i,
        {
            if self.holdings[i].member == m {
                proof {
                    lemma_slot(self.holdings@, m, i as int);
                }
                return Some(i);
            }
            i = i + 1;
        }
        None
    }

    /// The balance of `m`, 0 for a member never credited.
    pub fn balance(&self, m: Address) -> (r: i32)
        requires
            self.wf(),
        ensures
            r == balance_of(self.holdings(), m),
    {
        match self.find(m) {
            Some(i) => self.holdings[i].shares,
            None => 0,
        }
    }

    /// The total supply.
    pub fn total_supply(&self) -> (r: i32)
        ensures
            r == self.total(),
    {
        self.total
    }

    /// Adds `amount` (negative to burn) to the balance of `to` and to the
    /// total; on `Err(Overflow)` nothing changes.
    pub fn mint(&mut self, amount: i32, to: Address) -> (r: Result<(), Error>)
        requires
            old(self).wf(),
        ensures
            final(self).wf(),
            match mint_result(old(self).holdings(), old(self).total(), amount as int, to) {
                Ok((h, t)) => r == Ok::<(), Error>(()) && final(self).holdings() == h
                    && final(self).total() == t,
                Err(e) => r == Err::<(), Error>(e) && *final(self) == *old(self),
            },
    {
        let idx = self.find(to);
        let cur: i32 = match idx {
            Some(i) => self.holdings[i].shares,
            None => 0,
        };
        let b = cur.checked_add(amount);
        let t = self.total.checked_add(amount);
        match (b, t) {
            (Some(b), Some(t)) => {
                proof {
                    lemma_with_balance(self.holdings@, to, b);
                }
                match idx {
                    Some(i) => {
                        self.holdings.set(i, Holding { member: to, shares: b });
                    },
                    None => {
                        self.holdings.push(Holding { member: to, shares: b });
                    },
                }
                self.total = t;
                Ok(())
            },
            _ => Err(Error::Overflow),
        }
    }
}

} // verus!
