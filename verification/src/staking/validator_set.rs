//! The validators the staked tokens are delegated to, with the amount at each, kept
//! in order of stake, largest first.
use vstd::prelude::*;

use crate::staking::deposit::Delegation;
use crate::staking::error::ContractError;

verus! {

/// A validator address and the amount delegated to it.
#[derive(Clone, Debug, PartialEq, Eq)]
pub struct Validator {
    pub address: String,
    pub staked: u128,
}

impl Validator {
    /// A field-by-field copy.
    pub fn duplicate(&self) -> (r: Validator)
        ensures
            r == *self,
    {
        Validator { address: self.address.clone(), staked: self.staked }
    }
}

/// A validator as the validator list query shows it.
#[derive(Clone, Debug, PartialEq, Eq)]
pub struct ValidatorResponse {
    pub address: String,
    pub staked: u128,
}

/// The validators, front to back.
#[derive(Clone, Debug, PartialEq, Eq)]
pub struct ValidatorSet {
    pub validators: Vec<Validator>,
}

/// Index of the first validator from `from` on with address `address`.
pub open spec fn first_with_address(vals: Seq<Validator>, address: Seq<char>, from: int) -> Option<int>
    decreases vals.len() - from,
{
    if from < 0 || from >= vals.len() {
        None
    } else if vals[from].address@ == address {
        Some(from)
    } else {
        first_with_address(vals, address, from + 1)
    }
}

pub proof fn lemma_first_with_address_found(vals: Seq<Validator>, address: Seq<char>, from: int)
    requires
        first_with_address(vals, address, from) is Some,
    ensures
        ({
            let i = first_with_address(vals, address, from)->0;
            &&& from <= i < vals.len()
            &&& vals[i].address@ == address
            &&& forall|j: int| from <= j < i ==> vals[j].address@ != address
        }),
    decreases vals.len() - from,
{
    if vals[from].address@ != address {
        lemma_first_with_address_found(vals, address, from + 1);
    }
}

pub proof fn lemma_first_with_address_none(vals: Seq<Validator>, address: Seq<char>, from: int)
    requires
        0 <= from,
        first_with_address(vals, address, from) is None,
    ensures
        forall|j: int| from <= j < vals.len() ==> vals[j].address@ != address,
    decreases vals.len() - from,
{
    if from < vals.len() {
        lemma_first_with_address_none(vals, address, from + 1);
    }
}

/// The sum of the stakes of `vals`.
pub open spec fn sum_staked(vals: Seq<Validator>) -> int
    decreases vals.len(),
{
    if vals.len() == 0 {
        0
    } else {
        sum_staked(vals.drop_last()) + vals.last().staked
    }
}

pub proof fn lemma_sum_staked_prefix(vals: Seq<Validator>, k: int)
    requires
        0 <= k <= vals.len(),
    ensures
        0 <= sum_staked(vals.take(k)) <= sum_staked(vals),
    decreases vals.len(),
{
    if vals.len() > 0 {
        if k == vals.len() {
            assert(vals.take(k) =~= vals);
            lemma_sum_staked_prefix(vals.drop_last(), k - 1);
        } else {
            assert(vals.take(k) =~= vals.drop_last().take(k));
            lemma_sum_staked_prefix(vals.drop_last(), k);
        }
    }
}

/// Changing one validator's stake changes the sum by the difference.
pub proof fn lemma_sum_staked_update(vals: Seq<Validator>, i: int, v: Validator)
    requires
        0 <= i < vals.len(),
    ensures
        sum_staked(vals.update(i, v)) == sum_staked(vals) - vals[i].staked + v.staked,
    decreases vals.len(),
{
    if i < vals.len() - 1 {
        assert(vals.update(i, v).drop_last() =~= vals.drop_last().update(i, v));
        lemma_sum_staked_update(vals.drop_last(), i, v);
    } else {
        assert(vals.update(i, v).drop_last() =~= vals.drop_last());
    }
}

/// `vals` with the stake of validator `i` set to `staked`.
pub open spec fn with_stake(vals: Seq<Validator>, i: int, staked: int) -> Seq<Validator> {
    vals.update(i, Validator { address: vals[i].address, staked: staked as u128 })
}

/// The validators of `vals` that hold stake, in order.
pub open spec fn holding_stake(vals: Seq<Validator>) -> Seq<Validator>
    decreases vals.len(),
{
    if vals.len() == 0 {
        Seq::empty()
    } else if vals.last().staked > 0 {
        holding_stake(vals.drop_last()).push(vals.last())
    } else {
        holding_stake(vals.drop_last())
    }
}

/// `after` is `before` reordered by `perm` (`after[q]` is `before[perm[q]]`, each index
/// used once), with validators of equal stake kept in their order in `before`.
pub open spec fn stable_order(perm: Seq<int>, before: Seq<Validator>, after: Seq<Validator>) -> bool {
    &&& perm.len() == before.len()
    &&& after.len() == before.len()
    &&& forall|q: int| 0 <= q < perm.len() ==> 0 <= #[trigger] perm[q] < before.len() && after[q] == before[perm[q]]
    &&& forall|q1: int, q2: int| 0 <= q1 < q2 < perm.len() ==> #[trigger] perm[q1] != #[trigger] perm[q2]
    &&& forall|q1: int, q2: int|
        0 <= q1 < q2 < perm.len() && after[q1].staked == after[q2].staked ==> #[trigger] perm[q1] < #[trigger] perm[q2]
}

/// `vals` are in order of stake, largest first.
pub open spec fn sorted_by_stake(vals: Seq<Validator>) -> bool {
    forall|i: int, j: int| 0 <= i < j < vals.len() ==> (#[trigger] vals[i]).staked >= (#[trigger] vals[j]).staked
}

/// No two validators share an address.
pub open spec fn distinct_addresses(vals: Seq<Validator>) -> bool {
    forall|i: int, j: int| 0 <= i < j < vals.len() ==> (#[trigger] vals[i]).address@ != (#[trigger] vals[j]).address@
}

impl ValidatorSet {
    /// The position of the validator with address `address`.
    pub fn exists_at(&self, address: &str) -> (r: Option<usize>)
        ensures
            r matches Some(k) ==> k < self.validators@.len() && first_with_address(
                self.validators@,
                address@,
                0,
            ) == Some(k as int),
            r is None ==> first_with_address(self.validators@, address@, 0) is None,
    {
        let wanted: String = address.to_owned();
        let mut k: usize = 0;
        while k < self.validators.len()
            invariant
                k <= self.validators.len(),
                wanted@ == address@,
                first_with_address(self.validators@, address@, 0) == first_with_address(
                    self.validators@,
                    address@,
                    k as int,
                ),
            decreases self.validators.len() - k,
        {
            if self.validators[k].address == wanted {
                return Some(k);
            }
            k = k + 1;
        }
        None
    }

    /// Removes the validator with address `address`, which must hold no stake unless
    /// `force` is set; returns it.
    pub fn remove(&mut self, address: &str, force: bool) -> (r: Result<Option<Validator>, ContractError>)
        ensures
            match first_with_address(old(self).validators@, address@, 0) {
                None => r == Err::<Option<Validator>, ContractError>(ContractError::ValidatorNotFound)
                    && final(self).validators@ == old(self).validators@,
                Some(i) => if !force && old(self).validators@[i].staked != 0 {
                    r == Err::<Option<Validator>, ContractError>(ContractError::ValidatorHasStake)
                        && final(self).validators@ == old(self).validators@
                } else {
                    r == Ok::<Option<Validator>, ContractError>(Some(old(self).validators@[i]))
                        && final(self).validators@ == old(self).validators@.remove(i)
                },
            },
    {
        proof {
            if first_with_address(self.validators@, address@, 0) is Some {
                lemma_first_with_address_found(self.validators@, address@, 0);
            }
        }
        let pos = match self.exists_at(address) {
            Some(p) => p,
            None => {
                return Err(ContractError::ValidatorNotFound);
            },
        };
        if !force && self.validators[pos].staked != 0 {
            return Err(ContractError::ValidatorHasStake);
        }
        Ok(Some(self.validators.remove(pos)))
    }

    /// The total amount staked over all validators.
    pub fn total_staked(&self) -> (r: u128)
        requires
            sum_staked(self.validators@) <= u128::MAX,
        ensures
            r == sum_staked(self.validators@),
    {
        let mut total: u128 = 0;
        let mut i: usize = 0;
        while i < self.validators.len()
            invariant
                i <= self.validators@.len(),
                sum_staked(self.validators@) <= u128::MAX,
                total == sum_staked(self.validators@.take(i as int)),
            decreases self.validators.len() - i,
        {
            proof {
                assert(self.validators@.take(i + 1).drop_last() =~= self.validators@.take(i as int));
                lemma_sum_staked_prefix(self.validators@, i + 1);
            }
            total = total + self.validators[i].staked;
            i = i + 1;
        }
        proof {
            assert(self.validators@.take(self.validators@.len() as int) =~= self.validators@);
        }
        total
    }

    /// Adds a validator with no stake at the back, unless one has that address.
    pub fn add(&mut self, address: String)
        ensures
            first_with_address(old(self).validators@, address@, 0) is Some ==> final(self).validators@
                == old(self).validators@,
            first_with_address(old(self).validators@, address@, 0) is None ==> final(self).validators@
                == old(self).validators@.push(Validator { address, staked: 0 }),
    {
        match self.exists_at(address.as_str()) {
            Some(_) => {},
            None => {
                self.validators.push(Validator { address, staked: 0 });
            },
        }
    }

    /// Takes `to_unbond` (at most all of it) from the stake of the validator with
    /// address `address`.
    pub fn unbond_from(&mut self, address: &str, to_unbond: u128) -> (r: Result<(), ContractError>)
        ensures
            old(self).validators@.len() == 0 ==> r == Err::<(), ContractError>(
                ContractError::EmptyValidatorSet,
            ) && final(self).validators@ == old(self).validators@,
            old(self).validators@.len() > 0 ==> match first_with_address(
                old(self).validators@,
                address@,
                0,
            ) {
                None => r == Err::<(), ContractError>(ContractError::ValidatorNotFound)
                    && final(self).validators@ == old(self).validators@,
                Some(i) => r is Ok && final(self).validators@ == with_stake(
                    old(self).validators@,
                    i,
                    if old(self).validators@[i].staked > to_unbond {
                        old(self).validators@[i].staked - to_unbond
                    } else {
                        0
                    },
                ),
            },
    {
        if self.validators.len() == 0 {
            return Err(ContractError::EmptyValidatorSet);
        }
        proof {
            if first_with_address(self.validators@, address@, 0) is Some {
                lemma_first_with_address_found(self.validators@, address@, 0);
            }
        }
        match self.exists_at(address) {
            None => Err(ContractError::ValidatorNotFound),
            Some(i) => {
                let v = self.validators[i].duplicate();
                let staked = v.staked.saturating_sub(to_unbond);
                self.validators.set(i, Validator { address: v.address, staked });
                Ok(())
            },
        }
    }

    /// Takes `to_unbond` (at most all of it) from the front validator, the one with the
    /// most stake; returns its address.
    pub fn unbond_from_largest(&mut self, to_unbond: u128) -> (r: Result<String, ContractError>)
        ensures
            old(self).validators@.len() == 0 ==> r == Err::<String, ContractError>(
                ContractError::EmptyValidatorSet,
            ) && final(self).validators@ == old(self).validators@,
            old(self).validators@.len() > 0 ==> r == Ok::<String, ContractError>(
                old(self).validators@[0].address,
            ) && final(self).validators@ == with_stake(
                old(self).validators@,
                0,
                if old(self).validators@[0].staked > to_unbond {
                    old(self).validators@[0].staked - to_unbond
                } else {
                    0
                },
            ),
    {
        if self.validators.len() == 0 {
            return Err(ContractError::EmptyValidatorSet);
        }
        let v = self.validators[0].duplicate();
        let staked = v.staked.saturating_sub(to_unbond);
        let address = v.address.clone();
        self.validators.set(0, Validator { address: v.address, staked });
        Ok(address)
    }

    /// Adds `to_stake` to the back validator, the one with the least stake; returns its
    /// address.
    pub fn stake_with_least(&mut self, to_stake: u128) -> (r: Result<String, ContractError>)
        requires
            old(self).validators@.len() > 0 ==> old(self).validators@.last().staked + to_stake
                <= u128::MAX,
        ensures
            old(self).validators@.len() == 0 ==> r == Err::<String, ContractError>(
                ContractError::EmptyValidatorSet,
            ) && final(self).validators@ == old(self).validators@,
            old(self).validators@.len() > 0 ==> r == Ok::<String, ContractError>(
                old(self).validators@.last().address,
            ) && final(self).validators@ == with_stake(
                old(self).validators@,
                old(self).validators@.len() - 1,
                old(self).validators@.last().staked + to_stake,
            ),
    {
        if self.validators.len() == 0 {
            return Err(ContractError::EmptyValidatorSet);
        }
        let last = self.validators.len() - 1;
        let v = self.validators[last].duplicate();
        let address = v.address.clone();
        self.validators.set(last, Validator { address: v.address, staked: v.staked + to_stake });
        Ok(address)
    }

    /// Adds `to_stake` to the validator with address `address`.
    pub fn stake_at(&mut self, address: &str, to_stake: u128) -> (r: Result<(), ContractError>)
        requires
            first_with_address(old(self).validators@, address@, 0) matches Some(i) ==> old(
                self,
            ).validators@[i].staked + to_stake <= u128::MAX,
        ensures
            old(self).validators@.len() == 0 ==> r == Err::<(), ContractError>(
                ContractError::EmptyValidatorSet,
            ) && final(self).validators@ == old(self).validators@,
            old(self).validators@.len() > 0 ==> match first_with_address(
                old(self).validators@,
                address@,
                0,
            ) {
                None => r == Err::<(), ContractError>(ContractError::ValidatorNotFound)
                    && final(self).validators@ == old(self).validators@,
                Some(i) => r is Ok && final(self).validators@ == with_stake(
                    old(self).validators@,
                    i,
                    old(self).validators@[i].staked + to_stake,
                ),
            },
    {
        if self.validators.len() == 0 {
            return Err(ContractError::EmptyValidatorSet);
        }
        proof {
            if first_with_address(self.validators@, address@, 0) is Some {
                lemma_first_with_address_found(self.validators@, address@, 0);
            }
        }
        match self.exists_at(address) {
            None => Err(ContractError::ValidatorNotFound),
            Some(i) => {
                let v = self.validators[i].duplicate();
                self.validators.set(i, Validator { address: v.address, staked: v.staked + to_stake });
                Ok(())
            },
        }
    }

    /// Puts the validators in order of stake, largest first, keeping the order of those
    /// with equal stake.
    pub fn rebalance(&mut self)
        ensures
            final(self).validators@.to_multiset() == old(self).validators@.to_multiset(),
            old(self).validators@.len() < 2 ==> final(self).validators@ == old(self).validators@,
            sorted_by_stake(final(self).validators@),
            exists|perm: Seq<int>| #[trigger]
                stable_order(perm, old(self).validators@, final(self).validators@),
    {
        if self.validators.len() < 2 {
            proof {
                let n = self.validators@.len() as int;
                let id = Seq::new(n as nat, |i: int| i);
                assert(stable_order(id, self.validators@, self.validators@));
            }
            return;
        }
        let mut sorted: Vec<Validator> = Vec::new();
        let mut k: usize = 0;
        let ghost mut perm: Seq<int> = Seq::empty();
        proof {
            assert(self.validators@.subrange(0, 0) =~= Seq::<Validator>::empty());
            assert(sorted@ =~= Seq::<Validator>::empty());
        }
        while k < self.validators.len()
            invariant
                k <= self.validators@.len(),
                sorted@.to_multiset() == self.validators@.subrange(0, k as int).to_multiset(),
                sorted_by_stake(sorted@),
                perm.len() == sorted@.len() == k,
                forall|q: int|
                    0 <= q < k ==> 0 <= #[trigger] perm[q] < k && sorted@[q]
                        == self.validators@[perm[q]],
                forall|q1: int, q2: int|
                    0 <= q1 < q2 < k ==> #[trigger] perm[q1] != #[trigger] perm[q2],
                forall|q1: int, q2: int|
                    0 <= q1 < q2 < k && sorted@[q1].staked == sorted@[q2].staked ==> #[trigger] perm[q1]
                        < #[trigger] perm[q2],
            decreases self.validators.len() - k,
        {
            let x = self.validators[k].duplicate();
            let mut p: usize = 0;
            while p < sorted.len() && sorted[p].staked >= x.staked
                invariant
                    p <= sorted@.len(),
                    forall|q: int| 0 <= q < p ==> (#[trigger] sorted@[q]).staked >= x.staked,
                decreases sorted.len() - p,
            {
                p = p + 1;
            }
            let ghost before = sorted@;
            let ghost perm_before = perm;
            sorted.insert(p, x);
            proof {
                perm = perm_before.insert(p as int, k as int);
                vstd::seq_lib::to_multiset_insert(before, p as int, x);
                vstd::seq_lib::to_multiset_build(
                    self.validators@.subrange(0, k as int),
                    self.validators@[k as int],
                );
                assert(self.validators@.subrange(0, k + 1) =~= self.validators@.subrange(
                    0,
                    k as int,
                ).push(self.validators@[k as int]));
                assert forall|i: int, j: int| 0 <= i < j < sorted@.len() implies (
                #[trigger] sorted@[i]).staked >= (#[trigger] sorted@[j]).staked by {
                    if j < p {
                        assert(sorted@[i] == before[i] && sorted@[j] == before[j]);
                    } else if j == p {
                        assert(sorted@[i] == before[i]);
                    } else if i < p {
                        assert(sorted@[i] == before[i] && sorted@[j] == before[j - 1]);
                    } else if i == p {
                        assert(sorted@[j] == before[j - 1]);
                    } else {
                        assert(sorted@[i] == before[i - 1] && sorted@[j] == before[j - 1]);
                    }
                }
                assert forall|q: int| 0 <= q < k + 1 implies 0 <= #[trigger] perm[q] < k + 1
                    && sorted@[q] == self.validators@[perm[q]] by {
                    if q < p {
                        assert(perm[q] == perm_before[q] && sorted@[q] == before[q]);
                    } else if q > p {
                        assert(perm[q] == perm_before[q - 1] && sorted@[q] == before[q - 1]);
                    }
                }
                assert forall|q1: int, q2: int| 0 <= q1 < q2 < k + 1 implies #[trigger] perm[q1]
                    != #[trigger] perm[q2] by {
                    if q1 != p && q2 != p {
                        let a = if q1 < p { q1 } else { q1 - 1 };
                        let b = if q2 < p { q2 } else { q2 - 1 };
                        assert(perm[q1] == perm_before[a] && perm[q2] == perm_before[b]);
                        assert(perm_before[a] != perm_before[b]);
                    } else if q1 == p {
                        assert(perm[q2] == perm_before[q2 - 1]);
                    } else {
                        assert(perm[q1] == perm_before[q1]);
                    }
                }
                assert forall|q1: int, q2: int|
                    0 <= q1 < q2 < k + 1 && sorted@[q1].staked == sorted@[q2].staked implies #[trigger] perm[q1]
                    < #[trigger] perm[q2] by {
                    if q1 != p && q2 != p {
                        let a = if q1 < p { q1 } else { q1 - 1 };
                        let b = if q2 < p { q2 } else { q2 - 1 };
                        assert(perm[q1] == perm_before[a] && perm[q2] == perm_before[b]);
                        assert(sorted@[q1] == before[a] && sorted@[q2] == before[b]);
                        assert(perm_before[a] < perm_before[b]);
                    } else if q2 == p {
                        assert(perm[q1] == perm_before[q1]);
                    } else {
                        assert(q1 == p);
                        assert(sorted@[q2] == before[q2 - 1]);
                        assert(before[p as int].staked < x.staked);
                        assert(before[p as int].staked >= before[q2 - 1].staked);
                    }
                }
            }
            k = k + 1;
        }
        proof {
            assert(self.validators@.subrange(0, self.validators@.len() as int) =~= self.validators@);
            assert(stable_order(perm, self.validators@, sorted@));
        }
        self.validators = sorted;
    }

    /// Sets every validator's stake to zero.
    pub fn zero(&mut self)
        ensures
            final(self).validators@.len() == old(self).validators@.len(),
            forall|i: int|
                0 <= i < final(self).validators@.len() ==> #[trigger] final(self).validators@[i]
                    == (Validator { address: old(self).validators@[i].address, staked: 0 }),
    {
        let mut i: usize = 0;
        while i < self.validators.len()
            invariant
                i <= self.validators@.len(),
                self.validators@.len() == old(self).validators@.len(),
                forall|j: int|
                    0 <= j < i ==> #[trigger] self.validators@[j] == (Validator {
                        address: old(self).validators@[j].address,
                        staked: 0,
                    }),
                forall|j: int| i <= j < self.validators@.len() ==> #[trigger] self.validators@[j] == old(self).validators@[j],
            decreases self.validators.len() - i,
        {
            let v = self.validators[i].duplicate();
            self.validators.set(i, Validator { address: v.address, staked: 0 });
            i = i + 1;
        }
    }

    /// The validators as the validator list query shows them.
    pub fn to_query_response(&self) -> (r: Vec<ValidatorResponse>)
        ensures
            r@.len() == self.validators@.len(),
            forall|i: int|
                0 <= i < r@.len() ==> #[trigger] r@[i] == (ValidatorResponse {
                    address: self.validators@[i].address,
                    staked: self.validators@[i].staked,
                }),
    {
        let mut out: Vec<ValidatorResponse> = Vec::new();
        let mut i: usize = 0;
        while i < self.validators.len()
            invariant
                i <= self.validators@.len(),
                out@.len() == i,
                forall|j: int|
                    0 <= j < i ==> #[trigger] out@[j] == (ValidatorResponse {
                        address: self.validators@[j].address,
                        staked: self.validators@[j].staked,
                    }),
            decreases self.validators.len() - i,
        {
            out.push(
                ValidatorResponse {
                    address: self.validators[i].address.clone(),
                    staked: self.validators[i].staked,
                },
            );
            i = i + 1;
        }
        out
    }

    /// The validators holding stake, each with its whole stake: what unbonding
    /// everything undelegates, in order.
    pub fn unbond_all(&self) -> (r: Vec<Delegation>)
        ensures
            r@ == holding_stake(self.validators@).map_values(
                |v: Validator| Delegation { validator: v.address, amount: v.staked },
            ),
    {
        let mut out: Vec<Delegation> = Vec::new();
        let mut i: usize = 0;
        while i < self.validators.len()
            invariant
                i <= self.validators@.len(),
                out@ == holding_stake(self.validators@.take(i as int)).map_values(
                    |v: Validator| Delegation { validator: v.address, amount: v.staked },
                ),
            decreases self.validators.len() - i,
        {
            proof {
                assert(self.validators@.take(i + 1).drop_last() =~= self.validators@.take(i as int));
            }
            if self.validators[i].staked > 0 {
                out.push(
                    Delegation {
                        validator: self.validators[i].address.clone(),
                        amount: self.validators[i].staked,
                    },
                );
            }
            proof {
                let f = |v: Validator| Delegation { validator: v.address, amount: v.staked };
                let h = holding_stake(self.validators@.take(i as int));
                assert(h.push(self.validators@[i as int]).map_values(f) =~= h.map_values(f).push(
                    f(self.validators@[i as int]),
                ));
            }
            i = i + 1;
        }
        proof {
            assert(self.validators@.take(self.validators@.len() as int) =~= self.validators@);
        }
        out
    }

    /// The addresses of the validators holding stake, in order: those whose rewards
    /// are withdrawn.
    pub fn withdraw_rewards_messages(&self) -> (r: Vec<String>)
        ensures
            r@ == holding_stake(self.validators@).map_values(|v: Validator| v.address),
    {
        let mut out: Vec<String> = Vec::new();
        let mut i: usize = 0;
        while i < self.validators.len()
            invariant
                i <= self.validators@.len(),
                out@ == holding_stake(self.validators@.take(i as int)).map_values(
                    |v: Validator| v.address,
                ),
            decreases self.validators.len() - i,
        {
            proof {
                assert(self.validators@.take(i + 1).drop_last() =~= self.validators@.take(i as int));
            }
            if self.validators[i].staked > 0 {
                out.push(self.validators[i].address.clone());
            }
            proof {
                let f = |v: Validator| v.address;
                let h = holding_stake(self.validators@.take(i as int));
                assert(h.push(self.validators@[i as int]).map_values(f) =~= h.map_values(f).push(
                    f(self.validators@[i as int]),
                ));
            }
            i = i + 1;
        }
        proof {
            assert(self.validators@.take(self.validators@.len() as int) =~= self.validators@);
        }
        out
    }
}

} // verus!
