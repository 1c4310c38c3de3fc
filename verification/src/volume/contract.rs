//! Logging volumes into the ring of observations, and answering volume queries.
//!
//! Observations are stored by index in `observations`; `config.current_idx` is where
//! the latest one stands. The caller loads and stores both.
use vstd::prelude::*;

use crate::volume::state::{Config, Observation};

verus! {

/// One day, in nanoseconds.
pub const TIME_24H: u64 = 86_400_000_000_000;

#[derive(Clone, Copy, Debug, PartialEq, Eq, Structural)]
pub enum ContractError {
    /// Only the tracked contract may log observations.
    NotContract,
    /// Only the admin may change the tracked contract.
    NotAdmin,
}

/// The configuration of a new oracle: nothing logged yet.
pub fn instantiate(admin: String, contract: String, max_length: u64) -> (r: Config)
    ensures
        r == (Config {
            admin,
            contract_address: contract,
            max_length,
            pivoted: true,
            current_idx: 0,
            is_new: true,
            counter: 0,
        }),
        oracle_ok(r, Seq::empty()),
{
    Config {
        admin,
        contract_address: contract,
        max_length,
        pivoted: true,
        current_idx: 0,
        is_new: true,
        counter: 0,
    }
}

/// `last` with one more observation, of `volume1` and `volume2`, at `block_timestamp`.
pub open spec fn transformed(last: Observation, block_timestamp: u64, volume1: u128, volume2: u128) -> Observation {
    Observation {
        block_timestamp,
        num_of_observations: (last.num_of_observations + 1) as u64,
        volume1: (last.volume1 + volume1) as u128,
        volume2: (last.volume2 + volume2) as u128,
    }
}

/// One more observation fits in `last`'s counters.
pub open spec fn can_add(last: Observation, volume1: u128, volume2: u128) -> bool {
    &&& last.num_of_observations + 1 <= u64::MAX
    &&& last.volume1 + volume1 <= u128::MAX
    &&& last.volume2 + volume2 <= u128::MAX
}

/// The observation that follows `last`: one more observation, and the volumes added.
pub fn transform(last: &Observation, block_timestamp: u64, volume1: u128, volume2: u128) -> (r: Observation)
    requires
        can_add(*last, volume1, volume2),
    ensures
        r == transformed(*last, block_timestamp, volume1, volume2),
        r.num_of_observations == last.num_of_observations + 1,
        r.volume1 == last.volume1 + volume1,
        r.volume2 == last.volume2 + volume2,
{
    Observation {
        block_timestamp,
        num_of_observations: last.num_of_observations + 1,
        volume1: last.volume1 + volume1,
        volume2: last.volume2 + volume2,
    }
}

/// Where the observation after the one at `idx` goes: the next slot, or back to the
/// first one at the end of the ring.
pub open spec fn next_index(idx: u64, max_length: u64) -> u64 {
    if idx + 1 >= max_length {
        0
    } else {
        (idx + 1) as u64
    }
}

/// The latest observation is stored, and the ring holds no more than its length (or
/// one observation, in a ring of length zero or one).
pub open spec fn ring_ok(config: Config, obs: Seq<Observation>) -> bool {
    &&& config.current_idx < obs.len()
    &&& (obs.len() <= config.max_length || obs.len() == 1)
}

/// The oracle's state is consistent: before the first observation the ring is at its
/// start, after it `ring_ok` holds.
pub open spec fn state_ok(config: Config, obs: Seq<Observation>) -> bool {
    if config.is_new {
        config.current_idx == 0 && obs.len() <= 1
    } else {
        ring_ok(config, obs)
    }
}

/// The configuration and observations after writing an observation at `block_timestamp`:
/// at the same timestamp the latest one is replaced, else the ring moves on.
pub open spec fn written(
    config: Config,
    obs: Seq<Observation>,
    block_timestamp: u64,
    volume1: u128,
    volume2: u128,
) -> (Config, Seq<Observation>) {
    let cur = config.current_idx as int;
    let new = transformed(obs[cur], block_timestamp, volume1, volume2);
    if block_timestamp == obs[cur].block_timestamp {
        (config, obs.update(cur, new))
    } else {
        let i = next_index(config.current_idx, config.max_length);
        (
            Config {
                current_idx: i,
                counter: (config.counter + 1) as u64,
                pivoted: config.pivoted || config.current_idx + 1 >= config.max_length,
                ..config
            },
            if i == obs.len() {
                obs.push(new)
            } else {
                obs.update(i as int, new)
            },
        )
    }
}

/// A write at `block_timestamp` fits in the counters.
pub open spec fn can_write(
    config: Config,
    obs: Seq<Observation>,
    block_timestamp: u64,
    volume1: u128,
    volume2: u128,
) -> bool {
    let last = obs[config.current_idx as int];
    &&& can_add(last, volume1, volume2)
    &&& (block_timestamp != last.block_timestamp ==> config.counter < u64::MAX)
}

/// Writes an observation of `volume1` and `volume2` at `block_timestamp` (nanoseconds);
/// returns where it stands.
fn write(
    config: &mut Config,
    obs: &mut Vec<Observation>,
    block_timestamp: u64,
    volume1: u128,
    volume2: u128,
) -> (r: u64)
    requires
        ring_ok(*old(config), old(obs)@),
        can_write(*old(config), old(obs)@, block_timestamp, volume1, volume2),
    ensures
        (*final(config), final(obs)@) == written(
            *old(config),
            old(obs)@,
            block_timestamp,
            volume1,
            volume2,
        ),
        r == final(config).current_idx,
        ring_ok(*final(config), final(obs)@),
{
    let n = obs.len();
    let cur = config.current_idx as usize;
    let last = obs[cur];
    if block_timestamp == last.block_timestamp {
        let new_obs = transform(&last, block_timestamp, volume1, volume2);
        obs.set(cur, new_obs);
        return config.current_idx;
    }
    if config.current_idx + 1 >= config.max_length {
        config.pivoted = true;
        config.current_idx = 0;
    } else {
        config.current_idx = config.current_idx + 1;
    }
    config.counter = config.counter + 1;
    let new_obs = transform(&last, block_timestamp, volume1, volume2);
    let i = config.current_idx as usize;
    if i == obs.len() {
        obs.push(new_obs);
    } else {
        obs.set(i, new_obs);
    }
    config.current_idx
}

/// The first observation: one observation, of `volume1` and `volume2`, at `now`.
pub open spec fn first_observation(now: u64, volume1: u128, volume2: u128) -> Observation {
    Observation { block_timestamp: now, num_of_observations: 1, volume1, volume2 }
}

/// The tracked contract (`sender`) logs the volumes it traded at `now` (nanoseconds).
/// `NotContract`, with nothing changed, where `sender` is another address.
pub fn execute_log_observation(
    config: &mut Config,
    obs: &mut Vec<Observation>,
    sender: &String,
    now: u64,
    volume1: u128,
    volume2: u128,
) -> (r: Result<(), ContractError>)
    requires
        state_ok(*old(config), old(obs)@),
        !old(config).is_new ==> can_write(*old(config), old(obs)@, now, volume1, volume2),
    ensures
        r is Err <==> sender@ != old(config).contract_address@,
        r matches Err(e) ==> e == ContractError::NotContract && *final(config) == *old(config)
            && final(obs)@ == old(obs)@,
        r is Ok ==> state_ok(*final(config), final(obs)@) && !final(config).is_new,
        r is Ok && old(config).is_new ==> {
            &&& *final(config) == (Config { is_new: false, ..*old(config) })
            &&& final(obs)@ == if old(obs)@.len() == 0 {
                old(obs)@.push(first_observation(now, volume1, volume2))
            } else {
                old(obs)@.update(0, first_observation(now, volume1, volume2))
            }
        },
        r is Ok && !old(config).is_new ==> (*final(config), final(obs)@) == written(
            *old(config),
            old(obs)@,
            now,
            volume1,
            volume2,
        ),
        oracle_ok(*old(config), old(obs)@) && (!old(config).is_new ==> now >= old(
            obs,
        )@[old(config).current_idx as int].block_timestamp) ==> oracle_ok(
            *final(config),
            final(obs)@,
        ),
{
    proof {
        if oracle_ok(*config, obs@) {
            if config.is_new {
                lemma_first_observation_oracle_ok(*config, obs@, now, volume1, volume2);
            } else if now >= obs@[config.current_idx as int].block_timestamp {
                lemma_write_keeps_oracle_ok(*config, obs@, now, volume1, volume2);
            }
        }
    }
    if *sender != config.contract_address {
        return Err(ContractError::NotContract);
    }
    if config.is_new {
        let first = Observation {
            block_timestamp: now,
            volume1,
            volume2,
            num_of_observations: 1,
        };
        config.is_new = false;
        if obs.len() == 0 {
            obs.push(first);
        } else {
            obs.set(0, first);
        }
    } else {
        write(config, obs, now, volume1, volume2);
    }
    Ok(())
}

/// The admin (`sender`) sets the contract whose volumes are tracked; `NotAdmin`, with
/// nothing changed, where `sender` is another address.
pub fn execute_set_contract(config: &mut Config, sender: &String, address: String) -> (r: Result<
    (),
    ContractError,
>)
    ensures
        r is Err <==> sender@ != old(config).admin@,
        r matches Err(e) ==> e == ContractError::NotAdmin && *final(config) == *old(config),
        r is Ok ==> *final(config) == (Config { contract_address: address, ..*old(config) }),
{
    if *sender != config.admin {
        return Err(ContractError::NotAdmin);
    }
    config.contract_address = address;
    Ok(())
}

/// The first index in `lo..hi` whose observation is at or after `ts`; `hi` where none is.
pub open spec fn lower_bound(obs: Seq<Observation>, lo: int, hi: int, ts: u64) -> int
    decreases hi - lo,
{
    if lo >= hi {
        hi
    } else if ts <= obs[lo].block_timestamp {
        lo
    } else {
        lower_bound(obs, lo + 1, hi, ts)
    }
}

/// The timestamps in `lo..hi` do not decrease.
pub open spec fn sorted_between(obs: Seq<Observation>, lo: int, hi: int) -> bool {
    forall|i: int, j: int|
        lo <= i <= j < hi ==> #[trigger] obs[i].block_timestamp <= #[trigger] obs[j].block_timestamp
}

/// An index before which every timestamp is earlier than `ts`, and at which (if in
/// range) it is not, is the lower bound.
proof fn lemma_lower_bound_is(obs: Seq<Observation>, lo: int, hi: int, ts: u64, i: int)
    requires
        lo <= i <= hi,
        forall|j: int| lo <= j < i ==> #[trigger] obs[j].block_timestamp < ts,
        i < hi ==> ts <= obs[i].block_timestamp,
    ensures
        lower_bound(obs, lo, hi, ts) == i,
    decreases i - lo,
{
    if i > lo {
        assert(obs[lo].block_timestamp < ts);
        lemma_lower_bound_is(obs, lo + 1, hi, ts, i);
    }
}

/// Binary search for the lower bound of `ts` in the sorted range `lo..hi`.
fn search_range(obs: &Vec<Observation>, lo: u64, hi: u64, ts: u64) -> (r: u64)
    requires
        lo <= hi <= obs@.len(),
        sorted_between(obs@, lo as int, hi as int),
    ensures
        r == lower_bound(obs@, lo as int, hi as int, ts),
        lo <= r <= hi,
        forall|j: int| lo <= j < r ==> #[trigger] obs@[j].block_timestamp < ts,
        r < hi ==> ts <= obs@[r as int].block_timestamp,
{
    let n = obs.len();
    let mut start = lo;
    let mut end = hi;
    while start < end
        invariant
            lo <= start <= end <= hi <= obs@.len(),
            n == obs@.len(),
            sorted_between(obs@, lo as int, hi as int),
            forall|j: int| lo <= j < start ==> #[trigger] obs@[j].block_timestamp < ts,
            forall|j: int| end <= j < hi ==> ts <= #[trigger] obs@[j].block_timestamp,
        decreases end - start,
    {
        let mid = start + (end - start) / 2;
        let m = obs[mid as usize].block_timestamp;
        if ts <= m {
            assert forall|j: int| mid <= j < hi implies ts <= #[trigger] obs@[j].block_timestamp by {
                if j < end {
                    assert(obs@[mid as int].block_timestamp <= obs@[j].block_timestamp);
                }
            }
            end = mid;
        } else {
            assert forall|j: int| lo <= j < mid + 1 implies #[trigger] obs@[j].block_timestamp < ts by {
                if j >= start {
                    assert(obs@[j].block_timestamp <= obs@[mid as int].block_timestamp);
                }
            }
            start = mid + 1;
        }
    }
    proof {
        lemma_lower_bound_is(obs@, lo as int, hi as int, ts, start as int);
    }
    start
}

/// How many slots of the ring hold observations once it has wrapped around.
pub open spec fn filled(config: Config) -> int {
    if config.max_length < config.counter {
        config.max_length as int
    } else {
        config.counter as int
    }
}

/// The ring can be searched: the latest observation is stored, the observations up to it
/// are in time order, and so are those after it (the older ones, once the ring wrapped).
pub open spec fn searchable(config: Config, obs: Seq<Observation>) -> bool {
    &&& config.current_idx < obs.len()
    &&& sorted_between(obs, 0, config.current_idx + 1)
    &&& config.pivoted ==> filled(config) <= obs.len() && sorted_between(
        obs,
        config.current_idx + 1,
        filled(config),
    )
}

/// Where the first observation at or after `ts` stands: searched among the observations
/// up to the latest and, where none before it qualifies and the ring may have wrapped,
/// among the older ones after it.
pub open spec fn search_spec(config: Config, obs: Seq<Observation>, ts: u64) -> int {
    let r1 = lower_bound(obs, 0, config.current_idx + 1, ts);
    if config.pivoted && r1 == 0 {
        let r2 = lower_bound(obs, config.current_idx + 1, filled(config), ts);
        if r2 >= filled(config) {
            0
        } else {
            r2
        }
    } else {
        r1
    }
}

/// The index of the first observation at or after `block_timestamp`, which must not be
/// later than the latest observation.
pub fn binary_search(config: &Config, obs: &Vec<Observation>, block_timestamp: u64) -> (r: u64)
    requires
        searchable(*config, obs@),
        block_timestamp <= obs@[config.current_idx as int].block_timestamp,
    ensures
        r == search_spec(*config, obs@, block_timestamp),
        r < obs@.len(),
{
    let n = obs.len();
    let r1 = search_range(obs, 0, config.current_idx + 1, block_timestamp);
    if config.pivoted && r1 == 0 {
        let m = if config.max_length < config.counter {
            config.max_length
        } else {
            config.counter
        };
        let r2 = if config.current_idx + 1 <= m {
            search_range(obs, config.current_idx + 1, m, block_timestamp)
        } else {
            m
        };
        if r2 >= m {
            0
        } else {
            r2
        }
    } else {
        r1
    }
}

/// The total volume up to `now`: the latest observation where `now` is after it, else
/// the first observation at or after `now`.
pub fn query_total_volume(config: &Config, obs: &Vec<Observation>, now: u64) -> (r: Observation)
    requires
        searchable(*config, obs@),
    ensures
        ({
            let last = obs@[config.current_idx as int];
            r == if now > last.block_timestamp {
                last
            } else {
                obs@[search_spec(*config, obs@, now)]
            }
        }),
{
    let n = obs.len();
    let last = obs[config.current_idx as usize];
    if now > last.block_timestamp {
        return last;
    }
    let i = binary_search(config, obs, now);
    obs[i as usize]
}

/// The total volume at `timestamp`: the first observation at or after it.
pub fn query_total_volume_at(config: &Config, obs: &Vec<Observation>, timestamp: u64) -> (r: Observation)
    requires
        searchable(*config, obs@),
        timestamp <= obs@[config.current_idx as int].block_timestamp,
    ensures
        r == obs@[search_spec(*config, obs@, timestamp)],
{
    let n = obs.len();
    let i = binary_search(config, obs, timestamp);
    obs[i as usize]
}

/// No stored observation counts more, or later, than the latest one.
pub open spec fn latest_is_largest(config: Config, obs: Seq<Observation>) -> bool {
    let last = obs[config.current_idx as int];
    forall|i: int|
        0 <= i < obs.len() ==> {
            &&& #[trigger] obs[i].block_timestamp <= last.block_timestamp
            &&& obs[i].num_of_observations <= last.num_of_observations
            &&& obs[i].volume1 <= last.volume1
            &&& obs[i].volume2 <= last.volume2
        }
}

/// The volume of the last day: the latest observation less the one just before the
/// first observation of the day (all of it, where that is the first stored).
pub fn query_volume_24(config: &Config, obs: &Vec<Observation>) -> (r: Observation)
    requires
        searchable(*config, obs@),
        latest_is_largest(*config, obs@),
    ensures
        ({
            let last = obs@[config.current_idx as int];
            let since = if last.block_timestamp >= TIME_24H {
                (last.block_timestamp - TIME_24H) as u64
            } else {
                last.block_timestamp
            };
            let left = search_spec(*config, obs@, since);
            let prev = obs@[left - 1];
            r == if left == 0 {
                last
            } else {
                Observation {
                    num_of_observations: (last.num_of_observations
                        - prev.num_of_observations) as u64,
                    block_timestamp: (last.block_timestamp - prev.block_timestamp) as u64,
                    volume1: (last.volume1 - prev.volume1) as u128,
                    volume2: (last.volume2 - prev.volume2) as u128,
                }
            }
        }),
{
    let n = obs.len();
    let current = obs[config.current_idx as usize];
    let since = if current.block_timestamp >= TIME_24H {
        current.block_timestamp - TIME_24H
    } else {
        current.block_timestamp
    };
    let left = binary_search(config, obs, since);
    if left == 0 {
        return current;
    }
    let prev = obs[(left - 1) as usize];
    assert(obs@[left - 1].block_timestamp <= current.block_timestamp);
    Observation {
        num_of_observations: current.num_of_observations - prev.num_of_observations,
        block_timestamp: current.block_timestamp - prev.block_timestamp,
        volume1: current.volume1 - prev.volume1,
        volume2: current.volume2 - prev.volume2,
    }
}

/// `a` comes no later than `b` and counts no more in any counter.
pub open spec fn obs_le(a: Observation, b: Observation) -> bool {
    &&& a.block_timestamp <= b.block_timestamp
    &&& a.num_of_observations <= b.num_of_observations
    &&& a.volume1 <= b.volume1
    &&& a.volume2 <= b.volume2
}

/// Each observation of `s` comes no later, and counts no more, than those after it.
pub open spec fn in_time_order(s: Seq<Observation>) -> bool {
    forall|i: int, j: int| 0 <= i <= j < s.len() ==> obs_le(#[trigger] s[i], #[trigger] s[j])
}

/// The stored observations in the order they were logged: the older ones after the
/// latest (where the ring wrapped around), then those up to the latest.
pub open spec fn chronological(config: Config, obs: Seq<Observation>) -> Seq<Observation> {
    let cur = config.current_idx as int;
    if filled(config) > cur + 1 {
        obs.subrange(cur + 1, filled(config)) + obs.subrange(0, cur + 1)
    } else {
        obs.subrange(0, cur + 1)
    }
}

/// The shapes the ring takes as observations are logged: still filling up (the latest
/// is the last stored, one write after the first per slot), wrapped around (every slot
/// used), or a ring of length zero holding one observation.
pub open spec fn ring_shape(config: Config, obs: Seq<Observation>) -> bool {
    let cur = config.current_idx as int;
    ||| cur + 1 == obs.len() && config.counter == cur
    ||| obs.len() == config.max_length && config.counter >= config.max_length && cur < obs.len()
    ||| config.max_length == 0 && obs.len() == 1 && cur == 0
}

/// The oracle's state as logging leaves it: before the first observation nothing is
/// counted; after it the ring has one of its shapes and the observations, read in the
/// order they were logged, are in time order with growing counters.
pub open spec fn oracle_ok(config: Config, obs: Seq<Observation>) -> bool {
    if config.is_new {
        config.current_idx == 0 && config.counter == 0 && obs.len() <= 1
    } else {
        &&& ring_ok(config, obs)
        &&& ring_shape(config, obs)
        &&& in_time_order(chronological(config, obs))
    }
}

proof fn lemma_in_time_order_push(s: Seq<Observation>, x: Observation)
    requires
        in_time_order(s),
        s.len() > 0 ==> obs_le(s.last(), x),
    ensures
        in_time_order(s.push(x)),
{
    assert forall|i: int, j: int| 0 <= i <= j < s.push(x).len() implies obs_le(
        #[trigger] s.push(x)[i],
        #[trigger] s.push(x)[j],
    ) by {
        if j == s.len() && i < s.len() {
            assert(obs_le(s[i], s[s.len() - 1]));
        }
    }
}

proof fn lemma_in_time_order_subrange(s: Seq<Observation>, a: int, b: int)
    requires
        in_time_order(s),
        0 <= a <= b <= s.len(),
    ensures
        in_time_order(s.subrange(a, b)),
{
    assert forall|i: int, j: int| 0 <= i <= j < s.subrange(a, b).len() implies obs_le(
        #[trigger] s.subrange(a, b)[i],
        #[trigger] s.subrange(a, b)[j],
    ) by {
        assert(obs_le(s[a + i], s[a + j]));
    }
}

/// The latest observation ends the logged order.
proof fn lemma_chronological_last(config: Config, obs: Seq<Observation>)
    requires
        ring_ok(config, obs),
        ring_shape(config, obs),
    ensures
        chronological(config, obs).len() > 0,
        chronological(config, obs).last() == obs[config.current_idx as int],
        filled(config) <= obs.len(),
{
}

/// An oracle in its logged state can be queried: the ring can be searched and no stored
/// observation counts more than the latest.
pub proof fn lemma_oracle_ok_queries(config: Config, obs: Seq<Observation>)
    requires
        oracle_ok(config, obs),
        !config.is_new,
    ensures
        searchable(config, obs),
        latest_is_largest(config, obs),
{
    let cur = config.current_idx as int;
    let c = chronological(config, obs);
    let k = if filled(config) > cur + 1 {
        filled(config) - (cur + 1)
    } else {
        0
    };
    assert forall|i: int| 0 <= i <= cur implies #[trigger] obs[i] == c[k + i] by {}
    assert forall|i: int| cur + 1 <= i < filled(config) implies #[trigger] obs[i] == c[i - (cur + 1)] by {}
    lemma_chronological_last(config, obs);
    assert(c.last() == c[k + cur]);
    assert forall|i: int, j: int| 0 <= i <= j < cur + 1 implies #[trigger] obs[i].block_timestamp
        <= #[trigger] obs[j].block_timestamp by {
        assert(obs_le(c[k + i], c[k + j]));
    }
    assert forall|i: int, j: int|
        cur + 1 <= i <= j < filled(config) implies #[trigger] obs[i].block_timestamp
        <= #[trigger] obs[j].block_timestamp by {
        assert(obs_le(c[i - (cur + 1)], c[j - (cur + 1)]));
    }
    assert forall|i: int| 0 <= i < obs.len() implies obs_le(#[trigger] obs[i], obs[cur]) by {
        if i <= cur {
            assert(obs_le(c[k + i], c[k + cur]));
        } else {
            assert(i < filled(config));
            assert(obs_le(c[i - (cur + 1)], c[k + cur]));
        }
    }
}

/// A write at a timestamp not before the latest keeps the oracle in its logged state.
pub proof fn lemma_write_keeps_oracle_ok(
    config: Config,
    obs: Seq<Observation>,
    block_timestamp: u64,
    volume1: u128,
    volume2: u128,
)
    requires
        oracle_ok(config, obs),
        !config.is_new,
        can_write(config, obs, block_timestamp, volume1, volume2),
        block_timestamp >= obs[config.current_idx as int].block_timestamp,
    ensures
        oracle_ok(
            written(config, obs, block_timestamp, volume1, volume2).0,
            written(config, obs, block_timestamp, volume1, volume2).1,
        ),
{
    let cur = config.current_idx as int;
    let last = obs[cur];
    let new = transformed(last, block_timestamp, volume1, volume2);
    let c = chronological(config, obs);
    let (config2, obs2) = written(config, obs, block_timestamp, volume1, volume2);
    let c2 = chronological(config2, obs2);
    lemma_chronological_last(config, obs);
    assert(obs_le(last, new));
    if block_timestamp == last.block_timestamp {
        assert(c2 =~= c.drop_last().push(new));
        lemma_in_time_order_subrange(c, 0, c.len() - 1);
        assert(c.drop_last() =~= c.subrange(0, c.len() - 1));
        if c.len() > 1 {
            assert(obs_le(c[c.len() - 2], c[c.len() - 1]));
        }
        lemma_in_time_order_push(c.drop_last(), new);
    } else {
        let len = obs.len() as int;
        let i = next_index(config.current_idx, config.max_length) as int;
        if cur + 1 == len && config.counter == cur && cur + 1 < config.max_length {
            assert(c =~= obs);
            assert(c2 =~= c.push(new));
            lemma_in_time_order_push(c, new);
        } else {
            assert(c2 =~= c.drop_first().push(new));
            lemma_in_time_order_subrange(c, 1, c.len() as int);
            assert(c.drop_first() =~= c.subrange(1, c.len() as int));
            if c.len() > 1 {
                assert(obs_le(c[c.len() - 1], new));
                assert(c.drop_first().last() == c.last());
            }
            lemma_in_time_order_push(c.drop_first(), new);
        }
    }
}

/// The first observation puts a new oracle in its logged state.
pub proof fn lemma_first_observation_oracle_ok(
    config: Config,
    obs: Seq<Observation>,
    now: u64,
    volume1: u128,
    volume2: u128,
)
    requires
        oracle_ok(config, obs),
        config.is_new,
    ensures
        oracle_ok(
            Config { is_new: false, ..config },
            if obs.len() == 0 {
                obs.push(first_observation(now, volume1, volume2))
            } else {
                obs.update(0, first_observation(now, volume1, volume2))
            },
        ),
{
    let config2 = Config { is_new: false, ..config };
    let obs2 = if obs.len() == 0 {
        obs.push(first_observation(now, volume1, volume2))
    } else {
        obs.update(0, first_observation(now, volume1, volume2))
    };
    assert(chronological(config2, obs2) =~= seq![first_observation(now, volume1, volume2)]);
}

} // verus!
