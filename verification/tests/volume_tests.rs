use side_contracts::volume::contract::{
    binary_search, execute_log_observation, execute_set_contract, instantiate,
    query_total_volume, query_total_volume_at, query_volume_24, transform, ContractError,
    TIME_24H,
};
use side_contracts::volume::state::Observation;

fn obs(ts: u64, n: u64, v1: u128, v2: u128) -> Observation {
    Observation { block_timestamp: ts, num_of_observations: n, volume1: v1, volume2: v2 }
}

#[test]
fn transform_accumulates() {
    let last = obs(10, 3, 100, 200);
    assert_eq!(transform(&last, 20, 5, 7), obs(20, 4, 105, 207));
}

#[test]
fn logging_fills_the_ring_and_wraps() {
    let mut config = instantiate("admin".to_string(), "pool".to_string(), 3);
    let mut ring: Vec<Observation> = Vec::new();
    let pool = "pool".to_string();
    assert_eq!(
        execute_log_observation(&mut config, &mut ring, &"other".to_string(), 1, 1, 1).unwrap_err(),
        ContractError::NotContract
    );
    assert!(ring.is_empty());

    execute_log_observation(&mut config, &mut ring, &pool, 100, 10, 1).unwrap();
    assert_eq!(ring, vec![obs(100, 1, 10, 1)]);
    assert!(!config.is_new);

    // Same timestamp: the latest observation absorbs the volume.
    execute_log_observation(&mut config, &mut ring, &pool, 100, 5, 1).unwrap();
    assert_eq!(ring, vec![obs(100, 2, 15, 2)]);

    execute_log_observation(&mut config, &mut ring, &pool, 200, 5, 0).unwrap();
    execute_log_observation(&mut config, &mut ring, &pool, 300, 5, 0).unwrap();
    assert_eq!(ring.len(), 3);
    assert_eq!(config.current_idx, 2);
    // The ring is full: the next one overwrites the first slot.
    execute_log_observation(&mut config, &mut ring, &pool, 400, 5, 0).unwrap();
    assert_eq!(config.current_idx, 0);
    assert_eq!(config.counter, 3);
    assert_eq!(ring[0], obs(400, 5, 30, 2));
    assert_eq!(ring.len(), 3);
}

#[test]
fn search_finds_the_first_observation_at_or_after() {
    let mut config = instantiate("admin".to_string(), "pool".to_string(), 10);
    let mut ring: Vec<Observation> = Vec::new();
    let pool = "pool".to_string();
    for (i, ts) in [100u64, 200, 300, 400].iter().enumerate() {
        execute_log_observation(&mut config, &mut ring, &pool, *ts, 10 * (i as u128 + 1), 1).unwrap();
    }
    assert_eq!(binary_search(&config, &ring, 150), 1);
    assert_eq!(binary_search(&config, &ring, 200), 1);
    assert_eq!(binary_search(&config, &ring, 50), 0);
    assert_eq!(binary_search(&config, &ring, 400), 3);
    assert_eq!(query_total_volume_at(&config, &ring, 250), ring[2]);
    assert_eq!(query_total_volume(&config, &ring, 1_000), ring[3]);
    assert_eq!(query_total_volume(&config, &ring, 300), ring[2]);
}

#[test]
fn search_looks_among_older_observations_after_a_wrap() {
    let mut config = instantiate("admin".to_string(), "pool".to_string(), 3);
    let mut ring: Vec<Observation> = Vec::new();
    let pool = "pool".to_string();
    for ts in [100u64, 200, 300, 400] {
        execute_log_observation(&mut config, &mut ring, &pool, ts, 1, 1).unwrap();
    }
    // Slot 0 holds 400, slots 1 and 2 the older 200 and 300.
    assert_eq!(binary_search(&config, &ring, 250), 2);
    assert_eq!(binary_search(&config, &ring, 150), 1);
    assert_eq!(binary_search(&config, &ring, 350), 0);
}

#[test]
fn volume_of_the_last_day() {
    let mut config = instantiate("admin".to_string(), "pool".to_string(), 10);
    let mut ring: Vec<Observation> = Vec::new();
    let pool = "pool".to_string();
    execute_log_observation(&mut config, &mut ring, &pool, 1_000, 10, 20).unwrap();
    execute_log_observation(&mut config, &mut ring, &pool, 2_000, 10, 20).unwrap();
    execute_log_observation(&mut config, &mut ring, &pool, 2_000 + TIME_24H, 7, 8).unwrap();
    // The day starts at 2_000: everything after the first observation counts.
    assert_eq!(query_volume_24(&config, &ring), obs(TIME_24H + 1_000, 2, 17, 28));
    // Within the first day everything counts.
    let mut fresh = instantiate("admin".to_string(), "pool".to_string(), 10);
    let mut ring2: Vec<Observation> = Vec::new();
    execute_log_observation(&mut fresh, &mut ring2, &pool, 1_000, 10, 20).unwrap();
    assert_eq!(query_volume_24(&fresh, &ring2), ring2[0]);
}

#[test]
fn only_the_admin_sets_the_contract() {
    let mut config = instantiate("admin".to_string(), "pool".to_string(), 10);
    assert_eq!(
        execute_set_contract(&mut config, &"pool".to_string(), "x".to_string()).unwrap_err(),
        ContractError::NotAdmin
    );
    execute_set_contract(&mut config, &"admin".to_string(), "x".to_string()).unwrap();
    assert_eq!(config.contract_address, "x");
}
