use beacon_transition::beacon_state::BeaconState;
use beacon_transition::config::Config;
use beacon_transition::process_slot::process_slots;

#[test]
fn process_good_slot() {
    let config = Config::mainnet();
    let mut bs = BeaconState {
        ..BeaconState::default(&config)
    };

    process_slots(&mut bs, 1, &config);

    assert_eq!(bs.slot, 1);
}

#[test]
fn process_good_slot_2() {
    let config = Config::mainnet();
    let mut bs = BeaconState {
        slot: 3,
        ..BeaconState::default(&config)
    };

    process_slots(&mut bs, 4, &config);
    assert_eq!(bs.slot, 4);
}
