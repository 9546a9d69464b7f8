//! The state transition of the beacon chain: slots, epochs and blocks, with the roots,
//! signatures and encodings that bind them, stated over mathematical models and proved.

pub mod config;
pub mod primitives;
pub mod error;
pub mod math;
pub mod types;
pub mod crypto;
pub mod merkle;
pub mod roots;
pub mod beacon_state;
pub mod limits;
pub mod accessors;
pub mod shuffling;
pub mod proposer;
pub mod committee;
pub mod attesters;
pub mod predicates;
pub mod justification;
pub mod rewards;
pub mod registry;
pub mod slashings;
pub mod final_updates;
pub mod epoch;
pub mod block_processing;
pub mod penalties;
pub mod proposer_slashing;
pub mod attester_slashing;
pub mod attestation;
pub mod deposit;
pub mod voluntary_exit;
pub mod process_slot;
pub mod codec;
pub mod containers;
pub mod frame;
pub mod sequences;
pub mod bits;
pub mod encodings;
pub mod laws;
