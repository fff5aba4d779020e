use emilydotgg_random::generator::Generator;
use emilydotgg_random::level::Level;
use emilydotgg_random::save::{LoadError, PluginInputs, SaveState};

fn sample() -> SaveState {
    SaveState::Ver1 {
        inputs: PluginInputs { seed: 1, speed: 0x0203, test_val: u64::MAX },
        generators: vec![
            Generator::Random,
            Generator::RandomInter {
                target_value: Level { bits: 0.5f32.to_bits() },
                target_tick: 9,
                initial_value: Level { bits: 0.25f32.to_bits() },
                initial_tick: 7,
            },
        ],
    }
}

const SAMPLE_BYTES: [u8; 68] = [
    0, 0, 0, 0, // version
    1, 0, 0, 0, 0, 0, 0, 0, // seed
    3, 2, 0, 0, 0, 0, 0, 0, // speed
    255, 255, 255, 255, 255, 255, 255, 255, // test value
    2, 0, 0, 0, 0, 0, 0, 0, // number of generators
    0, 0, 0, 0, // a jumping one
    1, 0, 0, 0, // an interpolating one
    0, 0, 0, 0x3f, // target level
    9, 0, 0, 0, 0, 0, 0, 0, // target tick
    0, 0, 0x80, 0x3e, // initial level
    7, 0, 0, 0, 0, 0, 0, 0, // initial tick
];

fn parts(state: SaveState) -> (PluginInputs, Vec<Generator>) {
    match state {
        SaveState::Ver1 { inputs, generators } => (inputs, generators),
    }
}

#[test]
fn default_inputs_are_zero() {
    assert_eq!(
        PluginInputs::default(),
        PluginInputs { seed: 0, speed: 0, test_val: 0 }
    );
}

#[test]
fn saved_bytes_are_laid_out() {
    assert_eq!(sample().to_bytes(), SAMPLE_BYTES.to_vec());
}

#[test]
fn levels_are_saved_as_single_precision_numbers() {
    let value = (
        (0u32, 1u64, 0x0203u64, u64::MAX),
        2u64,
        0u32,
        (1u32, 0.5f32, 9u64, 0.25f32, 7u64),
    );
    assert_eq!(bincode::serialize(&value).unwrap(), SAMPLE_BYTES.to_vec());
}

#[test]
fn empty_state_is_saved() {
    let state = SaveState::Ver1 {
        inputs: PluginInputs { seed: 0, speed: 0, test_val: 0 },
        generators: vec![],
    };
    assert_eq!(state.to_bytes(), vec![0; 36]);
}

#[test]
fn saved_state_reads_back() {
    let read = SaveState::from_bytes(&sample().to_bytes()).unwrap();
    assert_eq!(parts(read), parts(sample()));
}

#[test]
fn what_follows_a_saved_state_is_not_read() {
    let mut bytes = SAMPLE_BYTES.to_vec();
    bytes.extend_from_slice(&[1, 2, 3]);
    let read = SaveState::from_bytes(&bytes).unwrap();
    assert_eq!(parts(read), parts(sample()));
}

#[test]
fn every_cut_is_malformed() {
    for length in 0..SAMPLE_BYTES.len() {
        assert_eq!(
            SaveState::from_bytes(&SAMPLE_BYTES[..length]).err(),
            Some(LoadError::Malformed),
            "{length}"
        );
    }
}

#[test]
fn unknown_generators_are_malformed() {
    let mut bytes = SAMPLE_BYTES.to_vec();
    bytes[36] = 2;
    assert_eq!(SaveState::from_bytes(&bytes).err(), Some(LoadError::Malformed));
}

#[test]
fn excessive_counts_are_malformed() {
    let mut bytes = SAMPLE_BYTES.to_vec();
    bytes[35] = 255;
    assert_eq!(SaveState::from_bytes(&bytes).err(), Some(LoadError::Malformed));
}

#[test]
fn other_versions_are_unknown() {
    let mut bytes = SAMPLE_BYTES.to_vec();
    bytes[0] = 1;
    assert_eq!(
        SaveState::from_bytes(&bytes).err(),
        Some(LoadError::UnknownVersion)
    );
}
