use emilydotgg_random::generator::{Generator, GeneratorType, Reading};
use emilydotgg_random::level::Level;
use emilydotgg_random::save::{LoadError, PluginInputs};
use emilydotgg_random::shared::{resolve, PluginShared, DEFAULT_SPEED};
use emilydotgg_random::time::Timestamp;
use emilydotgg_random::ui::UIMessage;

fn level(value: f32) -> Level {
    Level { bits: value.to_bits() }
}

fn way(initial: f32, initial_tick: u64, target: f32, target_tick: u64) -> Generator {
    Generator::RandomInter {
        target_value: level(target),
        target_tick,
        initial_value: level(initial),
        initial_tick,
    }
}

fn between(initial: f32, target: f32, elapsed: u64, span: u64) -> Reading {
    Reading::Between { initial: level(initial), target: level(target), elapsed, span }
}

#[test]
fn new_state() {
    let shared = PluginShared::new(10);
    assert_eq!(
        shared.inputs,
        PluginInputs { seed: 0, speed: DEFAULT_SPEED, test_val: 0 }
    );
    assert_eq!(DEFAULT_SPEED, 400);
    assert!(shared.controller_values.is_none());
    assert_eq!(shared.generators, vec![way(0.0, 0, 0.0, 1); 10]);
    assert!(!shared.tick_happened);
    assert_eq!(shared.tick, 1);
    assert!(!shared.editor_visible);
}

#[test]
fn ticks_are_reported_once() {
    let mut shared = PluginShared::new(1);
    assert!(!shared.take_tick());
    shared.tick();
    shared.tick();
    assert!(shared.take_tick());
    assert!(!shared.take_tick());
    assert_eq!(shared.tick, 3);
}

#[test]
fn first_generation_draws_for_every_interpolating_generator() {
    let mut shared = PluginShared::new(2);
    assert!(shared.ready());
    assert_eq!(shared.draws_needed(), 2);
    let generation = shared.generate(&vec![level(0.5), level(0.25)]);
    assert_eq!(
        generation.readings,
        vec![(0, between(0.0, 0.5, 0, 400)), (1, between(0.0, 0.25, 0, 400))]
    );
    assert_eq!(generation.shown, vec![(0, level(0.5)), (1, level(0.25))]);
    assert_eq!(shared.generators, vec![way(0.0, 1, 0.5, 401), way(0.0, 1, 0.25, 401)]);
    shared.tick();
    assert_eq!(shared.draws_needed(), 0);
    let generation = shared.generate(&vec![]);
    assert_eq!(
        generation.readings,
        vec![(0, between(0.0, 0.5, 1, 400)), (1, between(0.0, 0.25, 1, 400))]
    );
    assert!(generation.shown.is_empty());
}

#[test]
fn draws_go_in_turn_to_those_that_need_one() {
    let mut shared = PluginShared::new(0);
    shared.tick = 20;
    shared.inputs.speed = 10;
    shared.generators = vec![
        way(0.1, 15, 0.2, 25),
        Generator::Random,
        way(0.3, 10, 0.4, 20),
        Generator::Random,
    ];
    assert_eq!(shared.draws_needed(), 3);
    let generation = shared.generate(&vec![level(0.6), level(0.7), level(0.8)]);
    assert_eq!(
        generation.readings,
        vec![
            (0, between(0.1, 0.2, 5, 10)),
            (1, Reading::Exact(level(0.6))),
            (2, between(0.4, 0.7, 0, 10)),
            (3, Reading::Exact(level(0.8))),
        ]
    );
    assert_eq!(
        generation.shown,
        vec![(1, level(0.6)), (2, level(0.7)), (3, level(0.8))]
    );
    assert_eq!(
        shared.generators,
        vec![
            way(0.1, 15, 0.2, 25),
            Generator::Random,
            way(0.4, 20, 0.7, 30),
            Generator::Random,
        ]
    );
}

#[test]
fn jumping_generators_rest_off_speed_ticks() {
    let mut shared = PluginShared::new(3);
    shared.change_generators(GeneratorType::Random);
    shared.tick = 401;
    assert_eq!(shared.draws_needed(), 0);
    let generation = shared.generate(&vec![]);
    assert!(generation.readings.is_empty());
    assert!(generation.shown.is_empty());
    shared.tick = 800;
    assert_eq!(shared.draws_needed(), 3);
}

#[test]
fn speed_of_zero_counts_as_one() {
    let mut shared = PluginShared::new(1);
    shared.inputs.speed = 0;
    shared.tick = 5;
    assert_eq!(shared.draws_needed(), 1);
    shared.generate(&vec![level(0.5)]);
    assert_eq!(shared.inputs.speed, 1);
    assert_eq!(shared.generators, vec![way(0.0, 5, 0.5, 6)]);
}

#[test]
fn generations_need_room_in_the_tick_count() {
    let mut shared = PluginShared::new(1);
    shared.inputs.speed = u64::MAX;
    assert!(!shared.ready());
    shared.inputs.speed = u64::MAX - 1;
    assert!(shared.ready());
}

#[test]
fn published_values_are_told_once() {
    let mut shared = PluginShared::new(2);
    let time = Timestamp { secs: 1, nanos: 2 };
    assert!(shared.publish(vec![(0, level(0.75))], vec![], time).is_none());
    assert!(shared
        .publish(vec![(0, level(0.5)), (1, level(0.25))], vec![], time)
        .is_none());
    assert_eq!(shared.tick(), vec![(0, 2048 << 32), (1, 1024 << 32)]);
    assert_eq!(shared.tick(), vec![]);
}

#[test]
fn visible_editor_gets_what_there_is_to_draw() {
    let mut shared = PluginShared::new(2);
    shared.editor_visible = true;
    let time = Timestamp { secs: 1, nanos: 2 };
    match shared.publish(vec![], vec![(1, level(0.5))], time) {
        Some(UIMessage::UpdateControllers((at, shown))) => {
            assert_eq!(at, time);
            assert_eq!(shown, vec![(1, level(0.5))]);
        }
        other => panic!("{other:?}"),
    }
}

#[test]
fn tick_count_starts_over() {
    let mut shared = PluginShared::new(0);
    shared.tick = u64::MAX;
    shared.tick();
    assert_eq!(shared.tick, 0);
}

#[test]
fn generators_change_all_at_once() {
    let mut shared = PluginShared::new(3);
    shared.change_generators(GeneratorType::Random);
    assert_eq!(shared.generators, vec![Generator::Random; 3]);
    shared.change_generators(GeneratorType::RandomInter);
    assert_eq!(shared.generators, vec![way(0.0, 0, 0.0, 1); 3]);
}

#[test]
fn parameters_set_the_speed_from_midi_only() {
    let mut shared = PluginShared::new(1);
    shared.process_param(1, 65535);
    assert_eq!(shared.inputs.speed, 400);
    shared.process_param(33, 65535);
    assert_eq!(shared.inputs.speed, 600);
    shared.process_param(33 | 4, 0);
    assert_eq!(shared.inputs.speed, 0);
}

#[test]
fn loading_restores_what_was_saved() {
    let mut saved = PluginShared::new(2);
    saved.inputs = PluginInputs { seed: 3, speed: 77, test_val: 5 };
    saved.generators = vec![Generator::Random, way(0.25, 100, 0.75, 177)];
    let bytes = saved.save_state();

    let mut loaded = PluginShared::new(7);
    loaded.tick = 50;
    assert_eq!(loaded.load_state(&bytes), Ok(()));
    assert_eq!(loaded.inputs, saved.inputs);
    assert_eq!(loaded.generators, vec![Generator::Random, way(0.25, 0, 0.75, 1)]);
    assert_eq!(loaded.tick, 50);
    assert!(loaded.ready());

    let again = loaded.save_state();
    assert_eq!(loaded.load_state(&again), Ok(()));
    assert_eq!(loaded.generators, vec![Generator::Random, way(0.25, 0, 0.75, 1)]);
}

#[test]
fn failed_loading_changes_nothing() {
    let mut shared = PluginShared::new(2);
    let mut bytes = shared.save_state();
    shared.inputs.seed = 9;
    let short = bytes[..bytes.len() - 1].to_vec();
    assert_eq!(shared.load_state(&short), Err(LoadError::Malformed));
    bytes[0] = 1;
    assert_eq!(shared.load_state(&bytes), Err(LoadError::UnknownVersion));
    assert_eq!(shared.inputs.seed, 9);
    assert_eq!(shared.generators, vec![way(0.0, 0, 0.0, 1); 2]);
}

#[test]
fn levels_in_range_stay_in_range() {
    let mut shared = PluginShared::new(4);
    shared.inputs.speed = 3;
    let mut seed: u32 = 1;
    for _ in 0..1000 {
        let draws: Vec<Level> = (0..shared.draws_needed())
            .map(|_| {
                seed = seed.wrapping_mul(1664525).wrapping_add(1013904223);
                level((seed >> 9) as f32 / 8388608.0)
            })
            .collect();
        for (_, reading) in shared.generate(&draws).readings {
            match reading {
                Reading::Between { initial, target, elapsed, span } => {
                    assert!(elapsed < span);
                    for end in [initial, target] {
                        let end = f32::from_bits(end.bits);
                        assert!((0.0..1.0).contains(&end));
                    }
                }
                Reading::Exact(_) => unreachable!(),
            }
        }
        shared.tick();
    }
}

#[test]
fn readings_become_levels() {
    let interpolate = |initial: Level, target: Level, elapsed: u64, span: u64| {
        let ratio = elapsed as f32 / span as f32;
        let initial = f32::from_bits(initial.bits);
        let delta = f32::from_bits(target.bits) - initial;
        level(initial + (ratio * delta))
    };
    let readings = vec![
        (0, between(0.25, 0.75, 1, 4)),
        (2, Reading::Exact(level(0.3))),
        (5, between(0.5, 0.125, 0, 7)),
    ];
    assert_eq!(
        resolve(&readings, interpolate),
        vec![(0, level(0.375)), (2, level(0.3)), (5, level(0.5))]
    );
}

fn interpolate(initial: Level, target: Level, elapsed: u64, span: u64) -> Level {
    let (from, to) = (f32::from_bits(initial.bits), f32::from_bits(target.bits));
    level(from + (elapsed as f32 / span as f32) * (to - from))
}

#[test]
fn told_levels_stay_between_zero_and_one() {
    let mut shared = PluginShared::new(0);
    shared.inputs.speed = 7;
    shared.generators = vec![way(1.0, 0, 0.0, 5), way(0.0, 0, 1.0, 3), way(-0.0, 0, 0.3, 9)];
    for _ in 0..60 {
        let draws = vec![level(0.99999994); shared.draws_needed()];
        let generation = shared.generate(&draws);
        let values = resolve(&generation.readings, interpolate);
        assert_eq!(values.len(), 3);
        for (_, value) in values {
            assert!((0.0..=1.0).contains(&f32::from_bits(value.bits)));
        }
        shared.tick();
    }
}

#[test]
fn reached_targets_are_told_exactly() {
    let mut shared = PluginShared::new(0);
    shared.tick = 20;
    shared.inputs.speed = 10;
    shared.generators = vec![way(0.1, 10, 0.7, 20), way(0.1, 10, 0.7, 21)];
    let generation = shared.generate(&vec![level(0.2)]);
    let values = resolve(&generation.readings, interpolate);
    assert_eq!(values[0], (0, level(0.7)));
    assert_eq!(shared.generators, vec![way(0.7, 20, 0.2, 30), way(0.1, 10, 0.7, 21)]);
}

#[test]
fn loaded_generators_start_at_their_target() {
    let mut saved = PluginShared::new(0);
    saved.inputs.speed = 10;
    saved.generators = vec![way(0.1, 900, 0.7, 1000), Generator::Random];
    for tick in [1, 500, u64::MAX - 10] {
        let mut shared = PluginShared::new(4);
        assert_eq!(shared.load_state(&saved.save_state()), Ok(()));
        shared.tick = tick;
        assert!(shared.ready());
        let draws = vec![level(0.2); shared.draws_needed()];
        let generation = shared.generate(&draws);
        let values = resolve(&generation.readings, interpolate);
        assert_eq!(values[0], (0, level(0.7)));
        assert_eq!(shared.generators[0], way(0.7, tick, 0.2, tick + 10));
    }
}

#[test]
fn ways_start_where_single_precision_arithmetic_puts_them() {
    let mut bits: u32 = 0;
    loop {
        let initial = Level { bits };
        for target in [0.0, f32::from_bits(1), 0.3, 0.99999994, 1.0, -0.0, 5.0] {
            for span in [0, 1, 400, u64::MAX] {
                let reading =
                    Reading::Between { initial, target: level(target), elapsed: 0, span };
                let values = resolve(&vec![(0, reading)], interpolate);
                let expected = f32::from_bits(interpolate(initial, level(target), 0, span).bits);
                let value = f32::from_bits(values[0].1.bits);
                assert!(
                    value.to_bits() == expected.to_bits() || value.is_nan() && expected.is_nan(),
                    "{bits:#x} {target} {span}"
                );
            }
        }
        match bits.checked_add(65521) {
            Some(next) => bits = next,
            None => break,
        }
    }
    let edges = [-0.0, f32::MAX, f32::MIN, f32::INFINITY, f32::NEG_INFINITY];
    for initial in edges {
        let values = resolve(&vec![(0, between(initial, 0.5, 0, 7))], interpolate);
        let expected = interpolate(level(initial), level(0.5), 0, 7);
        let nan = f32::from_bits(expected.bits).is_nan();
        assert!(values[0].1 == expected || nan && f32::from_bits(values[0].1.bits).is_nan());
    }
}

#[test]
fn one_tick_runs_from_draws_to_told_values() {
    let mut shared = PluginShared::new(0);
    shared.tick = 20;
    shared.inputs.speed = 10;
    shared.generators = vec![way(0.25, 18, 0.75, 22), Generator::Random, way(0.1, 10, 0.5, 20)];
    let time = Timestamp { secs: 3, nanos: 4 };
    let draws = vec![level(0.125), level(0.75)];
    assert!(shared.advance(&draws, interpolate, time).is_none());
    assert_eq!(
        shared.controller_values,
        Some(vec![(0, level(0.5)), (1, level(0.125)), (2, level(0.5))])
    );
    assert_eq!(
        shared.generators,
        vec![way(0.25, 18, 0.75, 22), Generator::Random, way(0.5, 20, 0.75, 30)]
    );
    assert_eq!(shared.tick(), vec![(0, 2048 << 32), (1, 512 << 32), (2, 2048 << 32)]);

    shared.editor_visible = true;
    shared.tick = 30;
    let draws = vec![level(0.0); shared.draws_needed()];
    match shared.advance(&draws, interpolate, time) {
        Some(UIMessage::UpdateControllers((at, shown))) => {
            assert_eq!(at, time);
            assert_eq!(shown, vec![(0, level(0.0)), (1, level(0.0)), (2, level(0.0))]);
        }
        other => panic!("{other:?}"),
    }
}
