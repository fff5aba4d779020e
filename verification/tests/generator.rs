use emilydotgg_random::generator::{Generator, GeneratorType, Reading};
use emilydotgg_random::level::Level;

fn level(value: f32) -> Level {
    Level { bits: value.to_bits() }
}

fn way(initial: f32, initial_tick: u64, target: f32, target_tick: u64) -> Generator {
    Generator::RandomInter {
        target_value: level(target),
        target_tick,
        initial_value: level(initial),
        initial_tick,
    }
}

#[test]
fn kinds_have_names() {
    assert_eq!(GeneratorType::Random.name(), "Random");
    assert_eq!(GeneratorType::RandomInter.name(), "RandomInter");
    assert_eq!(
        GeneratorType::from_name(&"Random".to_string()),
        Some(GeneratorType::Random)
    );
    assert_eq!(
        GeneratorType::from_name(&"RandomInter".to_string()),
        Some(GeneratorType::RandomInter)
    );
    assert_eq!(GeneratorType::from_name(&"random".to_string()), None);
    assert_eq!(GeneratorType::from_name(&String::new()), None);
}

#[test]
fn change_lines_name_the_kind() {
    for kind in [GeneratorType::Random, GeneratorType::RandomInter] {
        assert_eq!(kind.change_line(), format!("changing generators to {:?}", kind));
    }
}

#[test]
fn fresh_generators() {
    assert_eq!(Generator::fresh(GeneratorType::Random), Generator::Random);
    assert_eq!(Generator::fresh(GeneratorType::RandomInter), way(0.0, 0, 0.0, 1));
}

#[test]
fn jumping_generator_draws_on_speed_ticks() {
    let mut generator = Generator::Random;
    assert!(generator.wants_draw(800, 400));
    assert!(!generator.wants_draw(801, 400));
    let step = generator.step(800, 400, level(0.3));
    assert_eq!(step.reading, Some(Reading::Exact(level(0.3))));
    assert_eq!(step.shown, Some(level(0.3)));
    let step = generator.step(801, 400, level(0.4));
    assert_eq!(step.reading, None);
    assert_eq!(step.shown, None);
    assert_eq!(generator, Generator::Random);
}

#[test]
fn interpolating_generator_follows_its_way() {
    let mut generator = way(0.25, 100, 0.75, 104);
    assert!(!generator.wants_draw(101, 4));
    let step = generator.step(101, 4, level(0.9));
    assert_eq!(
        step.reading,
        Some(Reading::Between {
            initial: level(0.25),
            target: level(0.75),
            elapsed: 1,
            span: 4
        })
    );
    assert_eq!(step.shown, None);
    assert_eq!(generator, way(0.25, 100, 0.75, 104));
}

#[test]
fn interpolating_generator_starts_a_new_way_at_its_target() {
    let mut generator = way(0.25, 100, 0.75, 104);
    assert!(generator.wants_draw(104, 7));
    let step = generator.step(104, 7, level(0.5));
    assert_eq!(
        step.reading,
        Some(Reading::Between {
            initial: level(0.75),
            target: level(0.5),
            elapsed: 0,
            span: 7
        })
    );
    assert_eq!(step.shown, Some(level(0.5)));
    assert_eq!(generator, way(0.75, 104, 0.5, 111));
    assert!(!generator.wants_draw(110, 7));
    assert!(generator.wants_draw(111, 7));
}

#[test]
fn steps_need_room_in_the_tick_count() {
    assert!(Generator::Random.ready(u64::MAX, u64::MAX));
    assert!(way(0.0, 0, 0.0, 1).ready(5, u64::MAX - 5));
    assert!(!way(0.0, 0, 0.0, 1).ready(6, u64::MAX - 5));
    assert!(way(0.0, 5, 0.0, 10).ready(5, 1));
    assert!(!way(0.0, 6, 0.0, 10).ready(5, 1));
}

#[test]
fn rewinding_keeps_the_levels() {
    let mut generator = way(0.25, 100, 0.75, 104);
    generator.rewind();
    assert_eq!(generator, way(0.25, 0, 0.75, 1));
    generator.rewind();
    assert_eq!(generator, way(0.25, 0, 0.75, 1));
    let mut generator = Generator::Random;
    generator.rewind();
    assert_eq!(generator, Generator::Random);
}
