//! The state that the host's calls and the generator loop share.

use vstd::prelude::*;

use crate::generator;
use crate::generator::{Generator, GeneratorType, Reading};
use crate::level;
use crate::level::{Level, ONE_BITS};
use crate::params;
use crate::save;
use crate::save::{LoadError, PlainGenerator, PluginInputs, SaveState};
use crate::time::Timestamp;
use crate::ui::UIMessage;

verus! {

/// The speed that a new plugin starts with.
pub const DEFAULT_SPEED: u64 = 400;

/// Plugin shared state.
#[derive(Debug)]
pub struct PluginShared {
    pub inputs: PluginInputs,
    /// The values for the host that have not been fetched yet.
    pub controller_values: Option<Vec<(usize, Level)>>,
    pub generators: Vec<Generator>,
    /// Whether a tick happened since the generators last ran.
    pub tick_happened: bool,
    pub tick: u64,
    pub editor_visible: bool,
}

/// What all generators together put out on one tick.
#[derive(Debug)]
pub struct Generation {
    /// Values that are given to the host, by controller.
    pub readings: Vec<(usize, Reading)>,
    /// Values that are given to the editor to draw, by controller.
    pub shown: Vec<(usize, Level)>,
}

/// A speed of zero counts as one.
pub open spec fn effective_speed(speed: u64) -> u64 {
    if speed == 0 {
        1
    } else {
        speed
    }
}

/// How many random levels the first `n` generators need.
pub open spec fn draws_needed_by(gs: Seq<Generator>, tick: u64, speed: u64, n: nat) -> nat
    decreases n,
{
    if n == 0 {
        0
    } else {
        draws_needed_by(gs, tick, speed, (n - 1) as nat) + if gs[n - 1].spec_wants_draw(
            tick,
            speed,
        ) {
            1nat
        } else {
            0
        }
    }
}

/// The random level for the generator at `i`: those that need one take them in turn.
pub open spec fn draw_for(
    gs: Seq<Generator>,
    tick: u64,
    speed: u64,
    draws: Seq<Level>,
    i: int,
) -> Level {
    draws[draws_needed_by(gs, tick, speed, i as nat) as int]
}

/// The generators after one tick.
pub open spec fn stepped_all(
    gs: Seq<Generator>,
    tick: u64,
    speed: u64,
    draws: Seq<Level>,
) -> Seq<Generator> {
    Seq::new(
        gs.len(),
        |i: int| gs[i].stepped(tick, speed, draw_for(gs, tick, speed, draws, i)),
    )
}

/// What the first `n` generators tell the host, each with its place.
pub open spec fn readings_of(
    gs: Seq<Generator>,
    tick: u64,
    speed: u64,
    draws: Seq<Level>,
    n: nat,
) -> Seq<(usize, Reading)>
    decreases n,
{
    if n == 0 {
        Seq::empty()
    } else {
        let i = n - 1;
        let before = readings_of(gs, tick, speed, draws, i as nat);
        match gs[i].reading(tick, speed, draw_for(gs, tick, speed, draws, i)) {
            Some(reading) => before.push((i as usize, reading)),
            None => before,
        }
    }
}

/// What the first `n` generators show in the editor, each with its place.
pub open spec fn shown_of(
    gs: Seq<Generator>,
    tick: u64,
    speed: u64,
    draws: Seq<Level>,
    n: nat,
) -> Seq<(usize, Level)>
    decreases n,
{
    if n == 0 {
        Seq::empty()
    } else {
        let i = n - 1;
        let before = shown_of(gs, tick, speed, draws, i as nat);
        match gs[i].shown(tick, speed, draw_for(gs, tick, speed, draws, i)) {
            Some(level) => before.push((i as usize, level)),
            None => before,
        }
    }
}

/// Whether nothing has passed yet of a way that leads from a finite level to one between zero and
/// one. The difference of the two is then finite, and adding none of it leaves the first level as
/// it is, but for the sign of a zero.
pub open spec fn at_start(initial: Level, target: Level, elapsed: u64, span: u64) -> bool {
    elapsed == 0 && span > 0 && initial.finite() && target.in_unit_range()
}

/// Whether a value is the level that a reading of the same controller stands for. A way stands at
/// its first level at the start. From there on `way` says which level lies how far on the way
/// between two.
pub open spec fn resolves<F: Fn(Level, Level, u64, u64) -> Level>(
    way: F,
    reading: (usize, Reading),
    value: (usize, Level),
) -> bool {
    &&& value.0 == reading.0
    &&& match reading.1 {
        Reading::Exact(level) => value.1 == level,
        Reading::Between { initial, target, elapsed, span } => if at_start(
            initial,
            target,
            elapsed,
            span,
        ) {
            value.1 == initial.spec_unsigned_zero()
        } else {
            call_ensures(way, (initial, target, elapsed, span), value.1)
        },
    }
}

/// Whether values are, one by one, the levels that readings stand for.
pub open spec fn resolves_all<F: Fn(Level, Level, u64, u64) -> Level>(
    way: F,
    readings: Seq<(usize, Reading)>,
    values: Seq<(usize, Level)>,
) -> bool {
    &&& values.len() == readings.len()
    &&& forall|k: int|
        0 <= k < readings.len() ==> resolves(way, readings[k], #[trigger] values[k])
}

/// Whether a way between two levels from zero to one stays in that range until its end.
pub open spec fn stays_in_unit_range<F: Fn(Level, Level, u64, u64) -> Level>(way: F) -> bool {
    forall|initial: Level, target: Level, elapsed: u64, span: u64, level: Level|
        initial.in_closed_unit_range() && target.in_closed_unit_range() && elapsed < span
            && #[trigger] call_ensures(way, (initial, target, elapsed, span), level)
            ==> level.in_closed_unit_range()
}

/// The levels that readings stand for. A way stands at its first level at the start. From there on
/// `way` says which level lies how far on the way between two: it gets both ends, the parts that
/// have passed and the parts that there are.
pub fn resolve<F: Fn(Level, Level, u64, u64) -> Level>(
    readings: &Vec<(usize, Reading)>,
    way: F,
) -> (values: Vec<(usize, Level)>)
    requires
        forall|initial: Level, target: Level, elapsed: u64, span: u64| #[trigger]
            call_requires(way, (initial, target, elapsed, span)),
    ensures
        resolves_all(way, readings@, values@),
{
    let mut values: Vec<(usize, Level)> = Vec::new();
    for i in 0..readings.len()
        invariant
            forall|initial: Level, target: Level, elapsed: u64, span: u64| #[trigger]
                call_requires(way, (initial, target, elapsed, span)),
            values@.len() == i,
            forall|k: int| 0 <= k < i ==> resolves(way, readings@[k], #[trigger] values@[k]),
    {
        let (controller, reading): (usize, Reading) = readings[i];
        let level: Level = match reading {
            Reading::Exact(level) => level,
            Reading::Between { initial, target, elapsed, span } => if elapsed == 0 && span > 0
                && initial.is_finite() && target.bits < ONE_BITS {
                initial.unsigned_zero()
            } else {
                way(initial, target, elapsed, span)
            },
        };
        values.push((controller, level));
    }
    values
}

/// What the host is told for a run of levels.
pub open spec fn told(values: Seq<(usize, Level)>) -> Seq<(usize, u64)> {
    values.map_values(|v: (usize, Level)| (v.0, v.1.spec_controller_value()))
}

pub open spec fn rewound_all(gs: Seq<Generator>) -> Seq<Generator> {
    gs.map_values(|g: Generator| g.rewound())
}

/// What loading a state from bytes comes to. Where the bytes begin with a saved state, its inputs
/// are taken over, and its generators start their way anew. Otherwise nothing changes, and the
/// error says whether the bytes begin with a state of another version.
pub open spec fn load_outcome(
    before: PluginShared,
    bytes: Seq<u8>,
    loaded: Result<(), LoadError>,
    after: PluginShared,
) -> bool {
    &&& match loaded {
        Ok(_) => exists|inputs: PluginInputs, generators: Seq<Generator>| #[trigger]
            save::saved_bytes(inputs, generators).is_prefix_of(bytes),
        Err(LoadError::Malformed) => forall|
            version: u32,
            inputs: (u64, u64, u64),
            generators: Seq<PlainGenerator>,
        |
            !#[trigger] save::begins_with_state(bytes, version, inputs, generators),
        Err(LoadError::UnknownVersion) => exists|
            version: u32,
            inputs: (u64, u64, u64),
            generators: Seq<PlainGenerator>,
        |
            version != 0 && #[trigger] save::begins_with_state(bytes, version, inputs, generators),
    }
    &&& forall|inputs: PluginInputs, generators: Seq<Generator>| #[trigger]
        save::saved_bytes(inputs, generators).is_prefix_of(bytes) ==> {
            &&& loaded is Ok
            &&& after.inputs == inputs
            &&& after.generators@ == rewound_all(generators)
        }
    &&& loaded is Err ==> after == before
    &&& after.controller_values == before.controller_values
    &&& after.tick_happened == before.tick_happened
    &&& after.tick == before.tick
    &&& after.editor_visible == before.editor_visible
}

impl PluginShared {
    /// Whether every generator is on its way to a target that lies ahead of where it came from.
    pub open spec fn on_course(self) -> bool {
        forall|i: int| 0 <= i < self.generators@.len() ==> (#[trigger] self.generators@[i]).on_course(
            self.tick,
        )
    }

    /// Whether all generators hold levels from zero up to one.
    pub open spec fn in_unit_range(self) -> bool {
        forall|i: int|
            0 <= i < self.generators@.len() ==> (#[trigger] self.generators@[i]).in_unit_range()
    }

    /// Whether every generator can take the step of this tick.
    pub open spec fn can_generate(self) -> bool {
        forall|i: int|
            0 <= i < self.generators@.len() ==> (#[trigger] self.generators@[i]).can_step(
                self.tick,
                effective_speed(self.inputs.speed),
            )
    }

    /// How many random levels the generators need on this tick.
    pub open spec fn spec_draws_needed(self) -> nat {
        draws_needed_by(
            self.generators@,
            self.tick,
            effective_speed(self.inputs.speed),
            self.generators@.len(),
        )
    }

    /// What the generators tell the host on this tick.
    pub open spec fn readings(self, draws: Seq<Level>) -> Seq<(usize, Reading)> {
        readings_of(
            self.generators@,
            self.tick,
            effective_speed(self.inputs.speed),
            draws,
            self.generators@.len(),
        )
    }

    /// What the generators show in the editor on this tick.
    pub open spec fn shown(self, draws: Seq<Level>) -> Seq<(usize, Level)> {
        shown_of(
            self.generators@,
            self.tick,
            effective_speed(self.inputs.speed),
            draws,
            self.generators@.len(),
        )
    }

    /// The random level for the generator at `i` on this tick.
    pub open spec fn draw_for(self, draws: Seq<Level>, i: int) -> Level {
        draw_for(self.generators@, self.tick, effective_speed(self.inputs.speed), draws, i)
    }

    /// The generators after this tick.
    pub open spec fn stepped(self, draws: Seq<Level>) -> Seq<Generator> {
        stepped_all(self.generators@, self.tick, effective_speed(self.inputs.speed), draws)
    }

    /// The state of a plugin that was just created, with one interpolating generator for each
    /// controller.
    pub fn new(controller_count: usize) -> (shared: PluginShared)
        ensures
            shared.inputs == (PluginInputs { seed: 0, speed: DEFAULT_SPEED, test_val: 0 }),
            shared.controller_values is None,
            shared.generators@ == Seq::new(
                controller_count as nat,
                |i: int| Generator::spec_fresh(GeneratorType::RandomInter),
            ),
            !shared.tick_happened,
            shared.tick == 1,
            !shared.editor_visible,
            shared.on_course(),
            shared.in_unit_range(),
    {
        let mut generators: Vec<Generator> = Vec::new();
        for i in 0..controller_count
            invariant
                generators@ == Seq::new(
                    i as nat,
                    |i: int| Generator::spec_fresh(GeneratorType::RandomInter),
                ),
        {
            generators.push(Generator::fresh(GeneratorType::RandomInter));
        }
        let mut inputs = PluginInputs::default();
        inputs.speed = DEFAULT_SPEED;
        PluginShared {
            inputs,
            controller_values: None,
            generators,
            tick_happened: false,
            tick: 1,
            editor_visible: false,
        }
    }

    /// Reports whether a tick happened since the last time this was asked.
    pub fn take_tick(&mut self) -> (happened: bool)
        ensures
            happened == old(self).tick_happened,
            *final(self) == (PluginShared { tick_happened: false, ..*old(self) }),
            !final(self).tick_happened,
            final(self).tick == old(self).tick,
    {
        let happened = self.tick_happened;
        self.tick_happened = false;
        happened
    }

    /// How many random levels the generators need on this tick.
    pub fn draws_needed(&self) -> (needed: usize)
        ensures
            needed == self.spec_draws_needed(),
            needed <= self.generators@.len(),
    {
        let speed: u64 = if self.inputs.speed == 0 {
            1
        } else {
            self.inputs.speed
        };
        let mut needed: usize = 0;
        for i in 0..self.generators.len()
            invariant
                speed == effective_speed(self.inputs.speed),
                needed == draws_needed_by(self.generators@, self.tick, speed, i as nat),
                needed <= i,
        {
            if self.generators[i].wants_draw(self.tick, speed) {
                needed = needed + 1;
            }
        }
        needed
    }

    /// Reports whether every generator can take the step of this tick, with tick counts that stay
    /// in range.
    pub fn ready(&self) -> (ready: bool)
        ensures
            ready == self.can_generate(),
    {
        let speed: u64 = if self.inputs.speed == 0 {
            1
        } else {
            self.inputs.speed
        };
        for i in 0..self.generators.len()
            invariant
                speed == effective_speed(self.inputs.speed),
                forall|j: int|
                    0 <= j < i ==> (#[trigger] self.generators@[j]).can_step(self.tick, speed),
        {
            if !self.generators[i].ready(self.tick, speed) {
                assert(!self.generators@[i as int].can_step(self.tick, speed));
                return false;
            }
        }
        true
    }

    /// Runs every generator for one tick. The random levels go, in turn, to the generators that
    /// need one.
    pub fn generate(&mut self, draws: &Vec<Level>) -> (generation: Generation)
        requires
            old(self).can_generate(),
            draws@.len() == old(self).spec_draws_needed(),
        ensures
            final(self).inputs == (PluginInputs {
                speed: effective_speed(old(self).inputs.speed),
                ..old(self).inputs
            }),
            final(self).generators@ == old(self).stepped(draws@),
            final(self).controller_values == old(self).controller_values,
            final(self).tick_happened == old(self).tick_happened,
            final(self).tick == old(self).tick,
            final(self).editor_visible == old(self).editor_visible,
            generation.readings@ == old(self).readings(draws@),
            generation.shown@ == old(self).shown(draws@),
            old(self).on_course() ==> final(self).on_course(),
            old(self).in_unit_range() && (forall|k: int|
                0 <= k < draws@.len() ==> (#[trigger] draws@[k]).in_unit_range())
                ==> final(self).in_unit_range(),
    {
        if self.inputs.speed == 0 {
            self.inputs.speed = 1;
        }
        let speed: u64 = self.inputs.speed;
        let tick: u64 = self.tick;
        let ghost gs = self.generators@;
        let count: usize = self.generators.len();
        let mut readings: Vec<(usize, Reading)> = Vec::new();
        let mut shown: Vec<(usize, Level)> = Vec::new();
        let mut used: usize = 0;
        for i in 0..count
            invariant
                speed > 0,
                count == gs.len(),
                self.generators@.len() == count,
                self.tick == tick,
                self.inputs == (PluginInputs { speed, ..old(self).inputs }),
                self.controller_values == old(self).controller_values,
                self.tick_happened == old(self).tick_happened,
                self.editor_visible == old(self).editor_visible,
                forall|j: int| 0 <= j < gs.len() ==> (#[trigger] gs[j]).can_step(tick, speed),
                draws@.len() == draws_needed_by(gs, tick, speed, gs.len()),
                used == draws_needed_by(gs, tick, speed, i as nat),
                forall|j: int| i <= j < gs.len() ==> self.generators@[j] == gs[j],
                forall|j: int|
                    0 <= j < i ==> self.generators@[j] == #[trigger] gs[j].stepped(
                        tick,
                        speed,
                        draw_for(gs, tick, speed, draws@, j),
                    ),
                readings@ == readings_of(gs, tick, speed, draws@, i as nat),
                shown@ == shown_of(gs, tick, speed, draws@, i as nat),
        {
            let wants: bool = self.generators[i].wants_draw(tick, speed);
            proof {
                lemma_draws_needed_grows(gs, tick, speed, (i + 1) as nat, gs.len());
                assert(gs[i as int].can_step(tick, speed));
            }
            let draw: Level = if wants {
                let draw = draws[used];
                used = used + 1;
                draw
            } else {
                Level::zero()
            };
            let mut generator: Generator = self.generators[i];
            let step = generator.step(tick, speed, draw);
            proof {
                lemma_unused_draw(
                    gs[i as int],
                    tick,
                    speed,
                    draw,
                    draw_for(gs, tick, speed, draws@, i as int),
                );
            }
            self.generators[i] = generator;
            if let Some(reading) = step.reading {
                readings.push((i, reading));
            }
            if let Some(level) = step.shown {
                shown.push((i, level));
            }
        }
        proof {
            if old(self).on_course() {
                assert forall|j: int| 0 <= j < self.generators@.len() implies (
                #[trigger] self.generators@[j]).on_course(self.tick) by {
                    assert(old(self).generators@[j].on_course(tick));
                    assert(gs[j].can_step(tick, speed));
                    let draw = draw_for(gs, tick, speed, draws@, j);
                    generator::steps_stay_on_course(gs[j], tick, tick, speed, draw);
                }
            }
        }
        proof {
            if old(self).in_unit_range() && (forall|k: int|
                0 <= k < draws@.len() ==> (#[trigger] draws@[k]).in_unit_range()) {
                assert forall|j: int| 0 <= j < gs.len() implies (
                #[trigger] gs[j]).in_unit_range() by {
                    assert(old(self).generators@[j].in_unit_range());
                }
                generations_stay_in_unit_range(gs, tick, speed, draws@);
                assert(self.generators@ == stepped_all(gs, tick, speed, draws@));
            }
        }
        Generation { readings, shown }
    }

    /// The state with new values for the host, in place of those before.
    pub open spec fn published(self, values: Vec<(usize, Level)>) -> PluginShared {
        PluginShared { controller_values: Some(values), ..self }
    }

    /// Stores the values that the host is told with the next tick, in place of those before.
    /// While the editor is visible, it gets what there is to draw.
    pub fn publish(
        &mut self,
        values: Vec<(usize, Level)>,
        shown: Vec<(usize, Level)>,
        time: Timestamp,
    ) -> (message: Option<UIMessage>)
        ensures
            *final(self) == old(self).published(values),
            message == (if old(self).editor_visible {
                Some(UIMessage::UpdateControllers((time, shown)))
            } else {
                None
            }),
            final(self).controller_values == Some(values),
            message is Some <==> old(self).editor_visible,
            message matches Some(message) ==> message == UIMessage::UpdateControllers(
                (time, shown),
            ),
    {
        self.controller_values = Some(values);
        if self.editor_visible {
            Some(UIMessage::UpdateControllers((time, shown)))
        } else {
            None
        }
    }

    /// Runs every generator for one tick and publishes what comes of it: the host is told, with the
    /// next tick, the levels that the readings of this one stand for, and a visible editor gets
    /// this tick's new levels.
    pub fn advance<F: Fn(Level, Level, u64, u64) -> Level>(
        &mut self,
        draws: &Vec<Level>,
        way: F,
        time: Timestamp,
    ) -> (message: Option<UIMessage>)
        requires
            old(self).can_generate(),
            draws@.len() == old(self).spec_draws_needed(),
            forall|initial: Level, target: Level, elapsed: u64, span: u64| #[trigger]
                call_requires(way, (initial, target, elapsed, span)),
        ensures
            final(self).controller_values matches Some(values) && resolves_all(
                way,
                old(self).readings(draws@),
                values@,
            ),
            match message {
                Some(UIMessage::UpdateControllers((at, shown))) => {
                    old(self).editor_visible && at == time && shown@ == old(self).shown(draws@)
                },
                Some(_) => false,
                None => !old(self).editor_visible,
            },
            final(self).inputs == (PluginInputs {
                speed: effective_speed(old(self).inputs.speed),
                ..old(self).inputs
            }),
            final(self).generators@ == old(self).stepped(draws@),
            final(self).tick_happened == old(self).tick_happened,
            final(self).tick == old(self).tick,
            final(self).editor_visible == old(self).editor_visible,
            old(self).on_course() ==> final(self).on_course(),
    {
        let generation = self.generate(draws);
        let values = resolve(&generation.readings, way);
        let ghost generated = *self;
        let message = self.publish(values, generation.shown, time);
        proof {
            if generated.on_course() {
                bookkeeping_keeps_the_course(generated, values, generated.inputs);
            }
        }
        message
    }

    /// What the host is to be told with the next tick.
    pub open spec fn told_values(self) -> Seq<(usize, u64)> {
        match self.controller_values {
            Some(levels) => told(levels@),
            None => Seq::empty(),
        }
    }

    /// The state after a tick. The count starts over when it runs out of numbers.
    pub open spec fn ticked(self) -> PluginShared {
        PluginShared {
            tick_happened: true,
            tick: if self.tick == u64::MAX {
                0
            } else {
                (self.tick + 1) as u64
            },
            controller_values: None,
            ..self
        }
    }

    /// Counts a tick, and fetches what the host is to be told with it: for each controller with
    /// a new level, its number and its value.
    pub fn tick(&mut self) -> (values: Vec<(usize, u64)>)
        ensures
            *final(self) == old(self).ticked(),
            values@ == old(self).told_values(),
            old(self).tick < u64::MAX ==> final(self).tick == old(self).tick + 1,
            final(self).tick_happened,
            final(self).controller_values is None,
            final(self).generators == old(self).generators,
            old(self).controller_values matches Some(levels) ==> values@.len() == levels@.len() && (
            forall|k: int|
                0 <= k < levels@.len() ==> (#[trigger] values@[k]).0 == levels@[k].0 && values@[k].1
                    == levels@[k].1.spec_controller_value()),
            old(self).on_course() && old(self).tick < u64::MAX ==> final(self).on_course(),
    {
        self.tick_happened = true;
        self.tick = self.tick.wrapping_add(1);
        let mut values: Vec<(usize, u64)> = Vec::new();
        if let Some(levels) = self.controller_values.take() {
            for i in 0..levels.len()
                invariant
                    values@ == told(levels@.take(i as int)),
            {
                let (controller, level): (usize, Level) = levels[i];
                values.push((controller, level.controller_value()));
                assert(levels@.take(i + 1) == levels@.take(i as int).push(levels@[i as int]));
            }
            assert(levels@.take(levels@.len() as int) == levels@);
        }
        proof {
            if old(self).on_course() && old(self).tick < u64::MAX {
                assert forall|j: int| 0 <= j < self.generators@.len() implies (
                #[trigger] self.generators@[j]).on_course(self.tick) by {
                    assert(old(self).generators@[j].on_course(old(self).tick));
                }
            }
        }
        values
    }

    /// Replaces every generator with a fresh one of the given kind.
    pub fn change_generators(&mut self, kind: GeneratorType)
        ensures
            final(self).generators@ == Seq::new(
                old(self).generators@.len(),
                |i: int| Generator::spec_fresh(kind),
            ),
            final(self).inputs == old(self).inputs,
            final(self).controller_values == old(self).controller_values,
            final(self).tick_happened == old(self).tick_happened,
            final(self).tick == old(self).tick,
            final(self).editor_visible == old(self).editor_visible,
            final(self).on_course(),
            final(self).in_unit_range(),
    {
        let count: usize = self.generators.len();
        for i in 0..count
            invariant
                count == self.generators@.len(),
                count == old(self).generators@.len(),
                forall|j: int| 0 <= j < i ==> self.generators@[j] == Generator::spec_fresh(kind),
                self.inputs == old(self).inputs,
                self.controller_values == old(self).controller_values,
                self.tick_happened == old(self).tick_happened,
                self.tick == old(self).tick,
                self.editor_visible == old(self).editor_visible,
        {
            self.generators[i] = Generator::fresh(kind);
        }
    }

    /// Sets the speed from a parameter, where the host's flags say that the value comes from a
    /// MIDI controller.
    pub fn process_param(&mut self, flags: isize, value: u16)
        ensures
            *final(self) == (if params::is_midi_update(flags) {
                PluginShared {
                    inputs: PluginInputs { speed: params::spec_midi_speed(value), ..old(self).inputs },
                    ..*old(self)
                }
            } else {
                *old(self)
            }),
            flags & 1 == 1 && flags & 32 == 32 && value != 48059 ==> final(self).inputs.speed
                * 65535 <= value * 600 < (final(self).inputs.speed + 1) * 65535,
            flags & 1 != 1 || flags & 32 != 32 ==> final(self).inputs.speed
                == old(self).inputs.speed,
            final(self).generators == old(self).generators,
            final(self).tick == old(self).tick,
    {
        proof {
            params::midi_updates_have_both_flags(flags);
            params::midi_speeds_are_in_proportion(value);
        }
        if params::sets_from_midi(flags) {
            self.inputs.speed = params::midi_speed(value);
        }
    }

    /// The bytes that a project file keeps of the inputs and the generators.
    pub fn save_state(&self) -> (bytes: Vec<u8>)
        ensures
            bytes@ == save::saved_bytes(self.inputs, self.generators@),
    {
        let mut generators: Vec<Generator> = Vec::new();
        for i in 0..self.generators.len()
            invariant
                generators@ == self.generators@.take(i as int),
        {
            generators.push(self.generators[i]);
        }
        assert(self.generators@.take(self.generators@.len() as int) == self.generators@);
        SaveState::Ver1 { inputs: self.inputs, generators }.to_bytes()
    }

    /// Takes over inputs and generators from a project file. The interpolating generators start
    /// their way anew, at the levels that were saved. Where the bytes do not begin with a saved
    /// state, nothing changes.
    pub fn load_state(&mut self, bytes: &[u8]) -> (loaded: Result<(), LoadError>)
        ensures
            load_outcome(*old(self), bytes@, loaded, *final(self)),
            old(self).on_course() || loaded is Ok ==> final(self).on_course(),
    {
        match SaveState::from_bytes(bytes) {
            Err(error) => Err(error),
            Ok(SaveState::Ver1 { inputs, generators }) => {
                let ghost saved = generators@;
                let mut generators: Vec<Generator> = generators;
                let count: usize = generators.len();
                for i in 0..count
                    invariant
                        count == generators@.len(),
                        count == saved.len(),
                        forall|j: int| 0 <= j < i ==> generators@[j] == saved[j].rewound(),
                        forall|j: int| i <= j < count ==> generators@[j] == saved[j],
                {
                    let mut generator: Generator = generators[i];
                    generator.rewind();
                    generators[i] = generator;
                }
                self.inputs = inputs;
                self.generators = generators;
                assert(self.generators@ == rewound_all(saved));
                assert(save::saved_bytes(inputs, saved).is_prefix_of(bytes@));
                Ok(())
            },
        }
    }
}

proof fn lemma_draws_needed_grows(gs: Seq<Generator>, tick: u64, speed: u64, m: nat, n: nat)
    requires
        m <= n,
    ensures
        draws_needed_by(gs, tick, speed, m) <= draws_needed_by(gs, tick, speed, n) <= n,
    decreases n,
{
    if m < n {
        lemma_draws_needed_grows(gs, tick, speed, m, (n - 1) as nat);
    } else if n > 0 {
        lemma_draws_needed_grows(gs, tick, speed, (n - 1) as nat, (n - 1) as nat);
    }
}

/// A step in which no random level is needed does not depend on one.
proof fn lemma_unused_draw(g: Generator, tick: u64, speed: u64, draw: Level, other: Level)
    requires
        draw == other || !g.spec_wants_draw(tick, speed),
    ensures
        g.stepped(tick, speed, draw) == g.stepped(tick, speed, other),
        g.reading(tick, speed, draw) == g.reading(tick, speed, other),
        g.shown(tick, speed, draw) == g.shown(tick, speed, other),
{
}

/// Generators that are on course can always run, as long as the tick count has room for one more
/// way.
pub proof fn on_course_can_generate(shared: PluginShared)
    requires
        shared.on_course(),
        shared.tick + effective_speed(shared.inputs.speed) <= u64::MAX,
    ensures
        shared.can_generate(),
{
    assert forall|i: int| 0 <= i < shared.generators@.len() implies (
    #[trigger] shared.generators@[i]).can_step(
        shared.tick,
        effective_speed(shared.inputs.speed),
    ) by {
        assert(shared.generators@[i].on_course(shared.tick));
    }
}

/// What is saved is read back, whatever follows it in the file and whatever the state was before:
/// the inputs as they were, each generator with its kind and its levels, at the start of its way.
pub proof fn saved_state_is_loaded_back(
    saved: PluginShared,
    rest: Seq<u8>,
    before: PluginShared,
    loaded: Result<(), LoadError>,
    after: PluginShared,
)
    requires
        load_outcome(
            before,
            save::saved_bytes(saved.inputs, saved.generators@) + rest,
            loaded,
            after,
        ),
    ensures
        loaded is Ok,
        after.inputs == saved.inputs,
        after.generators@ == rewound_all(saved.generators@),
{
    let bytes = save::saved_bytes(saved.inputs, saved.generators@);
    assert(bytes.is_prefix_of(bytes + rest));
}

/// A state that was just loaded is saved and loaded without any change.
pub proof fn loaded_state_is_saved_as_it_is(
    saved: PluginShared,
    before: PluginShared,
    loaded: Result<(), LoadError>,
    after: PluginShared,
    loaded_again: Result<(), LoadError>,
    after_again: PluginShared,
)
    requires
        load_outcome(
            before,
            save::saved_bytes(saved.inputs, saved.generators@),
            loaded,
            after,
        ),
        load_outcome(
            after,
            save::saved_bytes(after.inputs, after.generators@),
            loaded_again,
            after_again,
        ),
    ensures
        loaded_again is Ok,
        after_again.inputs == after.inputs,
        after_again.generators@ == after.generators@,
{
    let bytes = save::saved_bytes(saved.inputs, saved.generators@);
    assert(bytes.is_prefix_of(bytes));
    let again = save::saved_bytes(after.inputs, after.generators@);
    assert(again.is_prefix_of(again));
    assert(rewound_all(rewound_all(saved.generators@)) == rewound_all(saved.generators@));
}

/// What is published is told with the next tick, and with that one only.
pub proof fn values_are_told_once(shared: PluginShared, values: Vec<(usize, Level)>)
    ensures
        shared.published(values).told_values() == told(values@),
        shared.published(values).ticked().told_values() == Seq::<(usize, u64)>::empty(),
        shared.ticked().ticked().told_values() == Seq::<(usize, u64)>::empty(),
{
}

/// Each random level goes to one generator and is shown once, in the order in which the levels
/// were drawn.
pub proof fn every_draw_is_shown(
    gs: Seq<Generator>,
    tick: u64,
    speed: u64,
    draws: Seq<Level>,
    n: nat,
)
    requires
        n <= gs.len(),
    ensures
        shown_of(gs, tick, speed, draws, n).len() == draws_needed_by(gs, tick, speed, n),
        forall|k: int|
            0 <= k < draws_needed_by(gs, tick, speed, n) ==> (#[trigger] shown_of(
                gs,
                tick,
                speed,
                draws,
                n,
            )[k]).1 == draws[k],
    decreases n,
{
    if n > 0 {
        every_draw_is_shown(gs, tick, speed, draws, (n - 1) as nat);
    }
}

/// Whether a run of values is numbered by controllers below `n`, in rising order, each at most
/// once.
pub open spec fn in_order<T>(values: Seq<(usize, T)>, n: nat) -> bool {
    &&& forall|k: int| 0 <= k < values.len() ==> (#[trigger] values[k]).0 < n
    &&& forall|j: int, k: int|
        0 <= j < k < values.len() ==> (#[trigger] values[j]).0 < (#[trigger] values[k]).0
}

/// What the host is told and what the editor is shown comes in the order of the controllers,
/// each controller at most once.
pub proof fn controllers_come_in_order(
    gs: Seq<Generator>,
    tick: u64,
    speed: u64,
    draws: Seq<Level>,
    n: nat,
)
    requires
        n <= gs.len() <= usize::MAX,
    ensures
        in_order(readings_of(gs, tick, speed, draws, n), n),
        in_order(shown_of(gs, tick, speed, draws, n), n),
    decreases n,
{
    if n > 0 {
        controllers_come_in_order(gs, tick, speed, draws, (n - 1) as nat);
        assert((n - 1) as usize == n - 1);
        let readings = readings_of(gs, tick, speed, draws, (n - 1) as nat);
        let shown = shown_of(gs, tick, speed, draws, (n - 1) as nat);
        assert forall|r: Reading| in_order(#[trigger] readings.push(((n - 1) as usize, r)), n) by {}
        assert forall|l: Level| in_order(#[trigger] shown.push(((n - 1) as usize, l)), n) by {}
        assert(in_order(readings, n));
        assert(in_order(shown, n));
    }
}

/// Each interpolating generator tells the host its place on every tick.
pub proof fn interpolation_never_pauses(
    gs: Seq<Generator>,
    tick: u64,
    speed: u64,
    draws: Seq<Level>,
    n: nat,
    i: int,
)
    requires
        0 <= i < n <= gs.len() <= usize::MAX,
        gs[i].kind() == GeneratorType::RandomInter,
    ensures
        exists|k: int|
            0 <= k < readings_of(gs, tick, speed, draws, n).len() && (#[trigger] readings_of(
                gs,
                tick,
                speed,
                draws,
                n,
            )[k]).0 == i && readings_of(gs, tick, speed, draws, n)[k].1 is Between,
    decreases n,
{
    let now = readings_of(gs, tick, speed, draws, n);
    let before = readings_of(gs, tick, speed, draws, (n - 1) as nat);
    if i == n - 1 {
        let k = now.len() - 1;
        assert(now[k].0 == i && now[k].1 is Between);
    } else {
        interpolation_never_pauses(gs, tick, speed, draws, (n - 1) as nat, i);
        let k = choose|k: int|
            0 <= k < before.len() && (#[trigger] before[k]).0 == i && before[k].1 is Between;
        assert(now[k] == before[k]);
    }
}

/// A generator that does not interpolate tells the host something exactly on the ticks that the
/// speed divides.
pub proof fn jumps_come_on_speed_ticks(
    gs: Seq<Generator>,
    tick: u64,
    speed: u64,
    draws: Seq<Level>,
    n: nat,
    i: int,
)
    requires
        0 <= i < n <= gs.len() <= usize::MAX,
        gs[i].kind() == GeneratorType::Random,
    ensures
        tick % speed == 0 <==> exists|k: int|
            0 <= k < readings_of(gs, tick, speed, draws, n).len() && (#[trigger] readings_of(
                gs,
                tick,
                speed,
                draws,
                n,
            )[k]).0 == i,
    decreases n,
{
    let now = readings_of(gs, tick, speed, draws, n);
    let before = readings_of(gs, tick, speed, draws, (n - 1) as nat);
    controllers_come_in_order(gs, tick, speed, draws, n);
    controllers_come_in_order(gs, tick, speed, draws, (n - 1) as nat);
    if i == n - 1 {
        if tick % speed == 0 {
            assert(now[now.len() - 1].0 == i);
        }
    } else {
        jumps_come_on_speed_ticks(gs, tick, speed, draws, (n - 1) as nat, i);
        if tick % speed == 0 {
            let k = choose|k: int| 0 <= k < before.len() && (#[trigger] before[k]).0 == i;
            assert(now[k] == before[k]);
        } else {
            assert forall|k: int| 0 <= k < now.len() implies (#[trigger] now[k]).0 != i by {
                if k < before.len() {
                    assert(now[k] == before[k]);
                }
            }
        }
    }
}

/// Levels drawn from zero up to one keep the levels of all generators in that range.
pub proof fn generations_stay_in_unit_range(
    gs: Seq<Generator>,
    tick: u64,
    speed: u64,
    draws: Seq<Level>,
)
    requires
        forall|i: int| 0 <= i < gs.len() ==> (#[trigger] gs[i]).in_unit_range(),
        draws.len() == draws_needed_by(gs, tick, speed, gs.len()),
        forall|k: int| 0 <= k < draws.len() ==> (#[trigger] draws[k]).in_unit_range(),
    ensures
        forall|i: int|
            0 <= i < gs.len() ==> (#[trigger] stepped_all(
                gs,
                tick,
                speed,
                draws,
            )[i]).in_unit_range(),
{
    assert forall|i: int| 0 <= i < gs.len() implies (#[trigger] stepped_all(
        gs,
        tick,
        speed,
        draws,
    )[i]).in_unit_range() by {
        assert(gs[i].in_unit_range());
        let draw = draw_for(gs, tick, speed, draws, i);
        if gs[i].spec_wants_draw(tick, speed) {
            lemma_draws_needed_grows(gs, tick, speed, (i + 1) as nat, gs.len());
            assert(draw.in_unit_range());
            generator::steps_stay_in_unit_range(gs[i], tick, speed, draw);
        } else {
            lemma_unused_draw(gs[i], tick, speed, draw, Level { bits: 0 });
            generator::steps_stay_in_unit_range(gs[i], tick, speed, Level { bits: 0 });
        }
    }
}

/// A tick keeps the number of generators and the kind of each.
pub proof fn generations_keep_kinds(
    gs: Seq<Generator>,
    tick: u64,
    speed: u64,
    draws: Seq<Level>,
    i: int,
)
    requires
        0 <= i < gs.len(),
    ensures
        stepped_all(gs, tick, speed, draws).len() == gs.len(),
        stepped_all(gs, tick, speed, draws)[i].kind() == gs[i].kind(),
{
}

/// Publishing values, counting a tick as handled and setting the speed leave every generator on
/// its course.
pub proof fn bookkeeping_keeps_the_course(
    shared: PluginShared,
    values: Vec<(usize, Level)>,
    inputs: PluginInputs,
)
    requires
        shared.on_course(),
    ensures
        shared.published(values).on_course(),
        (PluginShared { tick_happened: false, ..shared }).on_course(),
        (PluginShared { inputs, ..shared }).on_course(),
{
    assert forall|i: int| 0 <= i < shared.generators@.len() implies (
    #[trigger] shared.generators@[i]).on_course(shared.tick) by {}
    assert(shared.published(values).generators == shared.generators);
}

/// On the tick on which a new target is drawn the host is told the old one, whatever lies on the way
/// to the new one: the controller does not jump.
pub proof fn resolved_ways_begin_at_the_old_target<F: Fn(Level, Level, u64, u64) -> Level>(
    way: F,
    g: Generator,
    controller: usize,
    tick: u64,
    speed: u64,
    draw: Level,
    value: (usize, Level),
)
    requires
        speed > 0,
        g.can_step(tick, speed),
        g.kind() == GeneratorType::RandomInter,
        g.spec_wants_draw(tick, speed),
        g->target_value.finite(),
        draw.in_unit_range(),
        resolves(way, (controller, g.reading(tick, speed, draw)->0), value),
    ensures
        value == (controller, g->target_value.spec_unsigned_zero()),
{
}

/// Each reading is that of a generator, under its number.
proof fn lemma_reading_source(
    gs: Seq<Generator>,
    tick: u64,
    speed: u64,
    draws: Seq<Level>,
    n: nat,
    k: int,
) -> (i: int)
    requires
        0 <= k < readings_of(gs, tick, speed, draws, n).len(),
    ensures
        0 <= i < n,
        gs[i].reading(tick, speed, draw_for(gs, tick, speed, draws, i)) == Some(
            readings_of(gs, tick, speed, draws, n)[k].1,
        ),
        readings_of(gs, tick, speed, draws, n)[k].0 == i as usize,
    decreases n,
{
    let before = readings_of(gs, tick, speed, draws, (n - 1) as nat);
    if k < before.len() {
        lemma_reading_source(gs, tick, speed, draws, (n - 1) as nat, k)
    } else {
        n - 1
    }
}

/// The reading of a generator is among those of all, under its number.
proof fn lemma_reading_place(
    gs: Seq<Generator>,
    tick: u64,
    speed: u64,
    draws: Seq<Level>,
    n: nat,
    i: int,
) -> (k: int)
    requires
        0 <= i < n,
        gs[i].reading(tick, speed, draw_for(gs, tick, speed, draws, i)) is Some,
    ensures
        0 <= k < readings_of(gs, tick, speed, draws, n).len(),
        readings_of(gs, tick, speed, draws, n)[k] == (
            i as usize,
            gs[i].reading(tick, speed, draw_for(gs, tick, speed, draws, i))->0,
        ),
    decreases n,
{
    if i < n - 1 {
        lemma_reading_place(gs, tick, speed, draws, (n - 1) as nat, i)
    } else {
        readings_of(gs, tick, speed, draws, n).len() - 1
    }
}

/// Where ways between levels from zero to one stay in that range, every level that the host is told
/// lies in it, and so do the levels that the generators go on with.
pub proof fn told_levels_stay_in_unit_range<F: Fn(Level, Level, u64, u64) -> Level>(
    way: F,
    shared: PluginShared,
    draws: Seq<Level>,
    values: Seq<(usize, Level)>,
)
    requires
        shared.on_course(),
        shared.tick + effective_speed(shared.inputs.speed) <= u64::MAX,
        forall|i: int|
            0 <= i < shared.generators@.len() ==> (
            #[trigger] shared.generators@[i]).in_closed_unit_range(),
        draws.len() == shared.spec_draws_needed(),
        forall|k: int| 0 <= k < draws.len() ==> (#[trigger] draws[k]).in_closed_unit_range(),
        stays_in_unit_range(way),
        resolves_all(way, shared.readings(draws), values),
    ensures
        forall|k: int| 0 <= k < values.len() ==> (#[trigger] values[k]).1.in_closed_unit_range(),
        forall|i: int|
            0 <= i < shared.stepped(draws).len() ==> (
            #[trigger] shared.stepped(draws)[i]).in_closed_unit_range(),
{
    let gs = shared.generators@;
    let tick = shared.tick;
    let speed = effective_speed(shared.inputs.speed);
    assert forall|i: int| 0 <= i < gs.len() && gs[i].spec_wants_draw(tick, speed) implies (
    #[trigger] draw_for(gs, tick, speed, draws, i)).in_closed_unit_range() by {
        lemma_draws_needed_grows(gs, tick, speed, (i + 1) as nat, gs.len());
    }
    assert forall|i: int| 0 <= i < gs.len() implies (
    #[trigger] shared.stepped(draws)[i]).in_closed_unit_range() by {
        assert(gs[i].in_closed_unit_range());
    }
    assert forall|k: int| 0 <= k < values.len() implies (
    #[trigger] values[k]).1.in_closed_unit_range() by {
        let i = lemma_reading_source(gs, tick, speed, draws, gs.len(), k);
        assert(gs[i].on_course(tick));
        assert(shared.stepped(draws)[i].in_closed_unit_range());
        assert(resolves(way, shared.readings(draws)[k], values[k]));
    }
}

/// An interpolating generator whose target is reached starts its way to the new random level from
/// that target, and the host is told the old target: the controller does not jump. Until then the
/// generator stays as it is.
pub proof fn reached_targets_are_told<F: Fn(Level, Level, u64, u64) -> Level>(
    way: F,
    shared: PluginShared,
    draws: Seq<Level>,
    values: Seq<(usize, Level)>,
    i: int,
)
    requires
        0 <= i < shared.generators@.len(),
        shared.generators@[i].kind() == GeneratorType::RandomInter,
        shared.tick + effective_speed(shared.inputs.speed) <= u64::MAX,
        draws.len() == shared.spec_draws_needed(),
        forall|k: int| 0 <= k < draws.len() ==> (#[trigger] draws[k]).in_unit_range(),
        shared.generators@[i]->target_value.finite(),
        resolves_all(way, shared.readings(draws), values),
    ensures
        shared.tick >= shared.generators@[i]->target_tick ==> {
            &&& values.contains(
                (i as usize, shared.generators@[i]->target_value.spec_unsigned_zero()),
            )
            &&& shared.stepped(draws)[i] == Generator::RandomInter {
                target_value: shared.draw_for(draws, i),
                target_tick: (shared.tick + effective_speed(shared.inputs.speed)) as u64,
                initial_value: shared.generators@[i]->target_value,
                initial_tick: shared.tick,
            }
            &&& shared.draw_for(draws, i).in_unit_range()
            &&& draws.contains(shared.draw_for(draws, i))
        },
        shared.tick < shared.generators@[i]->target_tick ==> shared.stepped(draws)[i]
            == shared.generators@[i],
{
    let gs = shared.generators@;
    let tick = shared.tick;
    let speed = effective_speed(shared.inputs.speed);
    let draw = shared.draw_for(draws, i);
    if tick >= gs[i]->target_tick {
        lemma_draws_needed_grows(gs, tick, speed, (i + 1) as nat, gs.len());
        let k = lemma_reading_place(gs, tick, speed, draws, gs.len(), i);
        assert(resolves(way, shared.readings(draws)[k], values[k]));
        resolved_ways_begin_at_the_old_target(
            way,
            gs[i],
            i as usize,
            tick,
            speed,
            draw,
            values[k],
        );
    }
}

/// After loading, the generators can run on every tick from the first one on, as long as the tick
/// count has room for one more way. An interpolating one then starts from its saved target, and the
/// host is told that target, whatever ticks were saved.
pub proof fn loaded_ways_begin_at_the_saved_target<F: Fn(Level, Level, u64, u64) -> Level>(
    way: F,
    before: PluginShared,
    bytes: Seq<u8>,
    loaded: Result<(), LoadError>,
    after: PluginShared,
    now: PluginShared,
    draws: Seq<Level>,
    values: Seq<(usize, Level)>,
    i: int,
)
    requires
        load_outcome(before, bytes, loaded, after),
        loaded is Ok,
        now.inputs == after.inputs,
        now.generators@ == after.generators@,
        now.tick >= 1,
        now.tick + effective_speed(now.inputs.speed) <= u64::MAX,
        0 <= i < after.generators@.len(),
        after.generators@[i].kind() == GeneratorType::RandomInter,
        draws.len() == now.spec_draws_needed(),
        forall|k: int| 0 <= k < draws.len() ==> (#[trigger] draws[k]).in_unit_range(),
        after.generators@[i]->target_value.finite(),
        resolves_all(way, now.readings(draws), values),
    ensures
        now.can_generate(),
        values.contains((i as usize, after.generators@[i]->target_value.spec_unsigned_zero())),
        now.stepped(draws)[i] == (Generator::RandomInter {
            target_value: now.draw_for(draws, i),
            target_tick: (now.tick + effective_speed(now.inputs.speed)) as u64,
            initial_value: after.generators@[i]->target_value,
            initial_tick: now.tick,
        }),
{
    let (inputs, saved) = choose|inputs: PluginInputs, generators: Seq<Generator>| #[trigger]
        save::saved_bytes(inputs, generators).is_prefix_of(bytes);
    assert(after.generators@ == rewound_all(saved));
    assert(now.on_course());
    on_course_can_generate(now);
    reached_targets_are_told(way, now, draws, values, i);
}

/// A speed counts as it is, but for zero, which counts as one.
pub proof fn speeds_count_as_they_are(speed: u64)
    ensures
        speed > 0 ==> effective_speed(speed) == speed,
        effective_speed(0) == 1,
{
}

/// Every tick is counted, whatever the state is and whatever values wait to be told. It changes the
/// generators, the inputs and the editor in nothing, and leaves no values behind.
pub proof fn every_tick_is_counted(shared: PluginShared, other: PluginShared)
    ensures
        shared.tick < u64::MAX ==> shared.ticked().tick == shared.tick + 1,
        shared.tick == u64::MAX ==> shared.ticked().tick == 0,
        shared.tick == other.tick ==> shared.ticked().tick == other.ticked().tick,
        shared.ticked().tick_happened,
        shared.ticked().controller_values is None,
        shared.ticked().generators == shared.generators,
        shared.ticked().inputs == shared.inputs,
        shared.ticked().editor_visible == shared.editor_visible,
{
}

/// Publishing values replaces those that wait to be told, and changes nothing else.
pub proof fn publishing_changes_nothing_else(shared: PluginShared, values: Vec<(usize, Level)>)
    ensures
        shared.published(values).controller_values == Some(values),
        shared.published(values).tick == shared.tick,
        shared.published(values).tick_happened == shared.tick_happened,
        shared.published(values).generators == shared.generators,
        shared.published(values).inputs == shared.inputs,
        shared.published(values).editor_visible == shared.editor_visible,
{
}

/// The host is told of each waiting level, in their order: the number of its controller and, in the
/// upper half, how many 4096ths the level is.
pub proof fn each_waiting_level_is_told(shared: PluginShared, k: int)
    ensures
        shared.controller_values is None ==> shared.told_values().len() == 0,
        shared.controller_values matches Some(levels) ==> {
            &&& shared.told_values().len() == levels@.len()
            &&& 0 <= k < levels@.len() ==> {
                &&& shared.told_values()[k].0 == levels@[k].0
                &&& shared.told_values()[k].1 / 0x1_0000_0000 == levels@[k].1.in_4096ths()
                    % 0x1_0000_0000
                &&& shared.told_values()[k].1 % 0x1_0000_0000 == 0
            }
        },
{
}

/// A value that is told of a controller is the level that was read for it, or lies on the way that
/// was read: from the first level towards the second one, as far as was read. Nothing of the way
/// having passed, it is the first level.
pub proof fn values_are_what_was_read<F: Fn(Level, Level, u64, u64) -> Level>(
    way: F,
    readings: Seq<(usize, Reading)>,
    values: Seq<(usize, Level)>,
    k: int,
)
    requires
        resolves_all(way, readings, values),
        0 <= k < readings.len(),
    ensures
        values.len() == readings.len(),
        values[k].0 == readings[k].0,
        match readings[k].1 {
            Reading::Exact(level) => values[k].1 == level,
            Reading::Between { initial, target, elapsed, span } => {
                &&& elapsed > 0 || span == 0 || target.bits >= 0x3f80_0000 ==> call_ensures(
                    way,
                    (initial, target, elapsed, span),
                    values[k].1,
                )
                &&& elapsed == 0 && span > 0 && initial.bits < 0x7f80_0000 && target.bits
                    < 0x3f80_0000 ==> values[k].1 == initial
                &&& elapsed == 0 && span > 0 && 0x8000_0000 < initial.bits < 0xff80_0000
                    && target.bits < 0x3f80_0000 ==> values[k].1 == initial
                &&& elapsed == 0 && span > 0 && initial.bits == 0x8000_0000 && target.bits
                    < 0x3f80_0000 ==> values[k].1.bits == 0
                &&& !initial.finite() ==> call_ensures(
                    way,
                    (initial, target, elapsed, span),
                    values[k].1,
                )
            },
        },
{
    assert(resolves(way, readings[k], values[k]));
    if let Reading::Between { initial, .. } = readings[k].1 {
        level::ranges_of_levels(initial);
    }
}

/// As many random levels are needed as there are generators that draw one: those that interpolate
/// and have reached their target, and the other ones where the speed divides the tick. The level
/// for a generator is the one that comes after those for the generators in front of it.
pub proof fn draws_are_shared_out_in_turn(
    gs: Seq<Generator>,
    tick: u64,
    speed: u64,
    draws: Seq<Level>,
    n: nat,
)
    requires
        n <= gs.len(),
    ensures
        draws_needed_by(gs, tick, speed, n) == gs.take(n as int).filter(
            |g: Generator|
                match g {
                    Generator::Random => tick % speed == 0,
                    Generator::RandomInter { target_tick, .. } => tick >= target_tick,
                },
        ).len(),
        draw_for(gs, tick, speed, draws, n as int) == draws[gs.take(n as int).filter(
            |g: Generator|
                match g {
                    Generator::Random => tick % speed == 0,
                    Generator::RandomInter { target_tick, .. } => tick >= target_tick,
                },
        ).len() as int],
    decreases n,
{
    reveal(Seq::filter);
    if n > 0 {
        draws_are_shared_out_in_turn(gs, tick, speed, draws, (n - 1) as nat);
        assert(gs.take(n as int).drop_last() == gs.take(n - 1));
        assert(gs.take(n as int).last() == gs[n - 1]);
    }
}

/// What is shown of a level is that of a generator, under its number.
proof fn lemma_shown_source(
    gs: Seq<Generator>,
    tick: u64,
    speed: u64,
    draws: Seq<Level>,
    n: nat,
    k: int,
) -> (i: int)
    requires
        0 <= k < shown_of(gs, tick, speed, draws, n).len(),
    ensures
        0 <= i < n,
        gs[i].shown(tick, speed, draw_for(gs, tick, speed, draws, i)) == Some(
            shown_of(gs, tick, speed, draws, n)[k].1,
        ),
        shown_of(gs, tick, speed, draws, n)[k].0 == i as usize,
    decreases n,
{
    let before = shown_of(gs, tick, speed, draws, (n - 1) as nat);
    if k < before.len() {
        lemma_shown_source(gs, tick, speed, draws, (n - 1) as nat, k)
    } else {
        n - 1
    }
}

/// What a generator shows is among what all show, under its number.
proof fn lemma_shown_place(
    gs: Seq<Generator>,
    tick: u64,
    speed: u64,
    draws: Seq<Level>,
    n: nat,
    i: int,
) -> (k: int)
    requires
        0 <= i < n,
        gs[i].shown(tick, speed, draw_for(gs, tick, speed, draws, i)) is Some,
    ensures
        0 <= k < shown_of(gs, tick, speed, draws, n).len(),
        shown_of(gs, tick, speed, draws, n)[k] == (
            i as usize,
            gs[i].shown(tick, speed, draw_for(gs, tick, speed, draws, i))->0,
        ),
    decreases n,
{
    if i < n - 1 {
        lemma_shown_place(gs, tick, speed, draws, (n - 1) as nat, i)
    } else {
        shown_of(gs, tick, speed, draws, n).len() - 1
    }
}

/// The host is told of a controller what its generator reads, and the editor is shown what its
/// generator shows: that, and nothing else.
pub proof fn each_generator_speaks_for_its_controller(
    shared: PluginShared,
    draws: Seq<Level>,
    i: int,
    reading: Reading,
    level: Level,
)
    requires
        0 <= i < shared.generators@.len(),
    ensures
        shared.readings(draws).contains((i as usize, reading)) <==> shared.generators@[i].reading(
            shared.tick,
            effective_speed(shared.inputs.speed),
            shared.draw_for(draws, i),
        ) == Some(reading),
        shared.shown(draws).contains((i as usize, level)) <==> shared.generators@[i].shown(
            shared.tick,
            effective_speed(shared.inputs.speed),
            shared.draw_for(draws, i),
        ) == Some(level),
        shared.stepped(draws).len() == shared.generators@.len(),
        shared.stepped(draws)[i] == shared.generators@[i].stepped(
            shared.tick,
            effective_speed(shared.inputs.speed),
            shared.draw_for(draws, i),
        ),
{
    let gs = shared.generators@;
    let tick = shared.tick;
    let speed = effective_speed(shared.inputs.speed);
    assert(gs.len() == shared.generators.len());
    let draw = shared.draw_for(draws, i);
    let told = (i as usize, reading);
    if shared.readings(draws).contains(told) {
        let k = choose|k: int|
            0 <= k < shared.readings(draws).len() && shared.readings(draws)[k] == told;
        let j = lemma_reading_source(gs, tick, speed, draws, gs.len(), k);
        assert(j == i);
    }
    if gs[i].reading(tick, speed, draw) is Some {
        let k = lemma_reading_place(gs, tick, speed, draws, gs.len(), i);
        assert(shared.readings(draws)[k].0 == i);
    }
    let seen = (i as usize, level);
    if shared.shown(draws).contains(seen) {
        let k = choose|k: int| 0 <= k < shared.shown(draws).len() && shared.shown(draws)[k] == seen;
        let j = lemma_shown_source(gs, tick, speed, draws, gs.len(), k);
        assert(j == i);
    }
    if gs[i].shown(tick, speed, draw) is Some {
        let k = lemma_shown_place(gs, tick, speed, draws, gs.len(), i);
        assert(shared.shown(draws)[k].0 == i);
    }
}

/// On each tick short of its target, the host is told of an interpolating generator's own way, from
/// its initial level to its target, whatever the speed is by now. The generator stays as it is, and
/// the editor is shown nothing of it.
pub proof fn controllers_glide_to_their_targets(
    shared: PluginShared,
    draws: Seq<Level>,
    i: int,
    level: Level,
)
    requires
        0 <= i < shared.generators@.len(),
        shared.generators@[i].kind() == GeneratorType::RandomInter,
        shared.generators@[i]->initial_tick <= shared.tick < shared.generators@[i]->target_tick,
    ensures
        shared.readings(draws).contains(
            (
                i as usize,
                Reading::Between {
                    initial: shared.generators@[i]->initial_value,
                    target: shared.generators@[i]->target_value,
                    elapsed: (shared.tick - shared.generators@[i]->initial_tick) as u64,
                    span: (shared.generators@[i]->target_tick
                        - shared.generators@[i]->initial_tick) as u64,
                },
            ),
        ),
        shared.stepped(draws)[i] == shared.generators@[i],
        !shared.shown(draws).contains((i as usize, level)),
{
    let g = shared.generators@[i];
    let reading = Reading::Between {
        initial: g->initial_value,
        target: g->target_value,
        elapsed: (shared.tick - g->initial_tick) as u64,
        span: (g->target_tick - g->initial_tick) as u64,
    };
    each_generator_speaks_for_its_controller(shared, draws, i, reading, level);
}

/// On each tick that the speed divides, a controller that does not glide jumps to the level that was
/// drawn for it: the host is told that level, and the editor is shown the same. On the other ticks
/// neither gets anything of it.
pub proof fn controllers_jump_to_the_drawn_levels(
    shared: PluginShared,
    draws: Seq<Level>,
    i: int,
    reading: Reading,
    level: Level,
)
    requires
        0 <= i < shared.generators@.len(),
        shared.generators@[i].kind() == GeneratorType::Random,
        shared.inputs.speed > 0,
    ensures
        shared.readings(draws).contains((i as usize, reading)) <==> shared.tick
            % shared.inputs.speed == 0 && reading == Reading::Exact(shared.draw_for(draws, i)),
        shared.shown(draws).contains((i as usize, level)) <==> shared.tick % shared.inputs.speed
            == 0 && level == shared.draw_for(draws, i),
        shared.stepped(draws)[i] == shared.generators@[i],
{
    each_generator_speaks_for_its_controller(shared, draws, i, reading, level);
}

/// A controller whose target is reached has the new target shown, and the host is told that it
/// stands at the old one.
pub proof fn controllers_turn_at_their_targets(shared: PluginShared, draws: Seq<Level>, i: int)
    requires
        0 <= i < shared.generators@.len(),
        shared.generators@[i].kind() == GeneratorType::RandomInter,
        shared.generators@[i]->target_tick <= shared.tick,
        shared.inputs.speed > 0,
        shared.tick + shared.inputs.speed <= u64::MAX,
    ensures
        shared.readings(draws).contains(
            (
                i as usize,
                Reading::Between {
                    initial: shared.generators@[i]->target_value,
                    target: shared.draw_for(draws, i),
                    elapsed: 0,
                    span: shared.inputs.speed,
                },
            ),
        ),
        shared.shown(draws).contains((i as usize, shared.draw_for(draws, i))),
{
    let reading = Reading::Between {
        initial: shared.generators@[i]->target_value,
        target: shared.draw_for(draws, i),
        elapsed: 0,
        span: shared.inputs.speed,
    };
    each_generator_speaks_for_its_controller(
        shared,
        draws,
        i,
        reading,
        shared.draw_for(draws, i),
    );
}

/// The generators can run exactly where every way that is reached has room for one more, and every
/// other one has begun.
pub proof fn generators_run_where_ticks_have_room(shared: PluginShared, i: int)
    requires
        shared.can_generate(),
        shared.inputs.speed > 0,
        0 <= i < shared.generators@.len(),
        shared.generators@[i].kind() == GeneratorType::RandomInter,
    ensures
        shared.generators@[i]->target_tick <= shared.tick ==> shared.tick + shared.inputs.speed
            <= u64::MAX,
        shared.tick < shared.generators@[i]->target_tick ==> shared.generators@[i]->initial_tick
            <= shared.tick,
{
    assert(shared.generators@[i].can_step(shared.tick, effective_speed(shared.inputs.speed)));
}

/// Loading what was saved restores the three inputs and each generator in its place: its kind, its
/// target and its initial level are those that were saved. Only the ticks of its way start over.
pub proof fn loading_restores_the_saved_levels(
    saved: PluginShared,
    rest: Seq<u8>,
    before: PluginShared,
    loaded: Result<(), LoadError>,
    after: PluginShared,
    i: int,
)
    requires
        load_outcome(
            before,
            save::saved_bytes(saved.inputs, saved.generators@) + rest,
            loaded,
            after,
        ),
    ensures
        loaded is Ok,
        after.inputs.seed == saved.inputs.seed,
        after.inputs.speed == saved.inputs.speed,
        after.inputs.test_val == saved.inputs.test_val,
        after.generators@.len() == saved.generators@.len(),
        0 <= i < saved.generators@.len() ==> match saved.generators@[i] {
            Generator::Random => after.generators@[i] == Generator::Random,
            Generator::RandomInter { target_value, initial_value, .. } => {
                after.generators@[i] matches Generator::RandomInter {
                    target_value: target,
                    target_tick,
                    initial_value: initial,
                    initial_tick,
                } && target == target_value && initial == initial_value && target_tick == 1
                    && initial_tick == 0
            },
        },
{
    saved_state_is_loaded_back(saved, rest, before, loaded, after);
}

/// Loading leaves the tick count, the waiting values and the editor alone. Where it fails, it leaves
/// the inputs and the generators alone too.
pub proof fn loading_changes_nothing_else(
    before: PluginShared,
    bytes: Seq<u8>,
    loaded: Result<(), LoadError>,
    after: PluginShared,
)
    requires
        load_outcome(before, bytes, loaded, after),
    ensures
        after.tick == before.tick,
        after.tick_happened == before.tick_happened,
        after.controller_values == before.controller_values,
        after.editor_visible == before.editor_visible,
        loaded is Err ==> after.inputs == before.inputs && after.generators == before.generators,
{
}

/// Bytes that are laid out like a state, but marked with another version than zero, are refused as
/// such. Bytes that are too few for a state are refused as malformed.
pub proof fn other_bytes_are_refused(
    before: PluginShared,
    bytes: Seq<u8>,
    loaded: Result<(), LoadError>,
    after: PluginShared,
    version: u32,
    inputs: (u64, u64, u64),
    generators: Seq<PlainGenerator>,
)
    requires
        load_outcome(before, bytes, loaded, after),
        bytes.len() <= usize::MAX,
    ensures
        version != 0 && save::begins_with_state(bytes, version, inputs, generators) ==> loaded
            == Err::<(), LoadError>(LoadError::UnknownVersion),
        bytes.len() < 36 ==> loaded == Err::<(), LoadError>(LoadError::Malformed),
        loaded is Ok ==> bytes.len() >= 36 && save::number(bytes.take(4)) == 0,
{
    if version != 0 && save::begins_with_state(bytes, version, inputs, generators) {
        if loaded is Ok {
            let (i, g) = choose|i: PluginInputs, g: Seq<Generator>| #[trigger]
                save::saved_bytes(i, g).is_prefix_of(bytes);
            let plain = (i.seed, i.speed, i.test_val);
            assert(save::begins_with_state(bytes, 0, plain, save::plain_generators(g)));
            save::lemma_state_len(bytes, 0, plain, save::plain_generators(g));
            save::lemma_state_len(bytes, version, inputs, generators);
            save::states_are_told_apart(
                bytes,
                0,
                plain,
                save::plain_generators(g),
                version,
                inputs,
                generators,
            );
        }
    }
    if bytes.len() < 36 {
        assert forall|v: u32, i: (u64, u64, u64), g: Seq<PlainGenerator>|
            !#[trigger] save::begins_with_state(bytes, v, i, g) by {
            save::lemma_state_fields(v, i, g);
        }
        if loaded is Ok {
            let (i, g) = choose|i: PluginInputs, g: Seq<Generator>| #[trigger]
                save::saved_bytes(i, g).is_prefix_of(bytes);
            assert(save::begins_with_state(
                bytes,
                0,
                (i.seed, i.speed, i.test_val),
                save::plain_generators(g),
            ));
        }
    }
    if loaded is Ok {
        let (i, g) = choose|i: PluginInputs, g: Seq<Generator>| #[trigger]
            save::saved_bytes(i, g).is_prefix_of(bytes);
        save::saved_inputs_lie_in_their_places(i, g);
        assert(bytes.take(4) == save::saved_bytes(i, g).take(4));
    }
}

} // verus!
