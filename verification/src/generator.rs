//! The generators behind the output controllers.

use vstd::prelude::*;

use crate::level::Level;

verus! {

/// The kinds of generators that the user can pick.
#[derive(Clone, Copy, Debug, PartialEq, Eq, Structural)]
pub enum GeneratorType {
    Random,
    RandomInter,
}

impl GeneratorType {
    /// The name under which the editor offers the kind.
    pub open spec fn spec_name(self) -> Seq<char> {
        match self {
            GeneratorType::Random => "Random"@,
            GeneratorType::RandomInter => "RandomInter"@,
        }
    }

    /// The name under which the editor offers the kind.
    pub fn name(self) -> (name: &'static str)
        ensures
            name@ == self.spec_name(),
    {
        match self {
            GeneratorType::Random => "Random",
            GeneratorType::RandomInter => "RandomInter",
        }
    }

    /// The kind with the given name.
    pub fn from_name(name: &String) -> (kind: Option<GeneratorType>)
        ensures
            kind matches Some(k) ==> name@ == k.spec_name(),
            kind is None ==> forall|k: GeneratorType| name@ != #[trigger] k.spec_name(),
    {
        if *name == String::from_str("Random") {
            Some(GeneratorType::Random)
        } else if *name == String::from_str("RandomInter") {
            Some(GeneratorType::RandomInter)
        } else {
            None
        }
    }

    /// The line that the host's debug log gets when all generators change to this kind.
    pub fn change_line(self) -> (line: String)
        ensures
            line@ == "changing generators to "@ + self.spec_name(),
    {
        let mut line = String::from_str("changing generators to ");
        line.append(self.name());
        line
    }
}

/// No two kinds go by one name.
pub proof fn names_tell_kinds_apart(a: GeneratorType, b: GeneratorType)
    requires
        a.spec_name() == b.spec_name(),
    ensures
        a == b,
{
    reveal_strlit("Random");
    reveal_strlit("RandomInter");
    assert("Random"@.len() == 6);
    assert("RandomInter"@.len() == 11);
}

/// What moves one output controller.
#[derive(Clone, Copy, Debug, PartialEq, Eq, Structural)]
pub enum Generator {
    /// Random value.
    Random,
    /// Random value, interpolating towards the next one.
    RandomInter {
        /// Where to get to.
        target_value: Level,
        target_tick: u64,
        /// Where we are coming from.
        initial_value: Level,
        initial_tick: u64,
    },
}

/// A value for a controller.
#[derive(Clone, Copy, Debug, PartialEq, Eq, Structural)]
pub enum Reading {
    /// The level itself.
    Exact(Level),
    /// The level that lies `elapsed` parts of `span` on the way from `initial` to `target`.
    Between { initial: Level, target: Level, elapsed: u64, span: u64 },
}

/// What one generator puts out on one tick.
#[derive(Clone, Copy, Debug, PartialEq, Eq, Structural)]
pub struct Step {
    /// The value for the host, if there is one on this tick.
    pub reading: Option<Reading>,
    /// The level for the editor's chart, if a new one was drawn.
    pub shown: Option<Level>,
}

impl Generator {
    pub open spec fn spec_fresh(kind: GeneratorType) -> Generator {
        match kind {
            GeneratorType::Random => Generator::Random,
            GeneratorType::RandomInter => Generator::RandomInter {
                target_value: Level { bits: 0 },
                target_tick: 1,
                initial_value: Level { bits: 0 },
                initial_tick: 0,
            },
        }
    }

    /// A generator of the given kind that has not run yet. One that interpolates rests at zero
    /// and draws its first target on tick one.
    pub fn fresh(kind: GeneratorType) -> (generator: Generator)
        ensures
            generator == Generator::spec_fresh(kind),
    {
        match kind {
            GeneratorType::Random => Generator::Random,
            GeneratorType::RandomInter => Generator::RandomInter {
                target_value: Level::zero(),
                target_tick: 1,
                initial_value: Level::zero(),
                initial_tick: 0,
            },
        }
    }

    pub open spec fn kind(self) -> GeneratorType {
        match self {
            Generator::Random => GeneratorType::Random,
            Generator::RandomInter { .. } => GeneratorType::RandomInter,
        }
    }

    /// Whether the generator needs a new random level on this tick: one that interpolates does
    /// once its target is reached, the other one on every tick that `speed` divides.
    pub open spec fn spec_wants_draw(self, tick: u64, speed: u64) -> bool {
        match self {
            Generator::Random => tick % speed == 0,
            Generator::RandomInter { target_tick, .. } => tick >= target_tick,
        }
    }

    /// Whether the tick arithmetic of one step stays in range.
    pub open spec fn can_step(self, tick: u64, speed: u64) -> bool {
        match self {
            Generator::Random => true,
            Generator::RandomInter { target_tick, initial_tick, .. } => if tick >= target_tick {
                tick + speed <= u64::MAX
            } else {
                initial_tick <= tick
            },
        }
    }

    /// Whether the way to the target has a length and has begun by `tick`.
    pub open spec fn on_course(self, tick: u64) -> bool {
        match self {
            Generator::Random => true,
            Generator::RandomInter { target_tick, initial_tick, .. } => {
                initial_tick < target_tick && initial_tick <= tick
            },
        }
    }

    /// Whether the levels held lie in the half open range from zero to one.
    pub open spec fn in_unit_range(self) -> bool {
        match self {
            Generator::Random => true,
            Generator::RandomInter { target_value, initial_value, .. } => {
                target_value.in_unit_range() && initial_value.in_unit_range()
            },
        }
    }

    /// Whether the levels held lie between zero and one, both ends among them.
    pub open spec fn in_closed_unit_range(self) -> bool {
        match self {
            Generator::Random => true,
            Generator::RandomInter { target_value, initial_value, .. } => {
                target_value.in_closed_unit_range() && initial_value.in_closed_unit_range()
            },
        }
    }

    /// The generator after one step. `draw` is the new random level, where one is needed.
    pub open spec fn stepped(self, tick: u64, speed: u64, draw: Level) -> Generator {
        match self {
            Generator::Random => self,
            Generator::RandomInter { target_value, target_tick, .. } => if tick >= target_tick {
                Generator::RandomInter {
                    target_value: draw,
                    target_tick: (tick + speed) as u64,
                    initial_value: target_value,
                    initial_tick: tick,
                }
            } else {
                self
            },
        }
    }

    /// What the host is told on this tick.
    pub open spec fn reading(self, tick: u64, speed: u64, draw: Level) -> Option<Reading> {
        match self.stepped(tick, speed, draw) {
            Generator::Random => if tick % speed == 0 {
                Some(Reading::Exact(draw))
            } else {
                None
            },
            Generator::RandomInter { target_value, target_tick, initial_value, initial_tick } => {
                Some(
                    Reading::Between {
                        initial: initial_value,
                        target: target_value,
                        elapsed: (tick - initial_tick) as u64,
                        span: (target_tick - initial_tick) as u64,
                    },
                )
            },
        }
    }

    /// What the editor is shown on this tick: each new random level.
    pub open spec fn shown(self, tick: u64, speed: u64, draw: Level) -> Option<Level> {
        if self.spec_wants_draw(tick, speed) {
            Some(draw)
        } else {
            None
        }
    }

    /// Whether the generator needs a new random level on this tick.
    pub fn wants_draw(&self, tick: u64, speed: u64) -> (wants: bool)
        requires
            speed > 0,
        ensures
            wants == self.spec_wants_draw(tick, speed),
    {
        match self {
            Generator::Random => tick % speed == 0,
            Generator::RandomInter { target_tick, .. } => tick >= *target_tick,
        }
    }

    /// Reports whether the tick arithmetic of one step stays in range.
    pub fn ready(&self, tick: u64, speed: u64) -> (ready: bool)
        ensures
            ready == self.can_step(tick, speed),
    {
        match self {
            Generator::Random => true,
            Generator::RandomInter { target_tick, initial_tick, .. } => if tick >= *target_tick {
                speed <= u64::MAX - tick
            } else {
                *initial_tick <= tick
            },
        }
    }

    /// Runs the generator for one tick. `draw` is used only where a new random level is needed.
    pub fn step(&mut self, tick: u64, speed: u64, draw: Level) -> (step: Step)
        requires
            speed > 0,
            old(self).can_step(tick, speed),
        ensures
            *final(self) == old(self).stepped(tick, speed, draw),
            step.reading == old(self).reading(tick, speed, draw),
            step.shown == old(self).shown(tick, speed, draw),
    {
        match *self {
            Generator::Random => if tick % speed == 0 {
                Step { reading: Some(Reading::Exact(draw)), shown: Some(draw) }
            } else {
                Step { reading: None, shown: None }
            },
            Generator::RandomInter { target_value, target_tick, initial_value, initial_tick } => {
                if tick >= target_tick {
                    *self = Generator::RandomInter {
                        target_value: draw,
                        target_tick: tick + speed,
                        initial_value: target_value,
                        initial_tick: tick,
                    };
                    Step {
                        reading: Some(
                            Reading::Between {
                                initial: target_value,
                                target: draw,
                                elapsed: 0,
                                span: speed,
                            },
                        ),
                        shown: Some(draw),
                    }
                } else {
                    Step {
                        reading: Some(
                            Reading::Between {
                                initial: initial_value,
                                target: target_value,
                                elapsed: tick - initial_tick,
                                span: target_tick - initial_tick,
                            },
                        ),
                        shown: None,
                    }
                }
            },
        }
    }

    /// Sends an interpolating generator back to the start of its way, at its present levels.
    pub open spec fn rewound(self) -> Generator {
        match self {
            Generator::Random => self,
            Generator::RandomInter { target_value, initial_value, .. } => Generator::RandomInter {
                target_value,
                target_tick: 1,
                initial_value,
                initial_tick: 0,
            },
        }
    }

    /// Sends an interpolating generator back to the start of its way, at its present levels.
    pub fn rewind(&mut self)
        ensures
            *final(self) == old(self).rewound(),
    {
        if let Generator::RandomInter { target_value, initial_value, .. } = *self {
            *self = Generator::RandomInter {
                target_value,
                target_tick: 1,
                initial_value,
                initial_tick: 0,
            };
        }
    }
}

/// A generator on course stays on course through a step, at that tick and at every later one.
pub proof fn steps_stay_on_course(g: Generator, tick: u64, later: u64, speed: u64, draw: Level)
    requires
        speed > 0,
        g.on_course(tick),
        g.can_step(tick, speed),
        tick <= later,
    ensures
        g.stepped(tick, speed, draw).on_course(later),
{
}

/// A generator on course can always take its step, as long as the tick count has room for one
/// more way.
pub proof fn on_course_can_step(g: Generator, tick: u64, speed: u64)
    requires
        g.on_course(tick),
        tick + speed <= u64::MAX,
    ensures
        g.can_step(tick, speed),
{
}

/// An interpolating generator on course tells the host, on every tick, a place on its way that is
/// short of the target.
pub proof fn readings_lie_on_the_way(g: Generator, tick: u64, speed: u64, draw: Level)
    requires
        speed > 0,
        g.on_course(tick),
        g.can_step(tick, speed),
        g.kind() == GeneratorType::RandomInter,
    ensures
        g.reading(tick, speed, draw) matches Some(Reading::Between { elapsed, span, .. })
            && elapsed < span,
{
}

/// On the tick on which the target is reached, the host is told the old target itself, with
/// nothing of the new way covered: the controller does not jump.
pub proof fn targets_are_reached(g: Generator, tick: u64, speed: u64, draw: Level)
    requires
        speed > 0,
        g.can_step(tick, speed),
        g.kind() == GeneratorType::RandomInter,
        g.spec_wants_draw(tick, speed),
    ensures
        g.reading(tick, speed, draw) == Some(
            Reading::Between {
                initial: g->target_value,
                target: draw,
                elapsed: 0,
                span: speed,
            },
        ),
{
}

/// Between two steps of one way the host is told the same two ends, ever further along.
pub proof fn readings_move_forward(
    g: Generator,
    tick: u64,
    later: u64,
    speed: u64,
    draw: Level,
    later_draw: Level,
)
    requires
        speed > 0,
        g.on_course(tick),
        g.can_step(tick, speed),
        g.kind() == GeneratorType::RandomInter,
        tick < later < g.stepped(tick, speed, draw)->target_tick,
    ensures
        g.reading(tick, speed, draw) matches Some(Reading::Between { initial, target, elapsed, span })
            && g.stepped(tick, speed, draw).reading(later, speed, later_draw) == Some(
            Reading::Between { initial, target, elapsed: (elapsed + (later - tick)) as u64, span },
        ),
{
}

/// After an interpolating generator has drawn a target, it draws the next one `speed` ticks
/// later and not before.
pub proof fn draws_are_one_way_apart(
    g: Generator,
    tick: u64,
    later: u64,
    speed: u64,
    later_speed: u64,
    draw: Level,
)
    requires
        speed > 0,
        g.can_step(tick, speed),
        g.kind() == GeneratorType::RandomInter,
        g.spec_wants_draw(tick, speed),
    ensures
        g.stepped(tick, speed, draw).spec_wants_draw(later, later_speed) <==> later >= tick + speed,
{
}

/// Levels drawn from zero up to one keep a generator's levels, and what it tells the host and
/// the editor, in that range.
pub proof fn steps_stay_in_unit_range(g: Generator, tick: u64, speed: u64, draw: Level)
    requires
        g.in_unit_range(),
        draw.in_unit_range(),
    ensures
        g.stepped(tick, speed, draw).in_unit_range(),
        match g.reading(tick, speed, draw) {
            Some(Reading::Exact(level)) => level.in_unit_range(),
            Some(Reading::Between { initial, target, .. }) => {
                initial.in_unit_range() && target.in_unit_range()
            },
            None => true,
        },
        g.shown(tick, speed, draw) matches Some(level) ==> level.in_unit_range(),
{
}

/// A step never changes the kind of a generator, and neither does rewinding it.
pub proof fn kinds_are_kept(g: Generator, tick: u64, speed: u64, draw: Level)
    ensures
        g.stepped(tick, speed, draw).kind() == g.kind(),
        g.rewound().kind() == g.kind(),
{
}

/// A rewound generator is on course on every tick, and rewinding it again changes nothing.
pub proof fn rewound_is_on_course(g: Generator, tick: u64)
    ensures
        g.rewound().on_course(tick),
        g.rewound().rewound() == g.rewound(),
        g.in_unit_range() ==> g.rewound().in_unit_range(),
{
}

/// A fresh generator is of its kind, in range and on course on every tick.
pub proof fn fresh_is_on_course(kind: GeneratorType, tick: u64)
    ensures
        Generator::spec_fresh(kind).kind() == kind,
        Generator::spec_fresh(kind).on_course(tick),
        Generator::spec_fresh(kind).in_unit_range(),
        Generator::spec_fresh(kind).rewound() == Generator::spec_fresh(kind),
{
}

/// Short of its target an interpolating generator keeps to its way, whatever the speed is by now:
/// nothing is drawn or shown, and the host is told how much has passed of the way that leads from
/// its initial level to its target.
pub proof fn ways_are_kept_up_to_their_target(g: Generator, tick: u64, speed: u64, draw: Level)
    requires
        g.kind() == GeneratorType::RandomInter,
        g->initial_tick <= tick < g->target_tick,
    ensures
        !g.spec_wants_draw(tick, speed),
        g.stepped(tick, speed, draw) == g,
        g.shown(tick, speed, draw) is None,
        g.reading(tick, speed, draw) matches Some(Reading::Between { initial, target, elapsed, span })
            && initial == g->initial_value && target == g->target_value && elapsed == tick
            - g->initial_tick && span == g->target_tick - g->initial_tick,
{
}

/// On a way that is not at its end, as many parts pass as there are ticks, at whatever speeds, and
/// the ends stay where they are.
pub proof fn ways_pass_with_the_ticks(
    g: Generator,
    tick: u64,
    speed: u64,
    draw: Level,
    later: u64,
    later_speed: u64,
    later_draw: Level,
)
    requires
        g.kind() == GeneratorType::RandomInter,
        g->initial_tick <= tick <= later < g->target_tick,
    ensures
        g.stepped(tick, speed, draw).reading(later, later_speed, later_draw) matches Some(
            Reading::Between { initial: new_initial, target: new_target, elapsed: more, span: all },
        ) && g.reading(tick, speed, draw) matches Some(
            Reading::Between { initial, target, elapsed, span },
        ) && new_initial == initial && new_target == target && more - elapsed == later - tick && all
            == span,
{
}

/// From the tick of its target on, an interpolating generator sets out from that target to the
/// level that is drawn. It gets there `speed` ticks later, and the drawn level is shown.
pub proof fn new_ways_lead_from_the_old_target_to_the_drawn_level(
    g: Generator,
    tick: u64,
    speed: u64,
    draw: Level,
)
    requires
        g.kind() == GeneratorType::RandomInter,
        g->target_tick <= tick,
        tick + speed <= u64::MAX,
    ensures
        g.spec_wants_draw(tick, speed),
        g.shown(tick, speed, draw) == Some(draw),
        g.reading(tick, speed, draw) matches Some(Reading::Between { initial, target, elapsed, span })
            && initial == g->target_value && target == draw && elapsed == 0 && span == speed,
        g.stepped(tick, speed, draw) matches Generator::RandomInter {
            target_value,
            target_tick,
            initial_value,
            initial_tick,
        } && target_value == draw && target_tick == tick + speed && initial_value == g->target_value
            && initial_tick == tick,
{
}

/// A generator that does not interpolate tells the host the level that was drawn for it, the same
/// one that is shown, on every tick that the speed divides. On the other ticks nothing is drawn,
/// told or shown. It has nothing to remember.
pub proof fn jumps_tell_the_drawn_level(g: Generator, tick: u64, speed: u64, draw: Level)
    requires
        speed > 0,
        g.kind() == GeneratorType::Random,
    ensures
        tick % speed == 0 ==> {
            &&& g.spec_wants_draw(tick, speed)
            &&& g.reading(tick, speed, draw) == Some(Reading::Exact(draw))
            &&& g.shown(tick, speed, draw) == Some(draw)
        },
        tick % speed != 0 ==> {
            &&& !g.spec_wants_draw(tick, speed)
            &&& g.reading(tick, speed, draw) is None
            &&& g.shown(tick, speed, draw) is None
        },
        g.stepped(tick, speed, draw) == g,
{
}

/// A generator that does not interpolate tells the host a level on each multiple of the speed, and
/// none between two of them.
pub proof fn jumps_come_on_multiples_of_the_speed(
    g: Generator,
    times: nat,
    extra: nat,
    tick: u64,
    speed: u64,
    draw: Level,
)
    requires
        extra < speed,
        tick == times * speed + extra,
        g.kind() == GeneratorType::Random,
    ensures
        g.reading(tick, speed, draw) == (if extra == 0 {
            Some(Reading::Exact(draw))
        } else {
            None
        }),
{
    vstd::arithmetic::div_mod::lemma_fundamental_div_mod_converse(
        tick as int,
        speed as int,
        times as int,
        extra as int,
    );
}

/// Rewinding a generator leaves both of its levels in their places, and sets the ticks of its way
/// to the first ones. One that does not interpolate stays as it is.
pub proof fn rewinding_keeps_the_levels(g: Generator)
    ensures
        g.kind() == GeneratorType::RandomInter ==> {
            &&& g.rewound()->target_value == g->target_value
            &&& g.rewound()->initial_value == g->initial_value
            &&& g.rewound()->target_tick == 1
            &&& g.rewound()->initial_tick == 0
        },
        g.kind() == GeneratorType::Random ==> g.rewound() == g,
        g.kind() == g.rewound().kind(),
{
}

/// Running a rewound generator has the host told its target, on whatever tick: the saved levels are
/// where it sets out from.
pub proof fn rewound_generators_set_out_from_their_target(
    g: Generator,
    tick: u64,
    speed: u64,
    draw: Level,
)
    requires
        g.kind() == GeneratorType::RandomInter,
        tick >= 1,
        tick + speed <= u64::MAX,
    ensures
        g.rewound().reading(tick, speed, draw) == Some(
            Reading::Between { initial: g->target_value, target: draw, elapsed: 0, span: speed },
        ),
        g.rewound().stepped(tick, speed, draw)->initial_value == g->target_value,
        g.rewound().stepped(tick, speed, draw)->target_value == draw,
{
}

/// A fresh generator that interpolates rests at zero up to the first tick, on which it sets out.
pub proof fn fresh_generators_rest_at_zero(tick: u64, speed: u64)
    ensures
        Generator::spec_fresh(GeneratorType::Random) == Generator::Random,
        Generator::spec_fresh(GeneratorType::RandomInter) matches Generator::RandomInter {
            target_value,
            target_tick,
            initial_value,
            initial_tick,
        } && target_value.bits == 0 && initial_value.bits == 0 && target_tick == 1 && initial_tick
            == 0,
        Generator::spec_fresh(GeneratorType::RandomInter).spec_wants_draw(tick, speed) <==> tick
            >= 1,
{
}

/// The two kinds are those of the two sorts of generators, and go by these names.
pub proof fn kinds_and_their_names(
    target_value: Level,
    target_tick: u64,
    initial_value: Level,
    initial_tick: u64,
)
    ensures
        Generator::Random.kind() == GeneratorType::Random,
        (Generator::RandomInter { target_value, target_tick, initial_value, initial_tick }).kind()
            == GeneratorType::RandomInter,
        GeneratorType::Random.spec_name() == "Random"@,
        GeneratorType::RandomInter.spec_name() == "RandomInter"@,
{
}

/// What it takes of an interpolating generator to be on course, to be able to take a step, and to
/// be in range. One that does not interpolate always is.
pub proof fn courses_and_ranges(g: Generator, tick: u64, speed: u64)
    ensures
        g.kind() == GeneratorType::RandomInter ==> {
            &&& g.on_course(tick) <==> g->initial_tick < g->target_tick && g->initial_tick <= tick
            &&& tick >= g->target_tick ==> (g.can_step(tick, speed) <==> speed <= u64::MAX - tick)
            &&& tick < g->target_tick ==> (g.can_step(tick, speed) <==> g->initial_tick <= tick)
            &&& g.in_unit_range() <==> g->target_value.bits < 0x3f80_0000 && g->initial_value.bits
                < 0x3f80_0000
        },
        g.kind() == GeneratorType::Random ==> g.on_course(tick) && g.can_step(tick, speed)
            && g.in_unit_range() && g.in_closed_unit_range(),
{
}

} // verus!
