//! The saved state of the plugin and its byte format.

use vstd::prelude::*;

use crate::generator::Generator;
use crate::level::Level;

verus! {

/// What the user can set.
#[derive(Clone, Copy, Debug, PartialEq, Eq, Structural)]
pub struct PluginInputs {
    pub seed: u64,
    /// How many ticks lie between two random levels of a controller.
    pub speed: u64,
    pub test_val: u64,
}

impl Default for PluginInputs {
    fn default() -> (inputs: PluginInputs)
        ensures
            inputs == (PluginInputs { seed: 0, speed: 0, test_val: 0 }),
    {
        PluginInputs { seed: 0, speed: 0, test_val: 0 }
    }
}

/// What a project file keeps of the plugin.
#[derive(Clone, Debug)]
pub enum SaveState {
    Ver1 { inputs: PluginInputs, generators: Vec<Generator> },
}

/// Why a saved state could not be read.
#[derive(Clone, Copy, Debug, PartialEq, Eq, Structural)]
pub enum LoadError {
    /// The bytes do not hold a saved state.
    Malformed,
    /// The bytes are laid out like a saved state, but are marked as another version.
    UnknownVersion,
}

/// A saved generator in plain values: the target level's bits and tick, then the initial level's.
pub type PlainGenerator = Result<(), (u32, u64, u32, u64)>;

/// The low `n` bytes of `x`, the lowest first.
pub open spec fn le_bytes(x: nat, n: nat) -> Seq<u8>
    decreases n,
{
    if n == 0 {
        Seq::empty()
    } else {
        seq![(x % 256) as u8] + le_bytes(x / 256, (n - 1) as nat)
    }
}

pub open spec fn plain_generator_bytes(g: PlainGenerator) -> Seq<u8> {
    match g {
        Ok(_) => le_bytes(0, 4),
        Err((target, target_tick, initial, initial_tick)) => le_bytes(1, 4) + le_bytes(
            target as nat,
            4,
        ) + le_bytes(target_tick as nat, 8) + le_bytes(initial as nat, 4) + le_bytes(
            initial_tick as nat,
            8,
        ),
    }
}

pub open spec fn plain_generators_bytes(generators: Seq<PlainGenerator>) -> Seq<u8>
    decreases generators.len(),
{
    if generators.len() == 0 {
        Seq::empty()
    } else {
        plain_generators_bytes(generators.drop_last()) + plain_generator_bytes(generators.last())
    }
}

/// The byte format: a version, the three inputs, the number of generators and each generator,
/// all as little endian numbers of fixed width.
pub open spec fn plain_bytes(
    version: u32,
    inputs: (u64, u64, u64),
    generators: Seq<PlainGenerator>,
) -> Seq<u8> {
    le_bytes(version as nat, 4) + le_bytes(inputs.0 as nat, 8) + le_bytes(inputs.1 as nat, 8)
        + le_bytes(inputs.2 as nat, 8) + le_bytes(generators.len(), 8) + plain_generators_bytes(
        generators,
    )
}

pub open spec fn plain_generator(g: Generator) -> PlainGenerator {
    match g {
        Generator::Random => Ok(()),
        Generator::RandomInter { target_value, target_tick, initial_value, initial_tick } => Err(
            (target_value.bits, target_tick, initial_value.bits, initial_tick),
        ),
    }
}

pub open spec fn plain_generators(generators: Seq<Generator>) -> Seq<PlainGenerator> {
    generators.map_values(|g: Generator| plain_generator(g))
}

/// The bytes of a saved state.
pub open spec fn saved_bytes(inputs: PluginInputs, generators: Seq<Generator>) -> Seq<u8> {
    plain_bytes(
        0,
        (inputs.seed, inputs.speed, inputs.test_val),
        plain_generators(generators),
    )
}

/// Whether the bytes begin with a well laid out state of some version. What follows it is not
/// looked at.
pub open spec fn begins_with_state(
    bytes: Seq<u8>,
    version: u32,
    inputs: (u64, u64, u64),
    generators: Seq<PlainGenerator>,
) -> bool {
    plain_bytes(version, inputs, generators).is_prefix_of(bytes)
}

/// The errors of `bincode`.
#[verifier::external_type_specification]
#[verifier::external_body]
pub struct ExErrorKind(bincode::ErrorKind);

/// Calls `bincode::serialize_into` on the version, the inputs and the generators as one tuple,
/// with a vector as the writer.
///
/// Claims that it succeeds, since a vector takes every write, and that the bytes are those of
/// the fixed width little endian encoding that the function is documented to use: tuples have
/// no framing, a sequence begins with its length in eight bytes and a variant with its index in
/// four.
#[verifier::external_body]
fn serialize_plain(
    version: u32,
    inputs: (u64, u64, u64),
    generators: &Vec<PlainGenerator>,
) -> (written: Result<Vec<u8>, Box<bincode::ErrorKind>>)
    ensures
        written is Ok,
        written->Ok_0@ == plain_bytes(version, inputs, generators@),
{
    let mut bytes: Vec<u8> = Vec::new();
    bincode::serialize_into(&mut bytes, &(version, inputs, generators))?;
    Ok(bytes)
}

/// Calls `bincode::deserialize` for a tuple of a version, inputs and generators.
///
/// Claims that it reads such a tuple exactly where the bytes begin with the encoding of one, in
/// the format of `serialize_plain`, and that it hands back that tuple. Bytes after it are
/// allowed.
#[verifier::external_body]
fn deserialize_plain(bytes: &[u8]) -> (read: Result<
    (u32, (u64, u64, u64), Vec<PlainGenerator>),
    Box<bincode::ErrorKind>,
>)
    ensures
        match read {
            Ok((version, inputs, generators)) => begins_with_state(
                bytes@,
                version,
                inputs,
                generators@,
            ),
            Err(_) => forall|
                version: u32,
                inputs: (u64, u64, u64),
                generators: Seq<PlainGenerator>,
            |
                !#[trigger] begins_with_state(bytes@, version, inputs, generators),
        },
{
    bincode::deserialize(bytes)
}

/// The least number that does not fit in `n` bytes.
spec fn byte_limit(n: nat) -> nat
    decreases n,
{
    if n == 0 {
        1
    } else {
        256 * byte_limit((n - 1) as nat)
    }
}

proof fn lemma_byte_limits()
    ensures
        byte_limit(4) == 0x1_0000_0000,
        byte_limit(8) == 0x1_0000_0000_0000_0000,
{
    reveal_with_fuel(byte_limit, 9);
}

proof fn lemma_le_bytes_len(x: nat, n: nat)
    ensures
        le_bytes(x, n).len() == n,
    decreases n,
{
    if n > 0 {
        lemma_le_bytes_len(x / 256, (n - 1) as nat);
    }
}

proof fn lemma_le_bytes_injective(x: nat, y: nat, n: nat)
    requires
        x < byte_limit(n),
        y < byte_limit(n),
        le_bytes(x, n) == le_bytes(y, n),
    ensures
        x == y,
    decreases n,
{
    if n > 0 {
        let xs = le_bytes(x / 256, (n - 1) as nat);
        let ys = le_bytes(y / 256, (n - 1) as nat);
        assert(le_bytes(x, n)[0] == (x % 256) as u8);
        assert(le_bytes(y, n)[0] == (y % 256) as u8);
        assert(xs == le_bytes(x, n).skip(1));
        assert(ys == le_bytes(y, n).skip(1));
        lemma_le_bytes_injective(x / 256, y / 256, (n - 1) as nat);
    }
}

/// Where each field of a generator lies.
proof fn lemma_generator_fields(g: PlainGenerator)
    ensures
        plain_generator_bytes(g).len() == (if g is Ok {
            4int
        } else {
            28
        }),
        plain_generator_bytes(g).take(4) == le_bytes(
            if g is Ok {
                0
            } else {
                1
            },
            4,
        ),
        g matches Err((target, target_tick, initial, initial_tick)) ==> {
            &&& plain_generator_bytes(g).subrange(4, 8) == le_bytes(target as nat, 4)
            &&& plain_generator_bytes(g).subrange(8, 16) == le_bytes(target_tick as nat, 8)
            &&& plain_generator_bytes(g).subrange(16, 20) == le_bytes(initial as nat, 4)
            &&& plain_generator_bytes(g).subrange(20, 28) == le_bytes(initial_tick as nat, 8)
        },
{
    lemma_le_bytes_len(0, 4);
    lemma_le_bytes_len(1, 4);
    if let Err((target, target_tick, initial, initial_tick)) = g {
        lemma_le_bytes_len(target as nat, 4);
        lemma_le_bytes_len(target_tick as nat, 8);
        lemma_le_bytes_len(initial as nat, 4);
        lemma_le_bytes_len(initial_tick as nat, 8);
    }
}

/// Two generators that one run of bytes begins with are the same.
proof fn lemma_generator_unique(bytes: Seq<u8>, g: PlainGenerator, h: PlainGenerator)
    requires
        plain_generator_bytes(g).is_prefix_of(bytes),
        plain_generator_bytes(h).is_prefix_of(bytes),
    ensures
        g == h,
{
    let gb = plain_generator_bytes(g);
    let hb = plain_generator_bytes(h);
    lemma_byte_limits();
    lemma_generator_fields(g);
    lemma_generator_fields(h);
    assert(gb.take(4) == bytes.take(4));
    assert(hb.take(4) == bytes.take(4));
    if (g is Ok) != (h is Ok) {
        lemma_le_bytes_injective(0, 1, 4);
    }
    match (g, h) {
        (Err((a, at, b, bt)), Err((c, ct, d, dt))) => {
            assert(gb.subrange(4, 8) == bytes.subrange(4, 8));
            assert(hb.subrange(4, 8) == bytes.subrange(4, 8));
            assert(gb.subrange(8, 16) == bytes.subrange(8, 16));
            assert(hb.subrange(8, 16) == bytes.subrange(8, 16));
            assert(gb.subrange(16, 20) == bytes.subrange(16, 20));
            assert(hb.subrange(16, 20) == bytes.subrange(16, 20));
            assert(gb.subrange(20, 28) == bytes.subrange(20, 28));
            assert(hb.subrange(20, 28) == bytes.subrange(20, 28));
            lemma_le_bytes_injective(a as nat, c as nat, 4);
            lemma_le_bytes_injective(at as nat, ct as nat, 8);
            lemma_le_bytes_injective(b as nat, d as nat, 4);
            lemma_le_bytes_injective(bt as nat, dt as nat, 8);
        },
        (Ok(a), Ok(b)) => {
            assert(a == b);
        },
        _ => {},
    }
}

proof fn lemma_generators_len(generators: Seq<PlainGenerator>)
    ensures
        plain_generators_bytes(generators).len() >= generators.len(),
    decreases generators.len(),
{
    if generators.len() > 0 {
        lemma_generators_len(generators.drop_last());
        lemma_generator_fields(generators.last());
    }
}

/// Two equally long runs of generators that one run of bytes begins with are the same.
proof fn lemma_generators_unique(
    bytes: Seq<u8>,
    gs: Seq<PlainGenerator>,
    hs: Seq<PlainGenerator>,
)
    requires
        gs.len() == hs.len(),
        plain_generators_bytes(gs).is_prefix_of(bytes),
        plain_generators_bytes(hs).is_prefix_of(bytes),
    ensures
        gs == hs,
    decreases gs.len(),
{
    if gs.len() > 0 {
        let head = plain_generators_bytes(gs.drop_last());
        let gb = plain_generator_bytes(gs.last());
        let hb = plain_generator_bytes(hs.last());
        assert(head == bytes.take(head.len() as int)) by {
            assert(head == plain_generators_bytes(gs).take(head.len() as int));
        }
        let other = plain_generators_bytes(hs.drop_last());
        assert(other == bytes.take(other.len() as int)) by {
            assert(other == plain_generators_bytes(hs).take(other.len() as int));
        }
        lemma_generators_unique(bytes, gs.drop_last(), hs.drop_last());
        let rest = bytes.skip(head.len() as int);
        assert(gb == rest.take(gb.len() as int)) by {
            assert(gb == plain_generators_bytes(gs).skip(head.len() as int));
        }
        assert(hb == rest.take(hb.len() as int)) by {
            assert(hb == plain_generators_bytes(hs).skip(head.len() as int));
        }
        lemma_generator_unique(rest, gs.last(), hs.last());
        assert(gs == gs.drop_last().push(gs.last()));
        assert(hs == hs.drop_last().push(hs.last()));
    } else {
        assert(gs == hs);
    }
}

/// Where each field of a state lies.
pub(crate) proof fn lemma_state_fields(
    version: u32,
    inputs: (u64, u64, u64),
    generators: Seq<PlainGenerator>,
)
    ensures
        ({
            let bytes = plain_bytes(version, inputs, generators);
            &&& bytes.len() == 36 + plain_generators_bytes(generators).len()
            &&& bytes.take(4) == le_bytes(version as nat, 4)
            &&& bytes.subrange(4, 12) == le_bytes(inputs.0 as nat, 8)
            &&& bytes.subrange(12, 20) == le_bytes(inputs.1 as nat, 8)
            &&& bytes.subrange(20, 28) == le_bytes(inputs.2 as nat, 8)
            &&& bytes.subrange(28, 36) == le_bytes(generators.len(), 8)
            &&& bytes.skip(36) == plain_generators_bytes(generators)
        }),
{
    lemma_le_bytes_len(version as nat, 4);
    lemma_le_bytes_len(inputs.0 as nat, 8);
    lemma_le_bytes_len(inputs.1 as nat, 8);
    lemma_le_bytes_len(inputs.2 as nat, 8);
    lemma_le_bytes_len(generators.len(), 8);
}

/// Bytes begin with at most one state: no two states, of whatever version, share their bytes or
/// have one the bytes of the other at its start.
pub proof fn states_are_told_apart(
    bytes: Seq<u8>,
    version: u32,
    inputs: (u64, u64, u64),
    generators: Seq<PlainGenerator>,
    other_version: u32,
    other_inputs: (u64, u64, u64),
    other_generators: Seq<PlainGenerator>,
)
    requires
        generators.len() <= u64::MAX,
        other_generators.len() <= u64::MAX,
        begins_with_state(bytes, version, inputs, generators),
        begins_with_state(bytes, other_version, other_inputs, other_generators),
    ensures
        version == other_version,
        inputs == other_inputs,
        generators == other_generators,
{
    let a = plain_bytes(version, inputs, generators);
    let b = plain_bytes(other_version, other_inputs, other_generators);
    lemma_byte_limits();
    lemma_state_fields(version, inputs, generators);
    lemma_state_fields(other_version, other_inputs, other_generators);
    assert(a.take(4) == bytes.take(4) && b.take(4) == bytes.take(4));
    assert(a.subrange(4, 12) == bytes.subrange(4, 12) && b.subrange(4, 12) == bytes.subrange(
        4,
        12,
    ));
    assert(a.subrange(12, 20) == bytes.subrange(12, 20) && b.subrange(12, 20) == bytes.subrange(
        12,
        20,
    ));
    assert(a.subrange(20, 28) == bytes.subrange(20, 28) && b.subrange(20, 28) == bytes.subrange(
        20,
        28,
    ));
    assert(a.subrange(28, 36) == bytes.subrange(28, 36) && b.subrange(28, 36) == bytes.subrange(
        28,
        36,
    ));
    lemma_le_bytes_injective(version as nat, other_version as nat, 4);
    lemma_le_bytes_injective(inputs.0 as nat, other_inputs.0 as nat, 8);
    lemma_le_bytes_injective(inputs.1 as nat, other_inputs.1 as nat, 8);
    lemma_le_bytes_injective(inputs.2 as nat, other_inputs.2 as nat, 8);
    lemma_le_bytes_injective(generators.len(), other_generators.len(), 8);
    let rest = bytes.skip(36);
    assert(plain_generators_bytes(generators).is_prefix_of(rest)) by {
        assert(a.skip(36) == rest.take(a.len() - 36));
    }
    assert(plain_generators_bytes(other_generators).is_prefix_of(rest)) by {
        assert(b.skip(36) == rest.take(b.len() - 36));
    }
    lemma_generators_unique(rest, generators, other_generators);
}

/// Two runs of generators with the same plain values are the same.
proof fn lemma_plain_generators_injective(gs: Seq<Generator>, hs: Seq<Generator>)
    requires
        plain_generators(gs) == plain_generators(hs),
    ensures
        gs == hs,
{
    assert(gs.len() == plain_generators(gs).len());
    assert(hs.len() == plain_generators(hs).len());
    assert forall|i: int| 0 <= i < gs.len() implies gs[i] == hs[i] by {
        assert(plain_generators(gs)[i] == plain_generator(gs[i]));
        assert(plain_generators(hs)[i] == plain_generator(hs[i]));
    }
}

pub(crate) proof fn lemma_state_len(
    bytes: Seq<u8>,
    version: u32,
    inputs: (u64, u64, u64),
    generators: Seq<PlainGenerator>,
)
    requires
        begins_with_state(bytes, version, inputs, generators),
    ensures
        generators.len() <= bytes.len(),
{
    lemma_state_fields(version, inputs, generators);
    lemma_generators_len(generators);
}

/// Bytes that fit in memory and begin with a saved state begin with no other one.
pub proof fn saved_states_are_told_apart(
    bytes: Seq<u8>,
    inputs: PluginInputs,
    generators: Seq<Generator>,
    other_inputs: PluginInputs,
    other_generators: Seq<Generator>,
)
    requires
        bytes.len() <= usize::MAX,
        saved_bytes(inputs, generators).is_prefix_of(bytes),
        saved_bytes(other_inputs, other_generators).is_prefix_of(bytes),
    ensures
        inputs == other_inputs,
        generators == other_generators,
{
    let plain = (inputs.seed, inputs.speed, inputs.test_val);
    let other_plain = (other_inputs.seed, other_inputs.speed, other_inputs.test_val);
    lemma_state_len(bytes, 0, plain, plain_generators(generators));
    lemma_state_len(bytes, 0, other_plain, plain_generators(other_generators));
    states_are_told_apart(
        bytes,
        0,
        plain,
        plain_generators(generators),
        0,
        other_plain,
        plain_generators(other_generators),
    );
    lemma_plain_generators_injective(generators, other_generators);
}

impl SaveState {
    pub open spec fn inputs(self) -> PluginInputs {
        match self {
            SaveState::Ver1 { inputs, .. } => inputs,
        }
    }

    pub open spec fn generators(self) -> Seq<Generator> {
        match self {
            SaveState::Ver1 { generators, .. } => generators@,
        }
    }

    /// The bytes that a project file keeps of the state.
    pub fn to_bytes(&self) -> (bytes: Vec<u8>)
        ensures
            bytes@ == saved_bytes(self.inputs(), self.generators()),
    {
        match self {
            SaveState::Ver1 { inputs, generators } => {
                let mut plain: Vec<PlainGenerator> = Vec::new();
                for i in 0..generators.len()
                    invariant
                        plain@ == plain_generators(generators@.take(i as int)),
                {
                    plain.push(
                        match generators[i] {
                            Generator::Random => Ok(()),
                            Generator::RandomInter {
                                target_value,
                                target_tick,
                                initial_value,
                                initial_tick,
                            } => Err(
                                (target_value.bits, target_tick, initial_value.bits, initial_tick),
                            ),
                        },
                    );
                    assert(generators@.take(i + 1) == generators@.take(i as int).push(
                        generators@[i as int],
                    ));
                }
                assert(generators@.take(generators@.len() as int) == generators@);
                serialize_plain(0, (inputs.seed, inputs.speed, inputs.test_val), &plain).unwrap()
            },
        }
    }

    /// Reads a state back from bytes that begin with it.
    pub fn from_bytes(bytes: &[u8]) -> (read: Result<SaveState, LoadError>)
        ensures
            match read {
                Ok(state) => saved_bytes(state.inputs(), state.generators()).is_prefix_of(bytes@),
                Err(LoadError::Malformed) => forall|
                    version: u32,
                    inputs: (u64, u64, u64),
                    generators: Seq<PlainGenerator>,
                |
                    !#[trigger] begins_with_state(bytes@, version, inputs, generators),
                Err(LoadError::UnknownVersion) => exists|
                    version: u32,
                    inputs: (u64, u64, u64),
                    generators: Seq<PlainGenerator>,
                |
                    version != 0 && #[trigger] begins_with_state(
                        bytes@,
                        version,
                        inputs,
                        generators,
                    ),
            },
            forall|inputs: PluginInputs, generators: Seq<Generator>| #[trigger]
                saved_bytes(inputs, generators).is_prefix_of(bytes@) ==> (read matches Ok(state)
                    && state.inputs() == inputs && state.generators() == generators),
    {
        let read = SaveState::read_bytes(bytes);
        proof {
            assert(bytes@.len() == bytes.len());
            assert forall|inputs: PluginInputs, generators: Seq<Generator>| #[trigger]
                saved_bytes(inputs, generators).is_prefix_of(bytes@) implies (read matches Ok(state)
                && state.inputs() == inputs && state.generators() == generators) by {
                let plain = (inputs.seed, inputs.speed, inputs.test_val);
                assert(begins_with_state(bytes@, 0, plain, plain_generators(generators)));
                lemma_state_len(bytes@, 0, plain, plain_generators(generators));
                match read {
                    Ok(state) => {
                        saved_states_are_told_apart(
                            bytes@,
                            inputs,
                            generators,
                            state.inputs(),
                            state.generators(),
                        );
                    },
                    Err(LoadError::UnknownVersion) => {
                        let (v, i, g) = choose|
                            version: u32,
                            inputs: (u64, u64, u64),
                            generators: Seq<PlainGenerator>,
                        |
                            version != 0 && #[trigger] begins_with_state(
                                bytes@,
                                version,
                                inputs,
                                generators,
                            );
                        lemma_state_len(bytes@, v, i, g);
                        states_are_told_apart(
                            bytes@,
                            0,
                            plain,
                            plain_generators(generators),
                            v,
                            i,
                            g,
                        );
                    },
                    Err(LoadError::Malformed) => {},
                }
            }
        }
        read
    }

    fn read_bytes(bytes: &[u8]) -> (read: Result<SaveState, LoadError>)
        ensures
            match read {
                Ok(state) => saved_bytes(state.inputs(), state.generators()).is_prefix_of(bytes@),
                Err(LoadError::Malformed) => forall|
                    version: u32,
                    inputs: (u64, u64, u64),
                    generators: Seq<PlainGenerator>,
                |
                    !#[trigger] begins_with_state(bytes@, version, inputs, generators),
                Err(LoadError::UnknownVersion) => exists|
                    version: u32,
                    inputs: (u64, u64, u64),
                    generators: Seq<PlainGenerator>,
                |
                    version != 0 && #[trigger] begins_with_state(
                        bytes@,
                        version,
                        inputs,
                        generators,
                    ),
            },
    {
        match deserialize_plain(bytes) {
            Err(_) => Err(LoadError::Malformed),
            Ok((version, inputs, plain)) => {
                if version != 0 {
                    assert(begins_with_state(bytes@, version, inputs, plain@));
                    return Err(LoadError::UnknownVersion);
                }
                let mut generators: Vec<Generator> = Vec::new();
                for i in 0..plain.len()
                    invariant
                        plain_generators(generators@) == plain@.take(i as int),
                {
                    let generator: Generator = match plain[i] {
                        Ok(()) => Generator::Random,
                        Err((target, target_tick, initial, initial_tick)) => Generator::RandomInter {
                            target_value: Level { bits: target },
                            target_tick,
                            initial_value: Level { bits: initial },
                            initial_tick,
                        },
                    };
                    assert(plain@[i as int] matches Ok(nothing) ==> nothing == ());
                    assert(plain_generator(generator) == plain@[i as int]);
                    generators.push(generator);
                    assert(plain@.take(i + 1) == plain@.take(i as int).push(plain@[i as int]));
                }
                assert(plain@.take(plain@.len() as int) == plain@);
                Ok(
                    SaveState::Ver1 {
                        inputs: PluginInputs { seed: inputs.0, speed: inputs.1, test_val: inputs.2 },
                        generators,
                    },
                )
            },
        }
    }
}

/// The number that bytes stand for, the lowest first.
pub open spec fn number(bytes: Seq<u8>) -> nat
    decreases bytes.len(),
{
    if bytes.len() == 0 {
        0
    } else {
        bytes[0] as nat + 256 * number(bytes.skip(1))
    }
}

proof fn lemma_number_of_le_bytes(x: nat, n: nat)
    requires
        x < byte_limit(n),
    ensures
        number(le_bytes(x, n)) == x,
    decreases n,
{
    if n > 0 {
        lemma_number_of_le_bytes(x / 256, (n - 1) as nat);
        assert(le_bytes(x, n).skip(1) == le_bytes(x / 256, (n - 1) as nat));
    }
}

/// A saved state begins with the number zero for its version, followed by the seed, the speed, the
/// test value and the number of generators, each the lowest byte first.
pub proof fn saved_inputs_lie_in_their_places(inputs: PluginInputs, generators: Seq<Generator>)
    ensures
        saved_bytes(inputs, generators).len() >= 36,
        generators.len() == 0 ==> saved_bytes(inputs, generators).len() == 36,
        number(saved_bytes(inputs, generators).take(4)) == 0,
        number(saved_bytes(inputs, generators).subrange(4, 12)) == inputs.seed,
        number(saved_bytes(inputs, generators).subrange(12, 20)) == inputs.speed,
        number(saved_bytes(inputs, generators).subrange(20, 28)) == inputs.test_val,
        generators.len() <= u64::MAX ==> number(saved_bytes(inputs, generators).subrange(28, 36))
            == generators.len(),
{
    lemma_byte_limits();
    lemma_state_fields(
        0,
        (inputs.seed, inputs.speed, inputs.test_val),
        plain_generators(generators),
    );
    lemma_number_of_le_bytes(0, 4);
    lemma_number_of_le_bytes(inputs.seed as nat, 8);
    lemma_number_of_le_bytes(inputs.speed as nat, 8);
    lemma_number_of_le_bytes(inputs.test_val as nat, 8);
    if generators.len() <= u64::MAX {
        lemma_number_of_le_bytes(generators.len(), 8);
    }
}

/// One more generator adds its bytes at the end of a saved state: the number zero for one that jumps,
/// and for one that interpolates the number one, the bits of its target, the tick of that, the bits
/// of its initial level and the tick of that.
pub proof fn saved_generators_lie_in_their_places(
    inputs: PluginInputs,
    generators: Seq<Generator>,
    g: Generator,
)
    ensures
        ({
            let before = saved_bytes(inputs, generators).skip(36);
            let after = saved_bytes(inputs, generators.push(g)).skip(36);
            let added = after.skip(before.len() as int);
            &&& before.len() < after.len()
            &&& after.take(before.len() as int) == before
            &&& match g {
                Generator::Random => added.len() == 4 && number(added) == 0,
                Generator::RandomInter { target_value, target_tick, initial_value, initial_tick } => {
                    &&& added.len() == 28
                    &&& number(added.take(4)) == 1
                    &&& number(added.subrange(4, 8)) == target_value.bits
                    &&& number(added.subrange(8, 16)) == target_tick
                    &&& number(added.subrange(16, 20)) == initial_value.bits
                    &&& number(added.subrange(20, 28)) == initial_tick
                },
            }
        }),
{
    let plain = (inputs.seed, inputs.speed, inputs.test_val);
    let gs = plain_generators(generators);
    let all = plain_generators(generators.push(g));
    assert(all == gs.push(plain_generator(g)));
    assert(all.drop_last() == gs);
    lemma_byte_limits();
    lemma_state_fields(0, plain, gs);
    lemma_state_fields(0, plain, all);
    lemma_generator_fields(plain_generator(g));
    let before = saved_bytes(inputs, generators).skip(36);
    let after = saved_bytes(inputs, generators.push(g)).skip(36);
    assert(after == before + plain_generator_bytes(plain_generator(g)));
    assert(after.take(before.len() as int) == before);
    assert(after.skip(before.len() as int) == plain_generator_bytes(plain_generator(g)));
    lemma_number_of_le_bytes(0, 4);
    lemma_number_of_le_bytes(1, 4);
    match g {
        Generator::Random => {
            let added = plain_generator_bytes(plain_generator(g));
            assert(added.take(4) == added);
        },
        Generator::RandomInter { target_value, target_tick, initial_value, initial_tick } => {
            lemma_number_of_le_bytes(target_value.bits as nat, 4);
            lemma_number_of_le_bytes(target_tick as nat, 8);
            lemma_number_of_le_bytes(initial_value.bits as nat, 4);
            lemma_number_of_le_bytes(initial_tick as nat, 8);
        },
    }
}

} // verus!
