//! Tuning systems: maps from a tone in an octave to an exact pitch.
//!
//! [`EqualTemperament`] divides the octave into twelve equal semitones
//! anchored at A in octave 4.  [`JustIntonation`] builds a seven-tone
//! tuning from whole-number step ratios derived from a scale, composing
//! them exactly with [`Proportion`] arithmetic.

use vstd::prelude::*;
use vstd::string::StringExecFns;
use vstd::arithmetic::power::pow;
use crate::musical_notation::Accidental;
use crate::musical_notation::NoteName;
use crate::musical_notation::Pitch;
use crate::musical_notation::Tone;
use crate::proportion::Proportion;
use crate::proportion::ratio;

verus! {

/// Error raised when a tuning cannot be built.
#[derive(Debug)]
pub struct TemperamentError {
    message: String,
}

impl View for TemperamentError {
    type V = Seq<char>;

    /// The error's own message, without the common prefix.
    closed spec fn view(&self) -> Seq<char> {
        self.message@
    }
}

/// The full text that [`TemperamentError::message`] renders for an
/// inner message `msg`.
pub open spec fn temperament_error_text(msg: Seq<char>) -> Seq<char> {
    "There was a problem creating the temperament. "@ + msg
}

impl TemperamentError {
    pub fn from(message: &str) -> (e: TemperamentError)
        ensures
            e@ == message@,
    {
        TemperamentError { message: String::from_str(message) }
    }

    /// Renders the error as one sentence naming the inner message.
    pub fn message(&self) -> (r: String)
        ensures
            r@ == temperament_error_text(self@),
    {
        let mut r = String::from_str("There was a problem creating the temperament. ");
        r.append(self.message.as_str());
        r
    }
}

/// The position of a tone within the twelve-tone octave, from 1 at C to
/// 12 at B; enharmonic spellings share a position.
pub open spec fn spec_position(tone: Tone) -> int {
    match (tone.name(), tone.acc()) {
        (NoteName::C, Accidental::Flat) => 12,
        (NoteName::C, Accidental::Natural) => 1,
        (NoteName::C, Accidental::Sharp) => 2,
        (NoteName::D, Accidental::Flat) => 2,
        (NoteName::D, Accidental::Natural) => 3,
        (NoteName::D, Accidental::Sharp) => 4,
        (NoteName::E, Accidental::Flat) => 4,
        (NoteName::E, Accidental::Natural) => 5,
        (NoteName::E, Accidental::Sharp) => 6,
        (NoteName::F, Accidental::Flat) => 5,
        (NoteName::F, Accidental::Natural) => 6,
        (NoteName::F, Accidental::Sharp) => 7,
        (NoteName::G, Accidental::Flat) => 7,
        (NoteName::G, Accidental::Natural) => 8,
        (NoteName::G, Accidental::Sharp) => 9,
        (NoteName::A, Accidental::Flat) => 9,
        (NoteName::A, Accidental::Natural) => 10,
        (NoteName::A, Accidental::Sharp) => 11,
        (NoteName::B, Accidental::Flat) => 11,
        (NoteName::B, Accidental::Natural) => 12,
        (NoteName::B, Accidental::Sharp) => 1,
    }
}

/// Returns the position of a tone in the twelve-tone system.
pub fn get_position(tone: Tone) -> (r: u8)
    ensures
        r as int == spec_position(tone),
        1 <= r <= 12,
{
    match (tone.get_note_name(), tone.get_accidental()) {
        (NoteName::C, Accidental::Flat) => 12,
        (NoteName::C, Accidental::Natural) => 1,
        (NoteName::C, Accidental::Sharp) => 2,
        (NoteName::D, Accidental::Flat) => 2,
        (NoteName::D, Accidental::Natural) => 3,
        (NoteName::D, Accidental::Sharp) => 4,
        (NoteName::E, Accidental::Flat) => 4,
        (NoteName::E, Accidental::Natural) => 5,
        (NoteName::E, Accidental::Sharp) => 6,
        (NoteName::F, Accidental::Flat) => 5,
        (NoteName::F, Accidental::Natural) => 6,
        (NoteName::F, Accidental::Sharp) => 7,
        (NoteName::G, Accidental::Flat) => 7,
        (NoteName::G, Accidental::Natural) => 8,
        (NoteName::G, Accidental::Sharp) => 9,
        (NoteName::A, Accidental::Flat) => 9,
        (NoteName::A, Accidental::Natural) => 10,
        (NoteName::A, Accidental::Sharp) => 11,
        (NoteName::B, Accidental::Flat) => 11,
        (NoteName::B, Accidental::Natural) => 12,
        (NoteName::B, Accidental::Sharp) => 1,
    }
}

/// A twelve-tone tuning system.  Each implementation says in
/// `spec_pitch` exactly which pitch it assigns to a tone in an octave,
/// and `get_pitch` computes that pitch.
pub trait Temperament: Sized {
    /// Whether a tuning of this kind can be built from `scale`.
    spec fn buildable(scale: Seq<Tone>) -> bool;

    /// The tuning is the one built from `scale`.
    spec fn wf(&self, scale: Seq<Tone>) -> bool;

    /// What `get_pitch` asks of its caller: the tuning's internal
    /// invariant, and an octave its arithmetic can reach.
    spec fn pitch_pre(&self, octave: int) -> bool;

    /// The pitch this tuning assigns to `tone` in `octave`, if any.
    spec fn spec_pitch(&self, octave: int, tone: Tone) -> Option<Pitch>;

    /// Construct a tuning of this kind from the given seven-tone scale;
    /// use the given scale as a reference for the pitch creation.
    fn new(scale: &[Tone; 7]) -> (r: Result<Self, TemperamentError>)
        ensures
            r is Ok <==> Self::buildable(scale@),
            (match r {
                Ok(t) => t.wf(scale@),
                Err(_) => true,
            }),
    ;

    /// Get the pitch of a given tone in a given octave using this
    /// tuning.  The octave refers to the octave number of scientific
    /// pitch notation.
    fn get_pitch(&self, octave: i16, tone: Tone) -> (r: Option<Pitch>)
        requires
            self.pitch_pre(octave as int),
        ensures
            r == self.spec_pitch(octave as int, tone),
    ;
}

/// The number of notes in an octave.
pub const OCTAVE_ADDITIVE: u8 = 12;

/// The factor between the frequencies of an octave and the next.
pub const OCTAVE_MULTIPLICATIVE: u8 = 2;

/// The octave whose A carries the pitch standard.
pub const REFERENCE_PITCH_OCTAVE: u8 = 4;

/// The twelve-tone position of that A.
pub const REFERENCE_PITCH_DEGREE: u8 = 10;

/// The pitch that equal temperament assigns: a pure semitone offset
/// from A in octave 4, with a unit ratio.
pub open spec fn spec_equal_pitch(octave: int, tone: Tone) -> Pitch {
    Pitch {
        ratio_numer: 1,
        ratio_denom: 1,
        semitone_offset: (spec_position(tone) - 10 + 12 * (octave - 4)) as i32,
    }
}

/// The twelve-tone equal temperament: every semitone is the same step,
/// so a pitch is just a count of semitones away from the reference A.
#[derive(Copy, Clone, Debug)]
pub struct EqualTemperament {}

impl Temperament for EqualTemperament {
    open spec fn buildable(scale: Seq<Tone>) -> bool {
        true
    }

    open spec fn wf(&self, scale: Seq<Tone>) -> bool {
        true
    }

    open spec fn pitch_pre(&self, octave: int) -> bool {
        true
    }

    open spec fn spec_pitch(&self, octave: int, tone: Tone) -> Option<Pitch> {
        Some(spec_equal_pitch(octave, tone))
    }

    fn new(scale: &[Tone; 7]) -> (r: Result<EqualTemperament, TemperamentError>) {
        Ok(EqualTemperament {  })
    }

    fn get_pitch(&self, octave: i16, tone: Tone) -> (r: Option<Pitch>) {
        let position = get_position(tone) as i32;
        let octave_interval = (octave as i32 - REFERENCE_PITCH_OCTAVE as i32) * (OCTAVE_ADDITIVE
            as i32);
        let relative_a = position - REFERENCE_PITCH_DEGREE as i32;
        let interval_size = relative_a + octave_interval;
        Some(Pitch { ratio_numer: 1, ratio_denom: 1, semitone_offset: interval_size })
    }
}

/// There is a tone named A somewhere in `scale`.
pub open spec fn has_a(scale: Seq<Tone>) -> bool {
    exists|i: int| 0 <= i < scale.len() && (#[trigger] scale[i]).name() == NoteName::A
}

/// The first index of a tone named A in `scale`.
pub open spec fn a_index(scale: Seq<Tone>) -> int {
    choose|i: int|
        0 <= i < scale.len() && (#[trigger] scale[i]).name() == NoteName::A && (forall|j: int|
            0 <= j < i ==> (#[trigger] scale[j]).name() != NoteName::A)
}

/// The semitone step from scale degree `i` to the next, wrapping from
/// the last degree back to the first an octave up.
pub open spec fn spec_step(scale: Seq<Tone>, i: int) -> int {
    (spec_position(scale[(i + 1) % 7]) - spec_position(scale[i])) % 12
}

/// Every step of the scale is a half or a whole tone.
pub open spec fn steps_ok(scale: Seq<Tone>) -> bool {
    forall|i: int| 0 <= i < 7 ==> 1 <= #[trigger] spec_step(scale, i) <= 2
}

/// The raw ratio of the step proportion at degree `i`: a half tone is
/// 15:16; a whole tone is 9:10 when a half tone follows it, else 8:9.
pub open spec fn spec_step_ratio(scale: Seq<Tone>, i: int) -> (nat, nat) {
    if spec_step(scale, i) == 1 {
        (15, 16)
    } else if spec_step(scale, (i + 1) % 7) == 1 {
        (9, 10)
    } else {
        (8, 9)
    }
}

/// The product of the raw ratios of the proportions `[from, to)`,
/// composed left to right.
pub open spec fn chain_ratio(props: Seq<Proportion>, from: int, to: int) -> (nat, nat)
    decreases to - from,
{
    if to <= from {
        (1, 1)
    } else {
        let rest = chain_ratio(props, from, to - 1);
        ((rest.0 * props[to - 1].magnitude_a) as nat, (rest.1 * props[to - 1].magnitude_b) as nat)
    }
}

/// The raw ratio standing for `k` octaves up (down, when `k` is
/// negative).
pub open spec fn octave_ratio(k: int) -> (nat, nat) {
    if k >= 0 {
        (1, pow(2, k as nat) as nat)
    } else {
        (pow(2, (-k) as nat) as nat, 1)
    }
}

/// A seven-tone tuning built on whole-number ratios, leveraging the
/// idea of Euler's Tonnetz: seven step proportions derived from a
/// scale, composed exactly between the reference degree (the scale's A)
/// and the target degree.
#[derive(Copy, Clone, Debug)]
pub struct JustIntonation {
    pub pitch_adjust: i32,
    pub reference_pitch_degree: u8,
    pub proportionen: [Proportion; 7],
    pub scale: [Tone; 7],
}

impl JustIntonation {
    /// Internal invariant: the reference degree indexes the scale, and
    /// every stored proportion is well formed with small magnitudes.
    pub open spec fn inv(&self) -> bool {
        &&& self.reference_pitch_degree < 7
        &&& forall|i: int|
            0 <= i < 7 ==> (#[trigger] self.proportionen@[i]).inv()
                && self.proportionen@[i].magnitude_a <= 16 && self.proportionen@[i].magnitude_b
                <= 16
    }

    /// The first scale degree spelled exactly as `tone`, if any.
    pub open spec fn tone_degree(&self, tone: Tone) -> Option<int> {
        if exists|d: int| 0 <= d < 7 && (#[trigger] self.scale@[d]) == tone {
            Some(
                choose|d: int|
                    0 <= d < 7 && (#[trigger] self.scale@[d]) == tone && (forall|j: int|
                        0 <= j < d ==> (#[trigger] self.scale@[j]) != tone),
            )
        } else {
            None
        }
    }

    /// The exact pitch at degree `d` in `octave`: the reference A's
    /// semitone offset, the octave ratio, and the chain of step ratios
    /// between the reference degree and `d` (inverted when `d` lies
    /// below the reference).
    pub open spec fn spec_just_pitch(&self, octave: int, d: int) -> Pitch {
        let refd = self.reference_pitch_degree as int;
        let chain = if d >= refd {
            chain_ratio(self.proportionen@, refd, d)
        } else {
            let c = chain_ratio(self.proportionen@, d, refd);
            (c.1, c.0)
        };
        let oct = octave_ratio(octave - 4);
        Pitch {
            ratio_numer: (oct.1 * chain.1) as u64,
            ratio_denom: (oct.0 * chain.0) as u64,
            semitone_offset: self.pitch_adjust,
        }
    }
}

/// Raw chain magnitudes stay below 16 to the chain's length.
proof fn lemma_chain_ratio_bounds(props: Seq<Proportion>, from: int, to: int)
    requires
        0 <= from,
        to <= props.len(),
        forall|i: int|
            0 <= i < props.len() ==> (#[trigger] props[i]).inv() && props[i].magnitude_a <= 16
                && props[i].magnitude_b <= 16,
    ensures
        1 <= chain_ratio(props, from, to).0,
        1 <= chain_ratio(props, from, to).1,
        to - from <= 6 ==> chain_ratio(props, from, to).0 <= 16777216 && chain_ratio(
            props,
            from,
            to,
        ).1 <= 16777216,
    decreases to - from,
{
    if to <= from {
    } else {
        lemma_chain_ratio_bounds(props, from, to - 1);
        let rest = chain_ratio(props, from, to - 1);
        let p = props[to - 1];
        assert(rest.0 * p.magnitude_a >= 1 && rest.1 * p.magnitude_b >= 1) by (nonlinear_arith)
            requires
                rest.0 >= 1 && rest.1 >= 1 && p.magnitude_a >= 1 && p.magnitude_b >= 1,
        ;
        if to - from <= 6 {
            assert(rest.0 <= 1048576 && rest.1 <= 1048576) by {
                lemma_chain_ratio_bounds_small(props, from, to - 1);
            }
            assert(rest.0 * p.magnitude_a <= 16777216 && rest.1 * p.magnitude_b <= 16777216)
                by (nonlinear_arith)
                requires
                    1 <= rest.0 <= 1048576 && 1 <= rest.1 <= 1048576 && 1 <= p.magnitude_a <= 16
                        && 1 <= p.magnitude_b <= 16,
            ;
        }
    }
}

/// Raw chain magnitudes of at most five steps stay below 16^5.
proof fn lemma_chain_ratio_bounds_small(props: Seq<Proportion>, from: int, to: int)
    requires
        0 <= from,
        to <= props.len(),
        to - from <= 5,
        forall|i: int|
            0 <= i < props.len() ==> (#[trigger] props[i]).inv() && props[i].magnitude_a <= 16
                && props[i].magnitude_b <= 16,
    ensures
        1 <= chain_ratio(props, from, to).0 <= 1048576,
        1 <= chain_ratio(props, from, to).1 <= 1048576,
    decreases to - from,
{
    if to <= from {
    } else {
        lemma_chain_ratio_bounds_smaller(props, from, to - 1);
        let rest = chain_ratio(props, from, to - 1);
        let p = props[to - 1];
        assert(1 <= rest.0 * p.magnitude_a <= 1048576 && 1 <= rest.1 * p.magnitude_b <= 1048576)
            by (nonlinear_arith)
            requires
                1 <= rest.0 <= 65536 && 1 <= rest.1 <= 65536 && 1 <= p.magnitude_a <= 16 && 1
                    <= p.magnitude_b <= 16,
        ;
    }
}

/// Raw chain magnitudes of at most four steps stay below 16^4.
proof fn lemma_chain_ratio_bounds_smaller(props: Seq<Proportion>, from: int, to: int)
    requires
        0 <= from,
        to <= props.len(),
        to - from <= 4,
        forall|i: int|
            0 <= i < props.len() ==> (#[trigger] props[i]).inv() && props[i].magnitude_a <= 16
                && props[i].magnitude_b <= 16,
    ensures
        1 <= chain_ratio(props, from, to).0 <= 65536,
        1 <= chain_ratio(props, from, to).1 <= 65536,
    decreases to - from,
{
    if to <= from {
    } else {
        lemma_chain_ratio_bounds_smaller2(props, from, to - 1);
        let rest = chain_ratio(props, from, to - 1);
        let p = props[to - 1];
        assert(1 <= rest.0 * p.magnitude_a <= 65536 && 1 <= rest.1 * p.magnitude_b <= 65536)
            by (nonlinear_arith)
            requires
                1 <= rest.0 <= 4096 && 1 <= rest.1 <= 4096 && 1 <= p.magnitude_a <= 16 && 1
                    <= p.magnitude_b <= 16,
        ;
    }
}

/// Raw chain magnitudes of at most three steps stay below 16^3.
proof fn lemma_chain_ratio_bounds_smaller2(props: Seq<Proportion>, from: int, to: int)
    requires
        0 <= from,
        to <= props.len(),
        to - from <= 3,
        forall|i: int|
            0 <= i < props.len() ==> (#[trigger] props[i]).inv() && props[i].magnitude_a <= 16
                && props[i].magnitude_b <= 16,
    ensures
        1 <= chain_ratio(props, from, to).0 <= 4096,
        1 <= chain_ratio(props, from, to).1 <= 4096,
    decreases to - from,
{
    if to <= from {
    } else {
        lemma_chain_ratio_bounds_smaller2(props, from, to - 1);
        let rest = chain_ratio(props, from, to - 1);
        let p = props[to - 1];
        assert(rest.0 <= 256 && rest.1 <= 256) by {
            lemma_chain_ratio_16pow(props, from, to - 1);
        }
        assert(1 <= rest.0 * p.magnitude_a <= 4096 && 1 <= rest.1 * p.magnitude_b <= 4096)
            by (nonlinear_arith)
            requires
                1 <= rest.0 <= 256 && 1 <= rest.1 <= 256 && 1 <= p.magnitude_a <= 16 && 1
                    <= p.magnitude_b <= 16,
        ;
    }
}

/// Raw chain magnitudes of at most two steps stay below 16^2.
proof fn lemma_chain_ratio_16pow(props: Seq<Proportion>, from: int, to: int)
    requires
        0 <= from,
        to <= props.len(),
        to - from <= 2,
        forall|i: int|
            0 <= i < props.len() ==> (#[trigger] props[i]).inv() && props[i].magnitude_a <= 16
                && props[i].magnitude_b <= 16,
    ensures
        1 <= chain_ratio(props, from, to).0 <= 256,
        1 <= chain_ratio(props, from, to).1 <= 256,
    decreases to - from,
{
    if to <= from {
    } else {
        lemma_chain_ratio_16pow(props, from, to - 1);
        let rest = chain_ratio(props, from, to - 1);
        let p = props[to - 1];
        assert(rest.0 <= 16 && rest.1 <= 16) by {
            if to - 1 > from {
                lemma_chain_one(props, from, to - 1);
            }
        }
        assert(1 <= rest.0 * p.magnitude_a <= 256 && 1 <= rest.1 * p.magnitude_b <= 256)
            by (nonlinear_arith)
            requires
                1 <= rest.0 <= 16 && 1 <= rest.1 <= 16 && 1 <= p.magnitude_a <= 16 && 1
                    <= p.magnitude_b <= 16,
        ;
    }
}

/// A chain of one step is that step's ratio.
proof fn lemma_chain_one(props: Seq<Proportion>, from: int, to: int)
    requires
        0 <= from,
        to <= props.len(),
        to - from == 1,
        forall|i: int|
            0 <= i < props.len() ==> (#[trigger] props[i]).inv() && props[i].magnitude_a <= 16
                && props[i].magnitude_b <= 16,
    ensures
        1 <= chain_ratio(props, from, to).0 <= 16,
        1 <= chain_ratio(props, from, to).1 <= 16,
{
    assert(chain_ratio(props, from, from) == ((1nat, 1nat)));
}

impl Temperament for JustIntonation {
    open spec fn buildable(scale: Seq<Tone>) -> bool {
        scale.len() == 7 && has_a(scale) && steps_ok(scale)
    }

    open spec fn wf(&self, scale: Seq<Tone>) -> bool {
        &&& Self::buildable(scale)
        &&& self.scale@ == scale
        &&& self.inv()
        &&& self.reference_pitch_degree as int == a_index(scale)
        &&& self.pitch_adjust as int == spec_position(scale[a_index(scale)]) - 10
        &&& forall|i: int|
            0 <= i < 7 ==> ratio(#[trigger] self.proportionen@[i]) == spec_step_ratio(scale, i)
    }

    open spec fn pitch_pre(&self, octave: int) -> bool {
        self.inv() && -35 <= octave && octave <= 43
    }

    open spec fn spec_pitch(&self, octave: int, tone: Tone) -> Option<Pitch> {
        match self.tone_degree(tone) {
            Some(d) => Some(self.spec_just_pitch(octave, d)),
            None => None,
        }
    }

    fn new(scale: &[Tone; 7]) -> (r: Result<JustIntonation, TemperamentError>) {
        let mut a_idx: usize = 0;
        let mut found_a = false;
        let mut i: usize = 0;
        while i < 7
            invariant
                i <= 7,
                found_a ==> a_idx < i && scale@[a_idx as int].name() == NoteName::A && (forall|
                    j: int,
                |
                    0 <= j < a_idx ==> (#[trigger] scale@[j]).name() != NoteName::A),
                !found_a ==> forall|j: int|
                    0 <= j < i ==> (#[trigger] scale@[j]).name() != NoteName::A,
            decreases 7 - i,
        {
            if !found_a {
                let name = *scale[i].get_note_name();
                if name == NoteName::A {
                    found_a = true;
                    a_idx = i;
                }
            }
            i = i + 1;
        }
        if !found_a {
            proof {
                assert(!has_a(scale@));
            }
            return Err(TemperamentError::from("Couldn't find NoteName A in given scale."));
        }
        proof {
            assert(has_a(scale@));
            let ai = a_index(scale@);
            assert(0 <= ai < 7 && scale@[ai].name() == NoteName::A && (forall|j: int|
                0 <= j < ai ==> (#[trigger] scale@[j]).name() != NoteName::A));
            if ai < a_idx as int {
                assert(scale@[ai].name() != NoteName::A);
            }
            if (a_idx as int) < ai {
                assert(scale@[a_idx as int].name() != NoteName::A);
            }
            assert(ai == a_idx as int);
        }
        let mut steps: [u8; 7] = [0; 7];
        let mut i: usize = 0;
        while i < 7
            invariant
                i <= 7,
                forall|j: int|
                    0 <= j < i ==> (#[trigger] steps@[j]) as int == spec_step(scale@, j) && 1
                        <= steps@[j] <= 2,
            decreases 7 - i,
        {
            let cur = get_position(scale[i]);
            let next = get_position(scale[(i + 1) % 7]);
            let step = (next + 12 - cur) % 12;
            proof {
                let diff = next as int - cur as int;
                vstd::arithmetic::div_mod::lemma_mod_add_multiples_vanish(diff, 12);
                assert(step as int == spec_step(scale@, i as int));
            }
            if step != 1 && step != 2 {
                proof {
                    assert(!(1 <= spec_step(scale@, i as int) <= 2));
                    assert(!steps_ok(scale@));
                }
                return Err(
                    TemperamentError::from("Scale degrees must step by whole or half tones."),
                );
            }
            steps[i] = step;
            i = i + 1;
        }
        proof {
            assert forall|ii: int| 0 <= ii < 7 implies 1 <= #[trigger] spec_step(scale@, ii)
                <= 2 by {
                assert(steps@[ii] as int == spec_step(scale@, ii));
            }
            assert(steps_ok(scale@));
        }
        let mut proportionen: [Proportion; 7] = [Proportion::unit(); 7];
        let mut i: usize = 0;
        while i < 7
            invariant
                i <= 7,
                forall|j: int|
                    0 <= j < 7 ==> (#[trigger] steps@[j]) as int == spec_step(scale@, j) && 1
                        <= steps@[j] <= 2,
                forall|j: int|
                    0 <= j < i ==> ratio(#[trigger] proportionen@[j]) == spec_step_ratio(scale@, j)
                        && proportionen@[j].inv() && proportionen@[j].magnitude_a <= 16
                        && proportionen@[j].magnitude_b <= 16,
            decreases 7 - i,
        {
            let p = if steps[i] == 1 {
                Proportion::new(15, 16)
            } else if steps[(i + 1) % 7] == 1 {
                Proportion::new(9, 10)
            } else {
                Proportion::new(8, 9)
            };
            proportionen[i] = p;
            i = i + 1;
        }
        let pitch_adjust = get_position(scale[a_idx]) as i32 - 10;
        Ok(
            JustIntonation {
                pitch_adjust,
                reference_pitch_degree: a_idx as u8,
                proportionen,
                scale: *scale,
            },
        )
    }

    fn get_pitch(&self, octave: i16, tone: Tone) -> (r: Option<Pitch>) {
        let mut d: usize = 0;
        let mut found = false;
        let mut i: usize = 0;
        while i < 7
            invariant
                i <= 7,
                found ==> d < i && self.scale@[d as int] == tone && (forall|j: int|
                    0 <= j < d ==> (#[trigger] self.scale@[j]) != tone),
                !found ==> forall|j: int| 0 <= j < i ==> (#[trigger] self.scale@[j]) != tone,
            decreases 7 - i,
        {
            if !found && self.scale[i] == tone {
                found = true;
                d = i;
            }
            i = i + 1;
        }
        if !found {
            proof {
                assert(self.tone_degree(tone) is None);
            }
            return None;
        }
        proof {
            assert(exists|dd: int| 0 <= dd < 7 && (#[trigger] self.scale@[dd]) == tone);
            let dd = choose|dd: int|
                0 <= dd < 7 && (#[trigger] self.scale@[dd]) == tone && (forall|j: int|
                    0 <= j < dd ==> (#[trigger] self.scale@[j]) != tone);
            assert(0 <= dd < 7 && self.scale@[dd] == tone && (forall|j: int|
                0 <= j < dd ==> (#[trigger] self.scale@[j]) != tone));
            if dd < d as int {
                assert(self.scale@[dd] != tone);
            }
            if (d as int) < dd {
                assert(self.scale@[d as int] != tone);
            }
            assert(self.tone_degree(tone) == Some(d as int));
        }
        let refd = self.reference_pitch_degree as usize;
        let mut position_proportion = Proportion::unit();
        if d >= refd {
            let mut j = refd;
            proof {
                assert(chain_ratio(self.proportionen@, refd as int, refd as int) == ((
                1nat,
                1nat,
                )));
            }
            while j < d
                invariant
                    refd <= j <= d < 7,
                    self.inv(),
                    position_proportion.inv(),
                    ratio(position_proportion) == chain_ratio(
                        self.proportionen@,
                        refd as int,
                        j as int,
                    ),
                decreases d - j,
            {
                proof {
                    lemma_chain_ratio_bounds(self.proportionen@, refd as int, j as int);
                    assert(position_proportion.magnitude_a * self.proportionen@[j as int].magnitude_a
                        <= u64::MAX && position_proportion.magnitude_b
                        * self.proportionen@[j as int].magnitude_b <= u64::MAX)
                        by (nonlinear_arith)
                        requires
                            1 <= position_proportion.magnitude_a <= 16777216,
                            1 <= position_proportion.magnitude_b <= 16777216,
                            1 <= self.proportionen@[j as int].magnitude_a <= 16,
                            1 <= self.proportionen@[j as int].magnitude_b <= 16,
                    ;
                }
                position_proportion = position_proportion.fusion(&self.proportionen[j]);
                j = j + 1;
            }
        } else {
            let mut j = d;
            proof {
                assert(chain_ratio(self.proportionen@, d as int, d as int) == ((1nat, 1nat)));
            }
            while j < refd
                invariant
                    d <= j <= refd < 7,
                    self.inv(),
                    position_proportion.inv(),
                    ratio(position_proportion) == chain_ratio(
                        self.proportionen@,
                        d as int,
                        j as int,
                    ),
                decreases refd - j,
            {
                proof {
                    lemma_chain_ratio_bounds(self.proportionen@, d as int, j as int);
                    assert(position_proportion.magnitude_a * self.proportionen@[j as int].magnitude_a
                        <= u64::MAX && position_proportion.magnitude_b
                        * self.proportionen@[j as int].magnitude_b <= u64::MAX)
                        by (nonlinear_arith)
                        requires
                            1 <= position_proportion.magnitude_a <= 16777216,
                            1 <= position_proportion.magnitude_b <= 16777216,
                            1 <= self.proportionen@[j as int].magnitude_a <= 16,
                            1 <= self.proportionen@[j as int].magnitude_b <= 16,
                    ;
                }
                position_proportion = position_proportion.fusion(&self.proportionen[j]);
                j = j + 1;
            }
            position_proportion = position_proportion.invert();
        }
        let k: i32 = octave as i32 - REFERENCE_PITCH_OCTAVE as i32;
        proof {
            let a = crate::proportion::abs_nat(k as int);
            assert(a <= 39);
            vstd::arithmetic::power::lemma1_pow(a);
            vstd::arithmetic::power::lemma_pow_increases(2, a, 39);
            vstd::arithmetic::power2::lemma_pow2(39);
            vstd::arithmetic::power2::lemma2_to64_rest();
            assert(pow(2, a) <= 0x8000000000);
        }
        let octave_up = Proportion::octave_up();
        let octave_proportion = octave_up.pow(k);
        proof {
            let a = crate::proportion::abs_nat(k as int);
            vstd::arithmetic::power::lemma_pow0(2);
            vstd::arithmetic::power::lemma_pow0(1);
            vstd::arithmetic::power::lemma1_pow(a);
            assert(ratio(octave_proportion) == octave_ratio(k as int));
            assert(octave_proportion.magnitude_a as nat == octave_ratio(k as int).0);
            assert(octave_proportion.magnitude_b as nat == octave_ratio(k as int).1);
            vstd::arithmetic::power::lemma_pow_positive(2, a);
            if k >= 0 {
                assert(a == k as nat);
                assert(octave_ratio(k as int).0 == 1);
                assert(octave_ratio(k as int).1 == pow(2, a));
            } else {
                assert(a == (-(k as int)) as nat);
                assert(octave_ratio(k as int).0 == pow(2, a));
                assert(octave_ratio(k as int).1 == 1);
            }
            assert(pow(2, a) <= 0x8000000000) by {
                vstd::arithmetic::power::lemma_pow_increases(2, a, 39);
                vstd::arithmetic::power2::lemma_pow2(39);
                vstd::arithmetic::power2::lemma2_to64_rest();
            }
            assert(octave_proportion.magnitude_a <= 0x8000000000 && octave_proportion.magnitude_b
                <= 0x8000000000);
            let lo: int = if d >= refd {
                refd as int
            } else {
                d as int
            };
            let hi: int = if d >= refd {
                d as int
            } else {
                refd as int
            };
            lemma_chain_ratio_bounds(self.proportionen@, lo, hi);
            assert(octave_proportion.magnitude_a * position_proportion.magnitude_a <= u64::MAX
                && octave_proportion.magnitude_b * position_proportion.magnitude_b <= u64::MAX)
                by (nonlinear_arith)
                requires
                    1 <= octave_proportion.magnitude_a <= 0x8000000000,
                    1 <= octave_proportion.magnitude_b <= 0x8000000000,
                    1 <= position_proportion.magnitude_a <= 16777216,
                    1 <= position_proportion.magnitude_b <= 16777216,
            ;
        }
        let fused = octave_proportion.fusion(&position_proportion);
        Some(
            Pitch {
                ratio_numer: fused.magnitude_b,
                ratio_denom: fused.magnitude_a,
                semitone_offset: self.pitch_adjust,
            },
        )
    }
}

} // verus!
