//! Keys and scale derivation.
//!
//! A [`Key`] owns a tonic tone, a scale kind, the seven tones of its
//! diatonic scale, and a tuning built from that scale.  The key
//! signature comes from an exhaustive circle-of-fifths table, because
//! enharmonic spelling is a convention, not a formula; a minor scale is
//! the major scale of its relative major read from its sixth degree.

use vstd::prelude::*;
use vstd::string::StringExecFns;
use crate::musical_notation::Accidental;
use crate::musical_notation::NoteName;
use crate::musical_notation::Pitch;
use crate::musical_notation::ScaleKind;
use crate::musical_notation::Tone;
use crate::musical_notation::spec_note_by_index;
use crate::musical_notation::spec_note_index;
use crate::musical_notation::spec_tone;
use crate::temperament::Temperament;
use crate::temperament::spec_position;
use crate::temperament::TemperamentError;

verus! {

/// Error raised when a key cannot be built.
#[derive(Debug)]
pub struct KeyCreationError {
    message: String,
}

impl View for KeyCreationError {
    type V = Seq<char>;

    /// The error's own message, without the common prefix.
    closed spec fn view(&self) -> Seq<char> {
        self.message@
    }
}

/// The full text that [`KeyCreationError::message`] renders for an
/// inner message `msg`.
pub open spec fn key_creation_error_text(msg: Seq<char>) -> Seq<char> {
    "There was an error creating the Key. "@ + msg
}

impl KeyCreationError {
    /// Wraps the failure of a tuning construction.
    pub fn from(temperament_error: TemperamentError) -> (e: KeyCreationError)
        ensures
            e@ == crate::temperament::temperament_error_text(temperament_error@),
    {
        KeyCreationError { message: temperament_error.message() }
    }

    /// Renders the error as one sentence naming the inner message.
    pub fn message(&self) -> (r: String)
        ensures
            r@ == key_creation_error_text(self@),
    {
        let mut r = String::from_str("There was an error creating the Key. ");
        r.append(self.message.as_str());
        r
    }
}

/// The circle-of-fifths index of the major key with tonic `tone`: 0 is
/// the empty signature, a negative index counts flats, a positive one
/// counts sharps.  The table is exhaustive because the enharmonic
/// choices it encodes cannot be derived from a formula.
pub open spec fn spec_cof_index(tone: Tone) -> int {
    match (tone.name(), tone.acc()) {
        (NoteName::C, Accidental::Flat) => -7,
        (NoteName::G, Accidental::Flat) => -6,
        (NoteName::D, Accidental::Flat) => -5,
        (NoteName::A, Accidental::Flat) => -4,
        (NoteName::G, Accidental::Sharp) => -4,
        (NoteName::E, Accidental::Flat) => -3,
        (NoteName::D, Accidental::Sharp) => -3,
        (NoteName::B, Accidental::Flat) => -2,
        (NoteName::A, Accidental::Sharp) => -2,
        (NoteName::F, Accidental::Natural) => -1,
        (NoteName::E, Accidental::Sharp) => -1,
        (NoteName::C, Accidental::Natural) => 0,
        (NoteName::B, Accidental::Sharp) => 0,
        (NoteName::G, Accidental::Natural) => 1,
        (NoteName::D, Accidental::Natural) => 2,
        (NoteName::A, Accidental::Natural) => 3,
        (NoteName::E, Accidental::Natural) => 4,
        (NoteName::F, Accidental::Flat) => 4,
        (NoteName::B, Accidental::Natural) => 5,
        (NoteName::F, Accidental::Sharp) => 6,
        (NoteName::C, Accidental::Sharp) => 7,
    }
}

/// The order in which sharps enter a key signature.
pub open spec fn spec_sharp_order(i: int) -> NoteName {
    if i == 0 {
        NoteName::F
    } else if i == 1 {
        NoteName::C
    } else if i == 2 {
        NoteName::G
    } else if i == 3 {
        NoteName::D
    } else if i == 4 {
        NoteName::A
    } else if i == 5 {
        NoteName::E
    } else {
        NoteName::B
    }
}

/// The order in which flats enter a key signature.
pub open spec fn spec_flat_order(i: int) -> NoteName {
    if i == 0 {
        NoteName::B
    } else if i == 1 {
        NoteName::E
    } else if i == 2 {
        NoteName::A
    } else if i == 3 {
        NoteName::D
    } else if i == 4 {
        NoteName::G
    } else if i == 5 {
        NoteName::C
    } else {
        NoteName::F
    }
}

/// The accidental of the major key signature on `tone`.
pub open spec fn spec_signature_accidental(tone: Tone) -> Accidental {
    if spec_cof_index(tone) == 0 {
        Accidental::Natural
    } else if spec_cof_index(tone) < 0 {
        Accidental::Flat
    } else {
        Accidental::Sharp
    }
}

/// The note names that the major key signature on `tone` affects: the
/// first flats or sharps of the fixed orders.
pub open spec fn spec_signature_names(tone: Tone) -> Seq<NoteName> {
    let idx = spec_cof_index(tone);
    if idx < 0 {
        Seq::new((-idx) as nat, |i: int| spec_flat_order(i))
    } else {
        Seq::new(idx as nat, |i: int| spec_sharp_order(i))
    }
}

/// Whether the major key signature on `tone` affects `name`.
pub open spec fn spec_in_signature(tone: Tone, name: NoteName) -> bool {
    exists|i: int|
        0 <= i < spec_signature_names(tone).len() && #[trigger] spec_signature_names(tone)[i]
            == name
}

/// The tone at 0-based degree `i` of the major scale on `tone`: the
/// `i`th consecutive note name from the tonic's, altered by the key
/// signature where it applies.
pub open spec fn spec_major_scale_tone(tone: Tone, i: int) -> Tone {
    let name = spec_note_by_index((spec_note_index(tone.name()) + i) % 7);
    let acc = if spec_in_signature(tone, name) {
        spec_signature_accidental(tone)
    } else {
        Accidental::Natural
    };
    spec_tone(name, acc)
}

/// The tonic of the major scale whose relative minor has tonic `tone`.
/// An exhaustive table, for the same reason as the circle of fifths.
pub open spec fn spec_major_of_minor(tone: Tone) -> Tone {
    match (tone.name(), tone.acc()) {
        (NoteName::C, Accidental::Flat) => spec_tone(NoteName::D, Accidental::Natural),
        (NoteName::G, Accidental::Flat) => spec_tone(NoteName::A, Accidental::Natural),
        (NoteName::D, Accidental::Flat) => spec_tone(NoteName::E, Accidental::Natural),
        (NoteName::A, Accidental::Flat) => spec_tone(NoteName::C, Accidental::Flat),
        (NoteName::G, Accidental::Sharp) => spec_tone(NoteName::C, Accidental::Flat),
        (NoteName::E, Accidental::Flat) => spec_tone(NoteName::G, Accidental::Flat),
        (NoteName::D, Accidental::Sharp) => spec_tone(NoteName::G, Accidental::Flat),
        (NoteName::B, Accidental::Flat) => spec_tone(NoteName::D, Accidental::Flat),
        (NoteName::A, Accidental::Sharp) => spec_tone(NoteName::D, Accidental::Flat),
        (NoteName::F, Accidental::Natural) => spec_tone(NoteName::A, Accidental::Flat),
        (NoteName::E, Accidental::Sharp) => spec_tone(NoteName::A, Accidental::Flat),
        (NoteName::C, Accidental::Natural) => spec_tone(NoteName::E, Accidental::Flat),
        (NoteName::B, Accidental::Sharp) => spec_tone(NoteName::E, Accidental::Flat),
        (NoteName::G, Accidental::Natural) => spec_tone(NoteName::B, Accidental::Flat),
        (NoteName::D, Accidental::Natural) => spec_tone(NoteName::F, Accidental::Natural),
        (NoteName::A, Accidental::Natural) => spec_tone(NoteName::C, Accidental::Natural),
        (NoteName::E, Accidental::Natural) => spec_tone(NoteName::G, Accidental::Natural),
        (NoteName::F, Accidental::Flat) => spec_tone(NoteName::G, Accidental::Natural),
        (NoteName::B, Accidental::Natural) => spec_tone(NoteName::D, Accidental::Natural),
        (NoteName::F, Accidental::Sharp) => spec_tone(NoteName::A, Accidental::Natural),
        (NoteName::C, Accidental::Sharp) => spec_tone(NoteName::E, Accidental::Natural),
    }
}

/// The seven tones of the scale of `tone` and `kind`: the major scale
/// itself, or the relative major's scale rotated to start at its sixth
/// degree.
pub open spec fn spec_scale(tone: Tone, kind: ScaleKind) -> Seq<Tone> {
    match kind {
        ScaleKind::Major => Seq::new(7, |i: int| spec_major_scale_tone(tone, i)),
        ScaleKind::Minor => Seq::new(
            7,
            |i: int| spec_major_scale_tone(spec_major_of_minor(tone), (i + 5) % 7),
        ),
    }
}

/// A key: a tonic tone and scale kind, the seven tones of the derived
/// scale, and a tuning built from that scale.
#[derive(Copy, Clone, Debug)]
pub struct Key<T: Temperament> {
    pub tone: Tone,
    pub scale_kind: ScaleKind,
    pub temperament: T,
    pub scale: [Tone; 7],
}

impl<T: Temperament> Key<T> {
    /// Well-formedness: the stored scale is the one derived from the
    /// tonic and kind, and the tuning was built from it.
    pub open spec fn wf(&self) -> bool {
        &&& self.scale@ == spec_scale(self.tone, self.scale_kind)
        &&& self.temperament.wf(self.scale@)
    }

    /// Builds the key's diatonic scale, then a tuning seeded with that
    /// scale; fails exactly when the tuning cannot be built from it.
    pub fn new(tone: Tone, scale_kind: ScaleKind) -> (r: Result<Key<T>, KeyCreationError>)
        ensures
            r is Ok <==> T::buildable(spec_scale(tone, scale_kind)),
            (match r {
                Ok(k) => k.tone == tone && k.scale_kind == scale_kind && k.wf(),
                Err(_) => true,
            }),
    {
        let scale = Self::get_scale(tone, scale_kind);
        match T::new(&scale) {
            Ok(temperament) => Ok(Key { tone, scale_kind, temperament, scale }),
            Err(e) => Err(KeyCreationError::from(e)),
        }
    }

    /// Returns the accidental and affected note names of the major key
    /// signature on `tone`.
    fn get_key_signature(tone: Tone) -> (r: (Accidental, Vec<NoteName>))
        ensures
            r.0 == spec_signature_accidental(tone),
            r.1@ == spec_signature_names(tone),
    {
        let index: i8 = match (tone.get_note_name(), tone.get_accidental()) {
            (NoteName::C, Accidental::Flat) => -7,
            (NoteName::G, Accidental::Flat) => -6,
            (NoteName::D, Accidental::Flat) => -5,
            (NoteName::A, Accidental::Flat) => -4,
            (NoteName::G, Accidental::Sharp) => -4,
            (NoteName::E, Accidental::Flat) => -3,
            (NoteName::D, Accidental::Sharp) => -3,
            (NoteName::B, Accidental::Flat) => -2,
            (NoteName::A, Accidental::Sharp) => -2,
            (NoteName::F, Accidental::Natural) => -1,
            (NoteName::E, Accidental::Sharp) => -1,
            (NoteName::C, Accidental::Natural) => 0,
            (NoteName::B, Accidental::Sharp) => 0,
            (NoteName::G, Accidental::Natural) => 1,
            (NoteName::D, Accidental::Natural) => 2,
            (NoteName::A, Accidental::Natural) => 3,
            (NoteName::E, Accidental::Natural) => 4,
            (NoteName::F, Accidental::Flat) => 4,
            (NoteName::B, Accidental::Natural) => 5,
            (NoteName::F, Accidental::Sharp) => 6,
            (NoteName::C, Accidental::Sharp) => 7,
        };
        let accidental = if index == 0 {
            Accidental::Natural
        } else if index < 0 {
            Accidental::Flat
        } else {
            Accidental::Sharp
        };
        let accidentals_sharp: [NoteName; 7] = [
            NoteName::F,
            NoteName::C,
            NoteName::G,
            NoteName::D,
            NoteName::A,
            NoteName::E,
            NoteName::B,
        ];
        let accidentals_flat: [NoteName; 7] = [
            NoteName::B,
            NoteName::E,
            NoteName::A,
            NoteName::D,
            NoteName::G,
            NoteName::C,
            NoteName::F,
        ];
        let count: usize = if index < 0 {
            (-index) as usize
        } else {
            index as usize
        };
        let mut names: Vec<NoteName> = Vec::new();
        let mut i: usize = 0;
        while i < count
            invariant
                count <= 7,
                i <= count,
                index as int == spec_cof_index(tone),
                count as int == (if spec_cof_index(tone) < 0 {
                    -spec_cof_index(tone)
                } else {
                    spec_cof_index(tone)
                }),
                names@.len() == i,
                forall|j: int|
                    0 <= j < i ==> #[trigger] names@[j] == (if spec_cof_index(tone) < 0 {
                        spec_flat_order(j)
                    } else {
                        spec_sharp_order(j)
                    }),
                accidentals_sharp@ =~= Seq::new(7, |j: int| spec_sharp_order(j)),
                accidentals_flat@ =~= Seq::new(7, |j: int| spec_flat_order(j)),
            decreases count - i,
        {
            if index < 0 {
                names.push(accidentals_flat[i]);
            } else {
                names.push(accidentals_sharp[i]);
            }
            i = i + 1;
        }
        proof {
            assert(names@ =~= spec_signature_names(tone));
        }
        (accidental, names)
    }

    /// Returns the tonic of the major scale whose relative minor scale
    /// has the tonic of this key.
    fn get_major_of_minor(tone: Tone) -> (r: Tone)
        ensures
            r == spec_major_of_minor(tone),
    {
        match (tone.get_note_name(), tone.get_accidental()) {
            (NoteName::C, Accidental::Flat) => Tone::new(NoteName::D, Accidental::Natural),
            (NoteName::G, Accidental::Flat) => Tone::new(NoteName::A, Accidental::Natural),
            (NoteName::D, Accidental::Flat) => Tone::new(NoteName::E, Accidental::Natural),
            (NoteName::A, Accidental::Flat) => Tone::new(NoteName::C, Accidental::Flat),
            (NoteName::G, Accidental::Sharp) => Tone::new(NoteName::C, Accidental::Flat),
            (NoteName::E, Accidental::Flat) => Tone::new(NoteName::G, Accidental::Flat),
            (NoteName::D, Accidental::Sharp) => Tone::new(NoteName::G, Accidental::Flat),
            (NoteName::B, Accidental::Flat) => Tone::new(NoteName::D, Accidental::Flat),
            (NoteName::A, Accidental::Sharp) => Tone::new(NoteName::D, Accidental::Flat),
            (NoteName::F, Accidental::Natural) => Tone::new(NoteName::A, Accidental::Flat),
            (NoteName::E, Accidental::Sharp) => Tone::new(NoteName::A, Accidental::Flat),
            (NoteName::C, Accidental::Natural) => Tone::new(NoteName::E, Accidental::Flat),
            (NoteName::B, Accidental::Sharp) => Tone::new(NoteName::E, Accidental::Flat),
            (NoteName::G, Accidental::Natural) => Tone::new(NoteName::B, Accidental::Flat),
            (NoteName::D, Accidental::Natural) => Tone::new(NoteName::F, Accidental::Natural),
            (NoteName::A, Accidental::Natural) => Tone::new(NoteName::C, Accidental::Natural),
            (NoteName::E, Accidental::Natural) => Tone::new(NoteName::G, Accidental::Natural),
            (NoteName::F, Accidental::Flat) => Tone::new(NoteName::G, Accidental::Natural),
            (NoteName::B, Accidental::Natural) => Tone::new(NoteName::D, Accidental::Natural),
            (NoteName::F, Accidental::Sharp) => Tone::new(NoteName::A, Accidental::Natural),
            (NoteName::C, Accidental::Sharp) => Tone::new(NoteName::E, Accidental::Natural),
        }
    }

    /// Builds the seven tones of the major scale on `tone`.
    fn get_major_scale(tone: Tone) -> (r: [Tone; 7])
        ensures
            r@ == Seq::new(7, |i: int| spec_major_scale_tone(tone, i)),
    {
        let key_signature = Self::get_key_signature(tone);
        let mut scale: [Tone; 7] = [Tone::new(NoteName::C, Accidental::Natural); 7];
        let start_index = tone.get_note_name().get_index();
        let mut index: usize = 0;
        while index < 7
            invariant
                index <= 7,
                start_index as int == spec_note_index(tone.name()),
                start_index < 7,
                key_signature.0 == spec_signature_accidental(tone),
                key_signature.1@ == spec_signature_names(tone),
                forall|j: int|
                    0 <= j < index ==> #[trigger] scale@[j] == spec_major_scale_tone(tone, j),
            decreases 7 - index,
        {
            let note = match NoteName::get_by_index(((start_index as usize + index) % 7) as u8) {
                Ok(note) => note,
                Err(_) => {
                    proof {
                        assert(false);
                    }
                    NoteName::C
                },
            };
            let mut in_signature = false;
            let mut j: usize = 0;
            let sig_len = key_signature.1.len();
            while j < sig_len
                invariant
                    sig_len == key_signature.1@.len(),
                    j <= sig_len,
                    key_signature.1@ == spec_signature_names(tone),
                    in_signature ==> spec_in_signature(tone, note),
                    !in_signature ==> forall|q: int|
                        0 <= q < j ==> #[trigger] key_signature.1@[q] != note,
                decreases sig_len - j,
            {
                if key_signature.1[j] == note {
                    in_signature = true;
                }
                j = j + 1;
            }
            proof {
                if !in_signature {
                    assert(!spec_in_signature(tone, note));
                }
            }
            let acc = if in_signature {
                key_signature.0
            } else {
                Accidental::Natural
            };
            scale[index] = Tone::new(note, acc);
            proof {
                assert(scale@[index as int] == spec_major_scale_tone(tone, index as int));
            }
            index = index + 1;
        }
        proof {
            assert(scale@ =~= Seq::new(7, |i: int| spec_major_scale_tone(tone, i)));
        }
        scale
    }

    /// Returns the notes and accidentals of the current key: the major
    /// scale of the tonic, or, for a minor key, the relative major's
    /// scale rotated right so that it starts at its sixth degree.
    pub fn get_scale(tone: Tone, scale_kind: ScaleKind) -> (r: [Tone; 7])
        ensures
            r@ == spec_scale(tone, scale_kind),
    {
        match scale_kind {
            ScaleKind::Major => {
                let scale = Self::get_major_scale(tone);
                proof {
                    assert(scale@ =~= spec_scale(tone, scale_kind));
                }
                scale
            },
            ScaleKind::Minor => {
                let major_of_minor = Self::get_major_of_minor(tone);
                let major_scale = Self::get_major_scale(major_of_minor);
                let mut scale: [Tone; 7] = [Tone::new(NoteName::C, Accidental::Natural); 7];
                let mut index: usize = 0;
                while index < 7
                    invariant
                        index <= 7,
                        major_of_minor == spec_major_of_minor(tone),
                        major_scale@ == Seq::new(
                            7,
                            |i: int| spec_major_scale_tone(major_of_minor, i),
                        ),
                        forall|j: int|
                            0 <= j < index ==> #[trigger] scale@[j] == spec_major_scale_tone(
                                spec_major_of_minor(tone),
                                (j + 5) % 7,
                            ),
                    decreases 7 - index,
                {
                    scale[index] = major_scale[(index + 5) % 7];
                    index = index + 1;
                }
                proof {
                    assert(scale@ =~= spec_scale(tone, scale_kind));
                }
                scale
            },
        }
    }
}

/// A tone at which the walk up a scale crosses into the next octave
/// number: C natural, or one of its nearest enharmonic spellings.
pub open spec fn spec_is_boundary(tone: Tone) -> bool {
    ||| tone == spec_tone(NoteName::C, Accidental::Natural)
    ||| tone == spec_tone(NoteName::B, Accidental::Sharp)
    ||| tone == spec_tone(NoteName::C, Accidental::Sharp)
    ||| tone == spec_tone(NoteName::D, Accidental::Flat)
}

/// The scale tone sounding at offset `i` of a walk that starts at
/// degree `degree` (1-based), wrapping around the seven degrees.
pub open spec fn spec_tone_at(scale: Seq<Tone>, degree: int, i: int) -> Tone {
    scale[(degree - 1 + i) % 7]
}

/// The offset from which boundary tones begin to count: a walk that
/// starts at degree 1 never bumps its very first tone.
pub open spec fn spec_boundary_threshold(degree: int) -> int {
    if degree == 1 {
        1
    } else {
        0
    }
}

/// The first boundary offset in `[i, end)`, if any.
pub open spec fn first_boundary_from(scale: Seq<Tone>, degree: int, i: int, end: int) -> Option<
    int,
>
    decreases end - i,
{
    if i >= end {
        None
    } else if spec_is_boundary(spec_tone_at(scale, degree, i)) {
        Some(i)
    } else {
        first_boundary_from(scale, degree, i + 1, end)
    }
}

/// The offset at which the walk first crosses an octave boundary, if
/// it ever does.  The walk is periodic with period seven, so only one
/// window needs searching.
pub open spec fn spec_first_boundary(scale: Seq<Tone>, degree: int) -> Option<int> {
    let t0 = spec_boundary_threshold(degree);
    first_boundary_from(scale, degree, t0, t0 + 7)
}

/// What a first-boundary search returns: a boundary offset preceded
/// only by non-boundary offsets, or nothing when the range has none.
proof fn lemma_first_boundary_from_props(scale: Seq<Tone>, degree: int, i: int, end: int)
    ensures
        match first_boundary_from(scale, degree, i, end) {
            Some(f) => i <= f < end && spec_is_boundary(spec_tone_at(scale, degree, f)) && (forall|
                j: int,
            |
                i <= j < f ==> !spec_is_boundary(#[trigger] spec_tone_at(scale, degree, j))),
            None => forall|j: int|
                i <= j < end ==> !spec_is_boundary(#[trigger] spec_tone_at(scale, degree, j)),
        },
    decreases end - i,
{
    if i >= end {
    } else if spec_is_boundary(spec_tone_at(scale, degree, i)) {
    } else {
        lemma_first_boundary_from_props(scale, degree, i + 1, end);
    }
}

/// The walk's tones repeat with period seven: any offset at or past the
/// threshold sounds the same tone as some offset of the first window.
proof fn lemma_tone_window(scale: Seq<Tone>, degree: int, i: int)
    requires
        spec_boundary_threshold(degree) <= i,
    ensures
        spec_boundary_threshold(degree) <= spec_boundary_threshold(degree) + (i
            - spec_boundary_threshold(degree)) % 7 < spec_boundary_threshold(degree) + 7,
        spec_tone_at(
            scale,
            degree,
            spec_boundary_threshold(degree) + (i - spec_boundary_threshold(degree)) % 7,
        ) == spec_tone_at(scale, degree, i),
{
    let t0 = spec_boundary_threshold(degree);
    let q = (i - t0) / 7;
    let r = (i - t0) % 7;
    assert(i - t0 == 7 * q + r);
    vstd::arithmetic::div_mod::lemma_mod_multiples_vanish(q, degree - 1 + t0 + r, 7);
    assert((degree - 1 + t0 + r + 7 * q) % 7 == (degree - 1 + t0 + r) % 7);
    assert(degree - 1 + i == degree - 1 + t0 + r + 7 * q);
}

/// One more step of a nonnegative count moves its quotient and
/// remainder by seven in the expected way.
proof fn lemma_counter_step(m: int)
    requires
        m >= 0,
    ensures
        m % 7 == 6 ==> (m + 1) / 7 == m / 7 + 1 && (m + 1) % 7 == 0,
        m % 7 != 6 ==> (m + 1) / 7 == m / 7 && (m + 1) % 7 == m % 7 + 1,
{
    if m % 7 == 6 {
        assert(m + 1 == 7 * (m / 7 + 1));
        vstd::arithmetic::div_mod::lemma_fundamental_div_mod_converse(m + 1, 7, m / 7 + 1, 0);
    } else {
        vstd::arithmetic::div_mod::lemma_fundamental_div_mod_converse(m + 1, 7, m / 7, m % 7 + 1);
    }
}

/// How many octaves the walk has stepped up when it sounds offset `i`.
pub open spec fn spec_octaves_at(scale: Seq<Tone>, degree: int, i: int) -> int {
    match spec_first_boundary(scale, degree) {
        Some(f) => if i < f {
            0
        } else {
            1 + (i - f) / 7
        },
        None => 0,
    }
}

/// The largest octave bump a walk of `count` offsets can reach.
pub open spec fn spec_max_bump(count: nat) -> int {
    if count == 0 {
        0
    } else {
        1 + (count - 1) / 7
    }
}

/// The octave bump at any offset of the walk lies between 0 and the
/// walk's largest possible bump.
proof fn lemma_octaves_at_bounds(scale: Seq<Tone>, degree: int, i: int, count: nat)
    requires
        0 <= i < count,
    ensures
        0 <= spec_octaves_at(scale, degree, i) <= spec_max_bump(count),
{
    match spec_first_boundary(scale, degree) {
        Some(f) => {
            lemma_first_boundary_from_props(
                scale,
                degree,
                spec_boundary_threshold(degree),
                spec_boundary_threshold(degree) + 7,
            );
            if i >= f {
                vstd::arithmetic::div_mod::lemma_div_pos_is_pos(i - f, 7);
                vstd::arithmetic::div_mod::lemma_div_is_ordered(i - f, count - 1, 7);
            }
        },
        None => {},
    }
}

/// The pitches of `count` consecutive degrees of `scale`, starting at
/// `degree` in `octave`, under temperament `t`: each walked tone's
/// pitch in the octave reached so far, or nothing when the start
/// degree is out of range or the temperament fails on any tone.
pub open spec fn spec_scale_pitches<T: Temperament>(
    t: T,
    scale: Seq<Tone>,
    octave: int,
    degree: int,
    count: nat,
) -> Option<Seq<Pitch>> {
    if !(1 <= degree <= 7) {
        None
    } else if forall|i: int|
        0 <= i < count ==> (#[trigger] t.spec_pitch(
            octave + spec_octaves_at(scale, degree, i),
            spec_tone_at(scale, degree, i),
        )) is Some {
        Some(
            Seq::new(
                count,
                |i: int|
                    t.spec_pitch(
                        octave + spec_octaves_at(scale, degree, i),
                        spec_tone_at(scale, degree, i),
                    ).unwrap(),
            ),
        )
    } else {
        None
    }
}

impl<T: Temperament> Key<T> {
    /// What `get_scale_pitches` asks of its caller: the temperament
    /// accepts every octave the walk can reach, and the reached octave
    /// numbers fit their machine type.
    pub open spec fn pitch_walk_pre(&self, octave: int, count: nat) -> bool {
        &&& forall|k: int|
            0 <= k <= spec_max_bump(count) ==> self.temperament.pitch_pre(#[trigger] (octave + k))
        &&& octave + spec_max_bump(count) <= i16::MAX
    }

    /// Calculate the pitches of consecutive degrees of this key's
    /// scale using its temperament.  The pitches start in the given
    /// octave at the given 1-based scale degree and comprise the given
    /// number of pitches; the octave number steps up each time the
    /// walk crosses a C boundary, and again after every further seven
    /// pitches.  Returns nothing when the start degree lies outside 1
    /// to 7 or the temperament fails on any walked tone.
    pub fn get_scale_pitches(&self, octave: i16, degree: u8, number_of_pitches: u8) -> (r: Option<
        Vec<Pitch>,
    >)
        requires
            self.pitch_walk_pre(octave as int, number_of_pitches as nat),
        ensures
            match r {
                Some(pitches) => spec_scale_pitches(
                    self.temperament,
                    self.scale@,
                    octave as int,
                    degree as int,
                    number_of_pitches as nat,
                ) == Some(pitches@),
                None => spec_scale_pitches(
                    self.temperament,
                    self.scale@,
                    octave as int,
                    degree as int,
                    number_of_pitches as nat,
                ) is None,
            },
    {
        if degree < 1 || degree > 7 {
            return None;
        }
        let ghost scale = self.scale@;
        let ghost deg = degree as int;
        let ghost fb = spec_first_boundary(scale, deg);
        let ghost count = number_of_pitches as nat;
        proof {
            lemma_first_boundary_from_props(
                scale,
                deg,
                spec_boundary_threshold(deg),
                spec_boundary_threshold(deg) + 7,
            );
        }
        let mut pitches: Vec<Pitch> = Vec::new();
        let mut octaves: i16 = 0;
        let mut pitches_in_octave: u8 = 0;
        let n = number_of_pitches as usize;
        let mut i: usize = 0;
        while i < n
            invariant
                1 <= degree <= 7,
                deg == degree as int,
                scale == self.scale@,
                fb == spec_first_boundary(scale, deg),
                count == number_of_pitches as nat,
                n == count,
                i <= n,
                self.pitch_walk_pre(octave as int, count),
                (match fb {
                    Some(f) => {
                        if i <= f {
                            octaves == 0 && pitches_in_octave == 0
                        } else {
                            octaves as int == 1 + (i - 1 - f) / 7 && pitches_in_octave as int == (i
                                - 1 - f) % 7 + 1
                        }
                    },
                    None => octaves == 0 && pitches_in_octave == 0,
                }),
                pitches@.len() == i,
                forall|j: int|
                    0 <= j < i ==> (#[trigger] self.temperament.spec_pitch(
                        octave as int + spec_octaves_at(scale, deg, j),
                        spec_tone_at(scale, deg, j),
                    )) is Some && pitches@[j] == self.temperament.spec_pitch(
                        octave as int + spec_octaves_at(scale, deg, j),
                        spec_tone_at(scale, deg, j),
                    ).unwrap(),
            decreases n - i,
        {
            proof {
                lemma_first_boundary_from_props(
                    scale,
                    deg,
                    spec_boundary_threshold(deg),
                    spec_boundary_threshold(deg) + 7,
                );
            }
            let tone = self.scale[((degree as usize - 1) + i) % 7];
            proof {
                assert(tone == spec_tone_at(scale, deg, i as int));
            }
            let is_boundary = tone == Tone::new(NoteName::C, Accidental::Natural) || tone
                == Tone::new(NoteName::B, Accidental::Sharp) || tone == Tone::new(
                NoteName::C,
                Accidental::Sharp,
            ) || tone == Tone::new(NoteName::D, Accidental::Flat);
            proof {
                assert(is_boundary == spec_is_boundary(spec_tone_at(scale, deg, i as int)));
                if octaves == 0 && (i as int) >= spec_boundary_threshold(deg) {
                    if fb is None {
                        lemma_tone_window(scale, deg, i as int);
                        assert(!is_boundary);
                    }
                    if fb is Some && (i as int) < fb.unwrap() {
                        if i as int >= spec_boundary_threshold(deg) + 7 {
                            lemma_tone_window(scale, deg, i as int);
                        }
                    }
                }
            }
            if (degree > 1 || i > 0) && octaves == 0 && is_boundary {
                proof {
                    if fb is None {
                        lemma_tone_window(scale, deg, i as int);
                        assert(false);
                    }
                    let f = fb.unwrap();
                    if (i as int) < f {
                        if (i as int) < spec_boundary_threshold(deg) + 7 {
                            assert(!spec_is_boundary(spec_tone_at(scale, deg, i as int)));
                        } else {
                            lemma_tone_window(scale, deg, i as int);
                        }
                        assert(false);
                    }
                    assert(i as int == f);
                }
                octaves = octaves + 1;
            } else {
                proof {
                    if fb is Some && i as int == fb.unwrap() {
                        assert(spec_is_boundary(spec_tone_at(scale, deg, i as int)));
                        assert(degree > 1 || i > 0);
                        assert(octaves == 0);
                        assert(false);
                    }
                }
            }
            if octaves > 0 {
                proof {
                    if fb is Some && i as int > fb.unwrap() {
                        lemma_counter_step(i as int - 1 - fb.unwrap());
                    }
                }
                pitches_in_octave = pitches_in_octave + 1;
                if pitches_in_octave == 8 {
                    octaves = octaves + 1;
                    pitches_in_octave = 1;
                }
            }
            proof {
                lemma_octaves_at_bounds(scale, deg, i as int, count);
                assert(octaves as int == spec_octaves_at(scale, deg, i as int));
            }
            match self.temperament.get_pitch(octave + octaves, tone) {
                Some(pitch) => {
                    pitches.push(pitch);
                },
                None => {
                    proof {
                        assert(self.temperament.spec_pitch(
                            octave as int + spec_octaves_at(scale, deg, i as int),
                            spec_tone_at(scale, deg, i as int),
                        ) is None);
                    }
                    return None;
                },
            }
            i = i + 1;
        }
        proof {
            assert forall|j: int|
                0 <= j < count implies (#[trigger] self.temperament.spec_pitch(
                octave as int + spec_octaves_at(scale, deg, j),
                spec_tone_at(scale, deg, j),
            )) is Some by {}
            assert(pitches@ =~= Seq::new(
                count,
                |j: int|
                    self.temperament.spec_pitch(
                        octave as int + spec_octaves_at(scale, deg, j),
                        spec_tone_at(scale, deg, j),
                    ).unwrap(),
            ));
        }
        Some(pitches)
    }
}

/// The textual form of a key's tonic: its note letter, with `b` or `#`
/// after it for a flat or sharp tonic.
pub open spec fn spec_key_string(tone: Tone) -> Seq<char> {
    match tone.acc() {
        Accidental::Flat => seq![crate::musical_notation::spec_note_letter(tone.name())] + "b"@,
        Accidental::Natural => seq![crate::musical_notation::spec_note_letter(tone.name())],
        Accidental::Sharp => seq![crate::musical_notation::spec_note_letter(tone.name())] + "#"@,
    }
}

impl<T: Temperament> Key<T> {
    /// The key's tonic written as text, such as `Db` or `F#`.
    pub fn as_string(&self) -> (r: String)
        ensures
            r@ == spec_key_string(self.tone),
    {
        let mut r = String::new();
        crate::text::push_char(&mut r, self.tone.get_note_name().letter());
        match self.tone.get_accidental() {
            Accidental::Flat => {
                r.append("b");
                proof {
                    assert(r@ =~= spec_key_string(self.tone));
                }
            },
            Accidental::Natural => {
                proof {
                    assert(r@ =~= spec_key_string(self.tone));
                }
            },
            Accidental::Sharp => {
                r.append("#");
                proof {
                    assert(r@ =~= spec_key_string(self.tone));
                }
            },
        }
        r
    }
}

/// The walk of a scale from degree 1 sounds the scale's first tone in
/// the starting octave: no boundary is counted before the walk moves.
pub proof fn lemma_walk_starts_at_first_degree<T: Temperament>(
    t: T,
    scale: Seq<Tone>,
    octave: int,
    count: nat,
)
    requires
        count > 0,
        spec_scale_pitches(t, scale, octave, 1, count) is Some,
    ensures
        (spec_scale_pitches(t, scale, octave, 1, count)->Some_0)[0] == t.spec_pitch(
            octave,
            scale[0],
        )->Some_0,
{
    lemma_first_boundary_from_props(scale, 1, 1, 8);
    assert(spec_tone_at(scale, 1, 0) == scale[0]);
    assert(spec_octaves_at(scale, 1, 0) == 0);
    let pitches = spec_scale_pitches(t, scale, octave, 1, count)->Some_0;
    assert(pitches[0] == t.spec_pitch(
        octave + spec_octaves_at(scale, 1, 0),
        spec_tone_at(scale, 1, 0),
    ).unwrap());
}

/// Equal temperament never fails: a scale walk under it always yields
/// its pitches.
pub proof fn lemma_equal_temperament_walk_total(
    t: crate::temperament::EqualTemperament,
    scale: Seq<Tone>,
    octave: int,
    degree: int,
    count: nat,
)
    requires
        1 <= degree <= 7,
    ensures
        spec_scale_pitches(t, scale, octave, degree, count) is Some,
{
}

/// Just intonation assigns a pitch to every tone of its own scale, so
/// a walk of that scale always yields its pitches.
pub proof fn lemma_just_intonation_walk_total(
    t: crate::temperament::JustIntonation,
    octave: int,
    degree: int,
    count: nat,
)
    requires
        1 <= degree <= 7,
    ensures
        spec_scale_pitches(t, t.scale@, octave, degree, count) is Some,
{
    let scale = t.scale@;
    assert forall|i: int|
        0 <= i < count implies (#[trigger] t.spec_pitch(
        octave + spec_octaves_at(scale, degree, i),
        spec_tone_at(scale, degree, i),
    )) is Some by {
        let d = (degree - 1 + i) % 7;
        assert(0 <= d < 7);
        assert(scale[d] == spec_tone_at(scale, degree, i));
        assert(exists|dd: int| 0 <= dd < 7 && (#[trigger] t.scale@[dd]) == scale[d]);
        assert(t.tone_degree(spec_tone_at(scale, degree, i)) is Some);
    }
}

/// Two scales whose tones sit at the same twelve-tone positions cross
/// their first octave boundary at the same offset.
proof fn lemma_first_boundary_congruent(
    s1: Seq<Tone>,
    s2: Seq<Tone>,
    degree: int,
    i: int,
    end: int,
)
    requires
        s1.len() == 7,
        s2.len() == 7,
        1 <= degree <= 7,
        0 <= i,
        forall|k: int| 0 <= k < 7 ==> spec_is_boundary(#[trigger] s1[k]) == spec_is_boundary(s2[k]),
    ensures
        first_boundary_from(s1, degree, i, end) == first_boundary_from(s2, degree, i, end),
    decreases end - i,
{
    if i >= end {
    } else {
        assert(0 <= (degree - 1 + i) % 7 < 7);
        assert(spec_is_boundary(spec_tone_at(s1, degree, i)) == spec_is_boundary(
            spec_tone_at(s2, degree, i),
        ));
        lemma_first_boundary_congruent(s1, s2, degree, i + 1, end);
    }
}

/// Law: under equal temperament, two scales whose tones sit at the
/// same twelve-tone positions, with octave boundaries at the same
/// degrees, sound exactly alike: every walk over them yields pitches
/// that agree bit for bit.  This is what makes enharmonic spellings of
/// one key interchangeable.
pub proof fn lemma_matching_positions_sound_alike(
    s1: Seq<Tone>,
    s2: Seq<Tone>,
    octave: int,
    degree: int,
    count: nat,
)
    requires
        s1.len() == 7,
        s2.len() == 7,
        forall|k: int| 0 <= k < 7 ==> spec_position(#[trigger] s1[k]) == spec_position(s2[k]),
        forall|k: int| 0 <= k < 7 ==> spec_is_boundary(#[trigger] s1[k]) == spec_is_boundary(s2[k]),
    ensures
        spec_scale_pitches(crate::temperament::EqualTemperament {  }, s1, octave, degree, count)
            == spec_scale_pitches(
            crate::temperament::EqualTemperament {  },
            s2,
            octave,
            degree,
            count,
        ),
{
    let t = crate::temperament::EqualTemperament {  };
    if 1 <= degree <= 7 {
        lemma_first_boundary_congruent(
            s1,
            s2,
            degree,
            spec_boundary_threshold(degree),
            spec_boundary_threshold(degree) + 7,
        );
        assert forall|i: int| 0 <= i < count implies spec_octaves_at(s1, degree, i)
            == spec_octaves_at(s2, degree, i) && t.spec_pitch(
            octave + spec_octaves_at(s1, degree, i),
            spec_tone_at(s1, degree, i),
        ) == t.spec_pitch(
            octave + spec_octaves_at(s2, degree, i),
            spec_tone_at(s2, degree, i),
        ) by {
            assert(0 <= (degree - 1 + i) % 7 < 7);
            assert(spec_position(spec_tone_at(s1, degree, i)) == spec_position(
                spec_tone_at(s2, degree, i),
            ));
        }
        let p1 = spec_scale_pitches(t, s1, octave, degree, count);
        let p2 = spec_scale_pitches(t, s2, octave, degree, count);
        if p1 is Some && p2 is Some {
            assert(p1->Some_0 =~= p2->Some_0);
        }
    }
}

/// Law: the D-flat-major and C-sharp-major scales sound exactly alike
/// under equal temperament, in every octave, from every degree and for
/// every number of pitches: the two spellings of the key are
/// interchangeable.
pub proof fn lemma_d_flat_c_sharp_major_sound_alike(octave: int, degree: int, count: nat)
    ensures
        spec_scale_pitches(
            crate::temperament::EqualTemperament {  },
            spec_scale(spec_tone(NoteName::D, Accidental::Flat), ScaleKind::Major),
            octave,
            degree,
            count,
        ) == spec_scale_pitches(
            crate::temperament::EqualTemperament {  },
            spec_scale(spec_tone(NoteName::C, Accidental::Sharp), ScaleKind::Major),
            octave,
            degree,
            count,
        ),
{
    let db = spec_tone(NoteName::D, Accidental::Flat);
    let cs = spec_tone(NoteName::C, Accidental::Sharp);
    let s1 = spec_scale(db, ScaleKind::Major);
    let s2 = spec_scale(cs, ScaleKind::Major);
    assert forall|k: int| 0 <= k < 7 implies spec_position(#[trigger] s1[k]) == spec_position(
        s2[k],
    ) && spec_is_boundary(s1[k]) == spec_is_boundary(s2[k]) by {
        lemma_d_flat_major_tone(k);
        lemma_c_sharp_major_tone(k);
    }
    lemma_matching_positions_sound_alike(s1, s2, octave, degree, count);
}

/// The tones of the D-flat-major scale, degree by degree.
proof fn lemma_d_flat_major_tone(k: int)
    requires
        0 <= k < 7,
    ensures
        spec_scale(spec_tone(NoteName::D, Accidental::Flat), ScaleKind::Major)[k] == (if k == 0 {
            spec_tone(NoteName::D, Accidental::Flat)
        } else if k == 1 {
            spec_tone(NoteName::E, Accidental::Flat)
        } else if k == 2 {
            spec_tone(NoteName::F, Accidental::Natural)
        } else if k == 3 {
            spec_tone(NoteName::G, Accidental::Flat)
        } else if k == 4 {
            spec_tone(NoteName::A, Accidental::Flat)
        } else if k == 5 {
            spec_tone(NoteName::B, Accidental::Flat)
        } else {
            spec_tone(NoteName::C, Accidental::Natural)
        }),
{
    let db = spec_tone(NoteName::D, Accidental::Flat);
    let names = spec_signature_names(db);
    assert(names.len() == 5);
    assert(names[0] == NoteName::B && names[1] == NoteName::E && names[2] == NoteName::A
        && names[3] == NoteName::D && names[4] == NoteName::G);
    assert forall|name: NoteName| spec_in_signature(db, name) == (name == NoteName::B || name
        == NoteName::E || name == NoteName::A || name == NoteName::D || name == NoteName::G) by {
        if name == NoteName::B {
            assert(names[0] == name);
        } else if name == NoteName::E {
            assert(names[1] == name);
        } else if name == NoteName::A {
            assert(names[2] == name);
        } else if name == NoteName::D {
            assert(names[3] == name);
        } else if name == NoteName::G {
            assert(names[4] == name);
        }
    }
}

/// The tones of the C-sharp-major scale, degree by degree.
proof fn lemma_c_sharp_major_tone(k: int)
    requires
        0 <= k < 7,
    ensures
        spec_scale(spec_tone(NoteName::C, Accidental::Sharp), ScaleKind::Major)[k] == (if k == 0 {
            spec_tone(NoteName::C, Accidental::Sharp)
        } else if k == 1 {
            spec_tone(NoteName::D, Accidental::Sharp)
        } else if k == 2 {
            spec_tone(NoteName::E, Accidental::Sharp)
        } else if k == 3 {
            spec_tone(NoteName::F, Accidental::Sharp)
        } else if k == 4 {
            spec_tone(NoteName::G, Accidental::Sharp)
        } else if k == 5 {
            spec_tone(NoteName::A, Accidental::Sharp)
        } else {
            spec_tone(NoteName::B, Accidental::Sharp)
        }),
{
    let cs = spec_tone(NoteName::C, Accidental::Sharp);
    let names = spec_signature_names(cs);
    assert(names.len() == 7);
    assert forall|name: NoteName| spec_in_signature(cs, name) by {
        let j: int = if name == NoteName::F {
            0
        } else if name == NoteName::C {
            1
        } else if name == NoteName::G {
            2
        } else if name == NoteName::D {
            3
        } else if name == NoteName::A {
            4
        } else if name == NoteName::E {
            5
        } else {
            6
        };
        assert(names[j] == name);
    }
}

/// Law: the G-flat-minor and F-sharp-minor scales are one and the same
/// scale: both are the relative minor of A major, so every walk over
/// them yields the same pitches under any temperament.
pub proof fn lemma_g_flat_f_sharp_minor_same_scale()
    ensures
        spec_scale(spec_tone(NoteName::G, Accidental::Flat), ScaleKind::Minor) == spec_scale(
            spec_tone(NoteName::F, Accidental::Sharp),
            ScaleKind::Minor,
        ),
{
    assert(spec_major_of_minor(spec_tone(NoteName::G, Accidental::Flat)) == spec_major_of_minor(
        spec_tone(NoteName::F, Accidental::Sharp),
    ));
    assert(spec_scale(spec_tone(NoteName::G, Accidental::Flat), ScaleKind::Minor) =~= spec_scale(
        spec_tone(NoteName::F, Accidental::Sharp),
        ScaleKind::Minor,
    ));
}

/// The tones of the C-major scale: its signature is empty, so every
/// degree is natural.
proof fn lemma_c_major_tone(k: int)
    requires
        0 <= k < 7,
    ensures
        spec_scale(spec_tone(NoteName::C, Accidental::Natural), ScaleKind::Major)[k] == spec_tone(
            spec_note_by_index(k),
            Accidental::Natural,
        ),
{
    let c = spec_tone(NoteName::C, Accidental::Natural);
    assert(spec_signature_names(c).len() == 0);
    assert(!spec_in_signature(c, spec_note_by_index(k)));
}

/// Law: a just intonation built for C major carries the classic step
/// proportions 8:9, 9:10, 15:16, 8:9, 8:9, 9:10, 15:16, anchored at
/// its A with no semitone adjustment.
pub proof fn lemma_c_major_just_intonation(t: crate::temperament::JustIntonation)
    requires
        t.wf(spec_scale(spec_tone(NoteName::C, Accidental::Natural), ScaleKind::Major)),
    ensures
        crate::proportion::ratio(t.proportionen@[0]) == ((8nat, 9nat)),
        crate::proportion::ratio(t.proportionen@[1]) == ((9nat, 10nat)),
        crate::proportion::ratio(t.proportionen@[2]) == ((15nat, 16nat)),
        crate::proportion::ratio(t.proportionen@[3]) == ((8nat, 9nat)),
        crate::proportion::ratio(t.proportionen@[4]) == ((8nat, 9nat)),
        crate::proportion::ratio(t.proportionen@[5]) == ((9nat, 10nat)),
        crate::proportion::ratio(t.proportionen@[6]) == ((15nat, 16nat)),
        t.reference_pitch_degree == 5,
        t.pitch_adjust == 0,
{
    let c = spec_tone(NoteName::C, Accidental::Natural);
    let scale = spec_scale(c, ScaleKind::Major);
    assert forall|k: int| 0 <= k < 7 implies #[trigger] scale[k] == spec_tone(
        spec_note_by_index(k),
        Accidental::Natural,
    ) by {
        lemma_c_major_tone(k);
    }
    assert(spec_position(scale[0]) == 1);
    assert(spec_position(scale[1]) == 3);
    assert(spec_position(scale[2]) == 5);
    assert(spec_position(scale[3]) == 6);
    assert(spec_position(scale[4]) == 8);
    assert(spec_position(scale[5]) == 10);
    assert(spec_position(scale[6]) == 12);
    assert(crate::temperament::spec_step(scale, 0) == 2);
    assert(crate::temperament::spec_step(scale, 1) == 2);
    assert(crate::temperament::spec_step(scale, 2) == 1);
    assert(crate::temperament::spec_step(scale, 3) == 2);
    assert(crate::temperament::spec_step(scale, 4) == 2);
    assert(crate::temperament::spec_step(scale, 5) == 2);
    assert(crate::temperament::spec_step(scale, 6) == 1);
    let ai = crate::temperament::a_index(scale);
    assert(scale[5].name() == NoteName::A);
    assert(forall|j: int| 0 <= j < 5 ==> (#[trigger] scale[j]).name() != NoteName::A);
    assert(crate::temperament::has_a(scale));
    assert(0 <= ai < 7 && scale[ai].name() == NoteName::A && (forall|j: int|
        0 <= j < ai ==> (#[trigger] scale[j]).name() != NoteName::A));
    assert(ai == 5);
}

} // verus!
