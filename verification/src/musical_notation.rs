//! The data model of musical notation: note names, accidentals, tones,
//! scale kinds, exact pitches, durations, volumes, and musical elements.

use vstd::prelude::*;
use vstd::string::StringExecFns;

verus! {

/// An alteration of a note: a semitone down, none, or a semitone up.
#[derive(Copy, Clone, Debug, PartialEq, Eq, Structural)]
pub enum Accidental {
    Flat,
    Natural,
    Sharp,
}

/// One of the seven note names of western notation.
#[derive(Copy, Clone, Debug, PartialEq, Eq, Structural)]
pub enum NoteName {
    C,
    D,
    E,
    F,
    G,
    A,
    B,
}

/// The index of a note name in the C-first order.
pub open spec fn spec_note_index(name: NoteName) -> int {
    match name {
        NoteName::C => 0,
        NoteName::D => 1,
        NoteName::E => 2,
        NoteName::F => 3,
        NoteName::G => 4,
        NoteName::A => 5,
        NoteName::B => 6,
    }
}

/// The note name at `index` in the C-first order.
pub open spec fn spec_note_by_index(index: int) -> NoteName {
    if index == 0 {
        NoteName::C
    } else if index == 1 {
        NoteName::D
    } else if index == 2 {
        NoteName::E
    } else if index == 3 {
        NoteName::F
    } else if index == 4 {
        NoteName::G
    } else if index == 5 {
        NoteName::A
    } else {
        NoteName::B
    }
}

impl NoteName {
    /// The note name's position in the C-first order.
    pub fn get_index(&self) -> (r: u8)
        ensures
            r as int == spec_note_index(*self),
    {
        match self {
            NoteName::C => 0,
            NoteName::D => 1,
            NoteName::E => 2,
            NoteName::F => 3,
            NoteName::G => 4,
            NoteName::A => 5,
            NoteName::B => 6,
        }
    }

    /// The note name at a position of the C-first order; positions past
    /// the seventh name are rejected.
    pub fn get_by_index(index: u8) -> (r: Result<NoteName, ()>)
        ensures
            match r {
                Ok(name) => index < 7 && name == spec_note_by_index(index as int),
                Err(_) => index >= 7,
            },
    {
        match index {
            0 => Ok(NoteName::C),
            1 => Ok(NoteName::D),
            2 => Ok(NoteName::E),
            3 => Ok(NoteName::F),
            4 => Ok(NoteName::G),
            5 => Ok(NoteName::A),
            6 => Ok(NoteName::B),
            _ => Err(()),
        }
    }

    /// The note name's one-letter textual form.
    pub fn letter(&self) -> (r: char)
        ensures
            r == spec_note_letter(*self),
    {
        match self {
            NoteName::C => 'C',
            NoteName::D => 'D',
            NoteName::E => 'E',
            NoteName::F => 'F',
            NoteName::G => 'G',
            NoteName::A => 'A',
            NoteName::B => 'B',
        }
    }
}

/// The letter naming a note.
pub open spec fn spec_note_letter(name: NoteName) -> char {
    match name {
        NoteName::C => 'C',
        NoteName::D => 'D',
        NoteName::E => 'E',
        NoteName::F => 'F',
        NoteName::G => 'G',
        NoteName::A => 'A',
        NoteName::B => 'B',
    }
}

/// The note name written with letter `c`, if `c` is one of the seven.
pub open spec fn spec_note_of_letter(c: char) -> Option<NoteName> {
    if c == 'A' {
        Some(NoteName::A)
    } else if c == 'B' {
        Some(NoteName::B)
    } else if c == 'C' {
        Some(NoteName::C)
    } else if c == 'D' {
        Some(NoteName::D)
    } else if c == 'E' {
        Some(NoteName::E)
    } else if c == 'F' {
        Some(NoteName::F)
    } else if c == 'G' {
        Some(NoteName::G)
    } else {
        None
    }
}

/// A note name together with an accidental: the spelling of a tone.
#[derive(Copy, Clone, Debug, PartialEq, Eq, Structural)]
pub struct Tone {
    pub note_name: NoteName,
    pub accidental: Accidental,
}

/// The tone spelled with `name` and `accidental`.
pub open spec fn spec_tone(name: NoteName, accidental: Accidental) -> Tone {
    Tone { note_name: name, accidental: accidental }
}

/// The tone written in `s`: a note letter, optionally followed by `b`
/// for flat or `#` for sharp.
pub open spec fn spec_tone_of_string(s: Seq<char>) -> Option<Tone> {
    if s.len() == 1 {
        match spec_note_of_letter(s[0]) {
            Some(name) => Some(spec_tone(name, Accidental::Natural)),
            None => None,
        }
    } else if s.len() == 2 {
        match spec_note_of_letter(s[0]) {
            Some(name) => {
                if s[1] == 'b' {
                    Some(spec_tone(name, Accidental::Flat))
                } else if s[1] == '#' {
                    Some(spec_tone(name, Accidental::Sharp))
                } else {
                    None
                }
            },
            None => None,
        }
    } else {
        None
    }
}

impl Tone {
    pub fn new(note_name: NoteName, accidental: Accidental) -> (t: Tone)
        ensures
            t == spec_tone(note_name, accidental),
    {
        Tone { note_name, accidental }
    }

    /// Parses a tone such as `C`, `F#` or `Gb`.
    pub fn from(string: &str) -> (r: Result<Tone, String>)
        ensures
            match r {
                Ok(t) => spec_tone_of_string(string@) == Some(t),
                Err(msg) => spec_tone_of_string(string@) is None && msg@
                    == "Please provide a valid tonic. Examples of correct values are 'C', 'F#', 'Gb'."@,
            },
    {
        let n = string.unicode_len();
        if n == 1 || n == 2 {
            let name = match string.get_char(0) {
                'A' => Some(NoteName::A),
                'B' => Some(NoteName::B),
                'C' => Some(NoteName::C),
                'D' => Some(NoteName::D),
                'E' => Some(NoteName::E),
                'F' => Some(NoteName::F),
                'G' => Some(NoteName::G),
                _ => None,
            };
            match name {
                Some(name) => {
                    if n == 1 {
                        return Ok(Tone::new(name, Accidental::Natural));
                    }
                    match string.get_char(1) {
                        'b' => {
                            return Ok(Tone::new(name, Accidental::Flat));
                        },
                        '#' => {
                            return Ok(Tone::new(name, Accidental::Sharp));
                        },
                        _ => {},
                    }
                },
                None => {},
            }
        }
        Err(
            String::from_str(
                "Please provide a valid tonic. Examples of correct values are 'C', 'F#', 'Gb'.",
            ),
        )
    }

    pub fn get_note_name(&self) -> (r: &NoteName)
        ensures
            *r == self.note_name,
    {
        &self.note_name
    }

    pub fn get_accidental(&self) -> (r: &Accidental)
        ensures
            *r == self.accidental,
    {
        &self.accidental
    }

    /// The tone's note name, as the spec sees it.
    pub open spec fn name(&self) -> NoteName {
        self.note_name
    }

    /// The tone's accidental, as the spec sees it.
    pub open spec fn acc(&self) -> Accidental {
        self.accidental
    }
}

/// The kind of a diatonic scale.
#[derive(Copy, Clone, Debug, PartialEq, Eq, Structural)]
pub enum ScaleKind {
    Major,
    Minor,
}

/// An exact pitch, relative to the reference frequency chosen for A
/// above middle C (the pitch standard): the frequency is
/// `standard * 2^(semitone_offset / 12) * ratio_numer / ratio_denom`
/// Hertz.  Keeping the ratio as whole numbers and the equal-tempered
/// part as a semitone count avoids floating-point drift; turning a
/// pitch into Hertz is the caller's business.
#[derive(Copy, Clone, Debug, PartialEq, Eq, Structural)]
pub struct Pitch {
    pub ratio_numer: u64,
    pub ratio_denom: u64,
    pub semitone_offset: i32,
}

/// The duration of a musical element, in whole time units (the
/// time-unit-box system): the number of boxes of a fixed unit of time
/// that the element is played for.
#[derive(Copy, Clone, Debug, PartialEq, Eq, Structural)]
pub struct Duration(pub u16);

impl Duration {
    pub fn get_time_units(&self) -> (r: u16)
        ensures
            r == self.0,
    {
        self.0
    }
}

/// A loudness level: 0 is silence, and each dynamic step adds 28 up to
/// the loudest at 252.
#[derive(Copy, Clone, Debug, PartialEq, Eq, Structural)]
pub struct Volume(pub u8);

impl Volume {
    pub fn get(&self) -> (r: u8)
        ensures
            r == self.0,
    {
        self.0
    }
}

impl Volume {
    /// Silence.
    pub fn silent() -> (v: Volume)
        ensures
            v.0 == 0,
    {
        Volume(0)
    }

    /// Pianississimo.
    pub fn ppp() -> (v: Volume)
        ensures
            v.0 == 28,
    {
        Volume(28)
    }

    /// Pianissimo.
    pub fn pp() -> (v: Volume)
        ensures
            v.0 == 56,
    {
        Volume(56)
    }

    /// Piano.
    pub fn p() -> (v: Volume)
        ensures
            v.0 == 84,
    {
        Volume(84)
    }

    /// Mezzo-piano.
    pub fn mp() -> (v: Volume)
        ensures
            v.0 == 112,
    {
        Volume(112)
    }

    /// Medium loudness.
    pub fn m() -> (v: Volume)
        ensures
            v.0 == 140,
    {
        Volume(140)
    }

    /// Mezzo-forte.
    pub fn mf() -> (v: Volume)
        ensures
            v.0 == 168,
    {
        Volume(168)
    }

    /// Forte.
    pub fn f() -> (v: Volume)
        ensures
            v.0 == 196,
    {
        Volume(196)
    }

    /// Fortissimo.
    pub fn ff() -> (v: Volume)
        ensures
            v.0 == 224,
    {
        Volume(224)
    }

    /// Fortississimo.
    pub fn fff() -> (v: Volume)
        ensures
            v.0 == 252,
    {
        Volume(252)
    }
}

/// One element of a voice: a rest, or a note with its pitch, duration
/// and volume.
#[derive(Copy, Clone, Debug, PartialEq, Eq, Structural)]
pub enum MusicalElement {
    Rest { duration: Duration },
    Note { pitch: Pitch, duration: Duration, volume: Volume },
}

impl MusicalElement {
    /// How long the element lasts, in time units.
    pub open spec fn spec_duration(&self) -> Duration {
        match self {
            MusicalElement::Rest { duration } => *duration,
            MusicalElement::Note { duration, .. } => *duration,
        }
    }

    pub fn get_duration(&self) -> (r: Duration)
        ensures
            r == self.spec_duration(),
    {
        match self {
            MusicalElement::Rest { duration } => *duration,
            MusicalElement::Note { duration, .. } => *duration,
        }
    }
}

} // verus!
