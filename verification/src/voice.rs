//! A voice: the ordered, timed sequence of musical elements that one
//! expanded grammar string produces, ready for an audio renderer.

use vstd::prelude::*;
use crate::musical_notation::MusicalElement;
use crate::musical_notation::Pitch;
use crate::musical_notation::Volume;

verus! {

/// An ordered sequence of musical elements.
pub struct Voice {
    pub musical_elements: Vec<MusicalElement>,
}

impl View for Voice {
    type V = Seq<MusicalElement>;

    /// The voice's elements, in playing order.
    open spec fn view(&self) -> Seq<MusicalElement> {
        self.musical_elements@
    }
}

/// The total duration of `elems`, in time units.
pub open spec fn spec_total_duration(elems: Seq<MusicalElement>) -> int
    decreases elems.len(),
{
    if elems.len() == 0 {
        0
    } else {
        spec_total_duration(elems.drop_last()) + elems.last().spec_duration().0
    }
}

/// A prefix never lasts longer than the whole.
proof fn lemma_total_duration_take_le(elems: Seq<MusicalElement>, i: int)
    requires
        0 <= i <= elems.len(),
    ensures
        0 <= spec_total_duration(elems.take(i)) <= spec_total_duration(elems),
    decreases elems.len() - i, elems.len(),
{
    if i == elems.len() {
        assert(elems.take(i) =~= elems);
        lemma_total_duration_nonneg(elems);
    } else {
        lemma_total_duration_take_le(elems, i + 1);
        assert(elems.take(i + 1).drop_last() =~= elems.take(i));
        assert(elems.take(i + 1).last() == elems[i]);
        lemma_total_duration_nonneg(elems.take(i));
    }
}

/// Durations never make a total negative.
proof fn lemma_total_duration_nonneg(elems: Seq<MusicalElement>)
    ensures
        spec_total_duration(elems) >= 0,
    decreases elems.len(),
{
    if elems.len() > 0 {
        lemma_total_duration_nonneg(elems.drop_last());
    }
}

/// One scheduled note: its pitch and volume, with the time units at
/// which it starts and stops.
#[derive(Copy, Clone, Debug, PartialEq, Eq, Structural)]
pub struct NoteEvent {
    pub pitch: Pitch,
    pub volume: Volume,
    pub start: u16,
    pub stop: u16,
}

/// The note at the head of a schedule starting at time `start`.
pub open spec fn spec_event(pitch: Pitch, volume: Volume, start: int, stop: int) -> NoteEvent {
    NoteEvent { pitch, volume, start: start as u16, stop: stop as u16 }
}

/// The schedule of `elems` played from time unit `start`: one event
/// per note, in order; rests only advance the clock.
pub open spec fn spec_schedule(elems: Seq<MusicalElement>, start: int) -> Seq<NoteEvent>
    decreases elems.len(),
{
    if elems.len() == 0 {
        Seq::empty()
    } else {
        match elems[0] {
            MusicalElement::Rest { duration } => spec_schedule(
                elems.drop_first(),
                start + duration.0,
            ),
            MusicalElement::Note { pitch, duration, volume } => seq![
                spec_event(pitch, volume, start, start + duration.0),
            ] + spec_schedule(elems.drop_first(), start + duration.0),
        }
    }
}

impl Voice {
    /// The voice's elements, in playing order.
    pub fn elements(&self) -> (r: &Vec<MusicalElement>)
        ensures
            r@ == self@,
    {
        &self.musical_elements
    }

    /// The total duration of the voice, in time units.
    pub fn get_len(&self) -> (r: u16)
        requires
            spec_total_duration(self@) <= u16::MAX,
        ensures
            r as int == spec_total_duration(self@),
    {
        let mut len: u16 = 0;
        let n = self.musical_elements.len();
        let mut i: usize = 0;
        proof {
            assert(self@.take(0) =~= Seq::<MusicalElement>::empty());
        }
        while i < n
            invariant
                n == self@.len(),
                i <= n,
                len as int == spec_total_duration(self@.take(i as int)),
                spec_total_duration(self@) <= u16::MAX,
            decreases n - i,
        {
            proof {
                lemma_total_duration_take_le(self@, i + 1);
                assert(self@.take(i + 1).drop_last() =~= self@.take(i as int));
                assert(self@.take(i + 1).last() == self@[i as int]);
            }
            len = len + self.musical_elements[i].get_duration().get_time_units();
            i = i + 1;
        }
        proof {
            assert(self@.take(n as int) =~= self@);
        }
        len
    }

    /// The start and stop time, pitch and volume of each note of the
    /// voice, in time units from its beginning: what an audio renderer
    /// consumes.
    pub fn schedule(&self) -> (r: Vec<NoteEvent>)
        requires
            spec_total_duration(self@) <= u16::MAX,
        ensures
            r@ == spec_schedule(self@, 0),
    {
        let mut events: Vec<NoteEvent> = Vec::new();
        let mut last_time_unit: u16 = 0;
        let n = self.musical_elements.len();
        let mut i: usize = 0;
        proof {
            assert(self@.skip(0) =~= self@);
            assert(self@.take(0) =~= Seq::<MusicalElement>::empty());
        }
        while i < n
            invariant
                n == self@.len(),
                i <= n,
                last_time_unit as int == spec_total_duration(self@.take(i as int)),
                spec_total_duration(self@) <= u16::MAX,
                spec_schedule(self@, 0) == events@ + spec_schedule(
                    self@.skip(i as int),
                    last_time_unit as int,
                ),
            decreases n - i,
        {
            proof {
                lemma_total_duration_take_le(self@, i + 1);
                assert(self@.take(i + 1).drop_last() =~= self@.take(i as int));
                assert(self@.take(i + 1).last() == self@[i as int]);
                assert(self@.skip(i as int)[0] == self@[i as int]);
                assert(self@.skip(i as int).drop_first() =~= self@.skip(i + 1));
            }
            let ghost old_events = events@;
            let ghost t0 = last_time_unit as int;
            match &self.musical_elements[i] {
                MusicalElement::Rest { duration } => {
                    last_time_unit = last_time_unit + duration.get_time_units();
                },
                MusicalElement::Note { pitch, duration, volume } => {
                    let time_note_starts = last_time_unit;
                    last_time_unit = last_time_unit + duration.get_time_units();
                    events.push(
                        NoteEvent {
                            pitch: *pitch,
                            volume: *volume,
                            start: time_note_starts,
                            stop: last_time_unit,
                        },
                    );
                    proof {
                        assert(events@ =~= old_events + seq![
                            spec_event(*pitch, *volume, t0, t0 + duration.0),
                        ]);
                        assert(old_events + (seq![spec_event(*pitch, *volume, t0, t0 + duration.0)]
                            + spec_schedule(self@.skip(i + 1), last_time_unit as int)) =~= events@
                            + spec_schedule(self@.skip(i + 1), last_time_unit as int));
                    }
                },
            }
            i = i + 1;
        }
        proof {
            assert(self@.skip(n as int) =~= Seq::<MusicalElement>::empty());
            assert(spec_schedule(self@, 0) =~= events@);
        }
        events
    }
}

} // verus!
