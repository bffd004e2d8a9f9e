use music_generator::action::Action;
use music_generator::action::AtomType;
use music_generator::action::AtomTypeMap;
use music_generator::action::ErrorKind;
use music_generator::action::NeutralActionState;
use music_generator::action::SimpleAction;
use music_generator::key::Key;
use music_generator::l_system::Axiom;
use music_generator::musical_notation::Accidental;
use music_generator::musical_notation::Duration;
use music_generator::musical_notation::MusicalElement;
use music_generator::musical_notation::NoteName;
use music_generator::musical_notation::Pitch;
use music_generator::musical_notation::ScaleKind;
use music_generator::musical_notation::Tone;
use music_generator::musical_notation::Volume;
use music_generator::temperament::EqualTemperament;
use music_generator::voice::Voice;

const STUTTGART_PITCH: f64 = 440.0;

fn hz(p: &Pitch, standard: f64) -> f64 {
    standard
        * 2f64.powf(p.semitone_offset as f64 / 12.0)
        * (p.ratio_numer as f64 / p.ratio_denom as f64)
}

fn c_major_action() -> SimpleAction<EqualTemperament> {
    let key: Key<EqualTemperament> =
        Key::new(Tone::new(NoteName::C, Accidental::Natural), ScaleKind::Major).unwrap();
    SimpleAction::new(key)
}

fn table_for(
    ax: &Axiom,
    action: SimpleAction<EqualTemperament>,
) -> AtomTypeMap<SimpleAction<EqualTemperament>> {
    let mut atom_types: AtomTypeMap<SimpleAction<EqualTemperament>> = AtomTypeMap::new();
    for atom in ax.atoms() {
        atom_types.insert(*atom, AtomType::HasAction { action });
    }
    atom_types
}

#[test]
fn simple_action_maps_x_to_a_rest() {
    let action = c_major_action();
    let mut state = NeutralActionState {};
    match action.gen_next_musical_element('x', &mut state) {
        Ok(MusicalElement::Rest { duration }) => assert_eq!(duration, Duration(1)),
        _ => panic!("expected a rest for 'x'"),
    }
}

#[test]
fn simple_action_maps_a_to_the_first_degree() {
    let action = c_major_action();
    let mut state = NeutralActionState {};
    match action.gen_next_musical_element('A', &mut state) {
        Ok(MusicalElement::Note { pitch, duration, volume }) => {
            // Scale degree 1 of C major in octave 4: middle C.
            assert_eq!(format!("{:.3}", hz(&pitch, STUTTGART_PITCH)), "261.626");
            assert_eq!(duration, Duration(1));
            assert_eq!(volume, Volume(140));
        }
        _ => panic!("expected a note for 'A'"),
    }
}

#[test]
fn simple_action_spans_seven_octaves() {
    let action = c_major_action();
    let mut state = NeutralActionState {};
    // 'H' is the eighth symbol: degree 1 of the second octave.
    match action.gen_next_musical_element('H', &mut state) {
        Ok(MusicalElement::Note { pitch, .. }) => {
            assert_eq!(format!("{:.3}", hz(&pitch, STUTTGART_PITCH)), "523.251");
        }
        _ => panic!("expected a note for 'H'"),
    }
    // 'w' is the last mapped symbol: degree 7 of the seventh octave.
    match action.gen_next_musical_element('w', &mut state) {
        Ok(MusicalElement::Note { pitch, .. }) => {
            assert_eq!(format!("{:.3}", hz(&pitch, STUTTGART_PITCH)), "31608.531");
        }
        _ => panic!("expected a note for 'w'"),
    }
}

#[test]
fn simple_action_rejects_unmapped_symbols() {
    let action = c_major_action();
    let mut state = NeutralActionState {};
    match action.gen_next_musical_element('y', &mut state) {
        Err(e) => {
            assert_eq!(e.kind(), ErrorKind::GenerationError);
            assert_eq!(
                e.message(),
                "There was an Error while interpreting the Axiom: Unexpected symbol: 'y'.."
            );
        }
        Ok(_) => panic!("mapped a symbol outside A-Z, a-w and x"),
    }
}

#[test]
fn voice_from_collects_the_elements_in_order() {
    let ax = Axiom::from("AxB").unwrap();
    let action = c_major_action();
    let atom_types = table_for(&ax, action);
    let voice = Voice::from::<NeutralActionState, SimpleAction<EqualTemperament>>(
        &ax,
        &atom_types,
    )
    .unwrap();
    let elements = voice.elements();
    assert_eq!(elements.len(), 3);
    match &elements[0] {
        MusicalElement::Note { pitch, .. } => {
            assert_eq!(format!("{:.3}", hz(pitch, STUTTGART_PITCH)), "261.626");
        }
        _ => panic!("expected a note first"),
    }
    assert_eq!(elements[1], MusicalElement::Rest { duration: Duration(1) });
    match &elements[2] {
        MusicalElement::Note { pitch, .. } => {
            assert_eq!(format!("{:.3}", hz(pitch, STUTTGART_PITCH)), "293.665");
        }
        _ => panic!("expected a note last"),
    }
}

#[test]
fn voice_from_fails_on_an_unmapped_atom() {
    let ax = Axiom::from("AB").unwrap();
    let action = c_major_action();
    // Only 'A' gets an entry: 'B' is left undefined.
    let mut atom_types: AtomTypeMap<SimpleAction<EqualTemperament>> = AtomTypeMap::new();
    atom_types.insert(
        *ax.atoms().first().unwrap(),
        AtomType::HasAction { action },
    );
    match Voice::from::<NeutralActionState, SimpleAction<EqualTemperament>>(&ax, &atom_types) {
        Err(e) => {
            assert_eq!(e.kind(), ErrorKind::UndefinedAtomType);
            assert_eq!(
                e.message(),
                "There was an Error while interpreting the Axiom: The type of an atom is left undefined."
            );
        }
        Ok(_) => panic!("built a voice from an atom without a type"),
    }
}

#[test]
fn push_pop_and_no_action_atoms_leave_no_elements() {
    let ax = Axiom::from("+-A").unwrap();
    let action = c_major_action();
    let mut atom_types: AtomTypeMap<SimpleAction<EqualTemperament>> = AtomTypeMap::new();
    let atoms = ax.atoms();
    atom_types.insert(atoms[0], AtomType::PushStack);
    atom_types.insert(atoms[1], AtomType::PopStack);
    atom_types.insert(atoms[2], AtomType::NoAction);
    let voice =
        Voice::from::<NeutralActionState, SimpleAction<EqualTemperament>>(&ax, &atom_types)
            .unwrap();
    assert_eq!(voice.elements().len(), 0);
}

#[test]
fn voice_length_sums_the_durations() {
    let ax = Axiom::from("AxBx").unwrap();
    let action = c_major_action();
    let atom_types = table_for(&ax, action);
    let voice = Voice::from::<NeutralActionState, SimpleAction<EqualTemperament>>(
        &ax,
        &atom_types,
    )
    .unwrap();
    assert_eq!(voice.get_len(), 4);
}

#[test]
fn voice_schedule_skips_rests_and_advances_time() {
    let ax = Axiom::from("AxB").unwrap();
    let action = c_major_action();
    let atom_types = table_for(&ax, action);
    let voice = Voice::from::<NeutralActionState, SimpleAction<EqualTemperament>>(
        &ax,
        &atom_types,
    )
    .unwrap();
    let events = voice.schedule();
    assert_eq!(events.len(), 2);
    assert_eq!(events[0].start, 0);
    assert_eq!(events[0].stop, 1);
    // The rest occupies the second time unit without an event.
    assert_eq!(events[1].start, 2);
    assert_eq!(events[1].stop, 3);
    assert_eq!(format!("{:.3}", hz(&events[1].pitch, STUTTGART_PITCH)), "293.665");
}
