use music_generator::key::Key;
use music_generator::key::KeyCreationError;
use music_generator::musical_notation::Accidental;
use music_generator::musical_notation::NoteName;
use music_generator::musical_notation::Pitch;
use music_generator::musical_notation::ScaleKind;
use music_generator::musical_notation::Tone;
use music_generator::proportion::Proportion;
use music_generator::temperament::EqualTemperament;
use music_generator::temperament::JustIntonation;
use music_generator::temperament::Temperament;

const STUTTGART_PITCH: f64 = 440.0;

/// Turns an exact pitch into Hertz for the given pitch standard (the
/// frequency of A in octave 4).
fn hz(p: &Pitch, standard: f64) -> f64 {
    standard
        * 2f64.powf(p.semitone_offset as f64 / 12.0)
        * (p.ratio_numer as f64 / p.ratio_denom as f64)
}

fn fmt_pitch(p: &Pitch) -> String {
    format!("{:.3}", hz(p, STUTTGART_PITCH))
}

fn new_key<T: Temperament>(
    name: NoteName,
    accidental: Accidental,
    kind: ScaleKind,
) -> Result<Key<T>, KeyCreationError> {
    Key::new(Tone::new(name, accidental), kind)
}

#[test]
fn test_key_c_natural_major() -> Result<(), String> {
    let c_natural_major: Key<EqualTemperament> =
        new_key(NoteName::C, Accidental::Natural, ScaleKind::Major).map_err(|e| e.message())?;
    match c_natural_major.get_scale_pitches(4, 1, 8) {
        Some(pitches) => {
            assert_eq!(pitches.len(), 8);
            assert_eq!(fmt_pitch(&pitches[0]), "261.626" /*C_4*/);
            assert_eq!(fmt_pitch(&pitches[1]), "293.665" /*D_4*/);
            assert_eq!(fmt_pitch(&pitches[2]), "329.628" /*E_4*/);
            assert_eq!(fmt_pitch(&pitches[3]), "349.228" /*F_4*/);
            assert_eq!(fmt_pitch(&pitches[4]), "391.995" /*G_4*/);
            assert_eq!(fmt_pitch(&pitches[5]), "440.000" /*A_4*/);
            assert_eq!(fmt_pitch(&pitches[6]), "493.883" /*B_4*/);
            assert_eq!(fmt_pitch(&pitches[7]), "523.251" /*C_5*/);
            Ok(())
        }
        None => Err(String::from("expected some pitches")),
    }
}

#[test]
fn test_key_g_natural_major() -> Result<(), String> {
    let g_natural_major: Key<EqualTemperament> =
        new_key(NoteName::G, Accidental::Natural, ScaleKind::Major).map_err(|e| e.message())?;
    match g_natural_major.get_scale_pitches(4, 1, 8) {
        Some(pitches) => {
            assert_eq!(pitches.len(), 8);
            assert_eq!(fmt_pitch(&pitches[0]), "391.995" /*G_4*/);
            assert_eq!(fmt_pitch(&pitches[1]), "440.000" /*A_4*/);
            assert_eq!(fmt_pitch(&pitches[2]), "493.883" /*B_4*/);
            assert_eq!(fmt_pitch(&pitches[3]), "523.251" /*C_5*/);
            assert_eq!(fmt_pitch(&pitches[4]), "587.330" /*D_5*/);
            assert_eq!(fmt_pitch(&pitches[5]), "659.255" /*E_5*/);
            assert_eq!(fmt_pitch(&pitches[6]), "739.989" /*F#_5*/);
            assert_eq!(fmt_pitch(&pitches[7]), "783.991" /*G_5*/);
            Ok(())
        }
        None => Err(String::from("expected some pitches")),
    }
}

#[test]
fn test_key_d_flat_major() -> Result<(), String> {
    let expected = [
        "277.183",  /*(+0=-8) Db_4*/
        "311.127",  /*(+2=-6) Eb_4*/
        "349.228",  /*(+2=-4) F_4*/
        "369.994",  /*(+1=-3) Gb_4*/
        "415.305",  /*(+2=-1) Ab_4*/
        "466.164",  /*(+2=1) Bb_4*/
        "523.251",  /*(+2=3) C_5*/
        "554.365",  /*(+1=4) Db_5*/
        "622.254",  /*(+2=6) Eb_5*/
        "698.456",  /*(+2=8) F_5*/
        "739.989",  /*(+1=9) Gb_5*/
        "830.609",  /*(+2=11) Ab_5*/
        "932.328",  /*(+2=13) Bb_5*/
        "1046.502", /*(+2=15) C_6*/
        "1108.731", /*(+1=16) Db_6*/
    ];

    let d_flat_major: Key<EqualTemperament> =
        new_key(NoteName::D, Accidental::Flat, ScaleKind::Major).map_err(|e| e.message())?;
    let d_flat_pitches = match d_flat_major.get_scale_pitches(4, 1, 15) {
        Some(pitches) => pitches,
        None => return Err(String::from("expected some pitches")),
    };
    assert_eq!(d_flat_pitches.len(), 15);
    for i in 0..15 {
        assert_eq!(fmt_pitch(&d_flat_pitches[i]), expected[i]);
    }

    let c_sharp_major: Key<EqualTemperament> =
        new_key(NoteName::C, Accidental::Sharp, ScaleKind::Major).map_err(|e| e.message())?;
    let c_sharp_pitches = match c_sharp_major.get_scale_pitches(4, 1, 15) {
        Some(pitches) => pitches,
        None => return Err(String::from("expected some pitches")),
    };
    assert_eq!(c_sharp_pitches.len(), 15);
    for i in 0..15 {
        assert_eq!(fmt_pitch(&c_sharp_pitches[i]), expected[i]);
    }

    // The two enharmonic spellings agree bit for bit.
    assert_eq!(d_flat_pitches, c_sharp_pitches);

    Ok(())
}

#[test]
fn test_key_g_flat_minor() -> Result<(), String> {
    let g_flat_minor: Key<EqualTemperament> =
        new_key(NoteName::G, Accidental::Flat, ScaleKind::Minor).map_err(|e| e.message())?;
    match g_flat_minor.get_scale_pitches(4, 1, 8) {
        Some(pitches) => {
            assert_eq!(pitches.len(), 8);
            assert_eq!(fmt_pitch(&pitches[0]), "369.994" /*Gb_4*/);
            assert_eq!(fmt_pitch(&pitches[1]), "415.305" /*Ab_4*/);
            assert_eq!(fmt_pitch(&pitches[2]), "440.000" /*A_4*/);
            assert_eq!(fmt_pitch(&pitches[3]), "493.883" /*B_4*/);
            assert_eq!(fmt_pitch(&pitches[4]), "554.365" /*Db_5*/);
            assert_eq!(fmt_pitch(&pitches[5]), "587.330" /*D_5*/);
            assert_eq!(fmt_pitch(&pitches[6]), "659.255" /*E_5*/);
            assert_eq!(fmt_pitch(&pitches[7]), "739.989" /*Gb_5*/);
            Ok(())
        }
        None => Err(String::from("expected some pitches")),
    }
}

#[test]
fn test_key_f_sharp_minor() -> Result<(), String> {
    let f_sharp_minor: Key<EqualTemperament> =
        new_key(NoteName::F, Accidental::Sharp, ScaleKind::Minor).map_err(|e| e.message())?;
    match f_sharp_minor.get_scale_pitches(4, 1, 8) {
        Some(pitches) => {
            assert_eq!(pitches.len(), 8);
            assert_eq!(fmt_pitch(&pitches[0]), "369.994" /*F#_4*/);
            assert_eq!(fmt_pitch(&pitches[1]), "415.305" /*G#_4*/);
            assert_eq!(fmt_pitch(&pitches[2]), "440.000" /*A_4*/);
            assert_eq!(fmt_pitch(&pitches[3]), "493.883" /*B_4*/);
            assert_eq!(fmt_pitch(&pitches[4]), "554.365" /*C#_5*/);
            assert_eq!(fmt_pitch(&pitches[5]), "587.330" /*D_5*/);
            assert_eq!(fmt_pitch(&pitches[6]), "659.255" /*E_5*/);
            assert_eq!(fmt_pitch(&pitches[7]), "739.989" /*F#_5*/);
            Ok(())
        }
        None => Err(String::from("expected some pitches")),
    }
}

#[test]
fn enharmonic_minor_scales_match_bit_for_bit() -> Result<(), String> {
    let g_flat_minor: Key<EqualTemperament> =
        new_key(NoteName::G, Accidental::Flat, ScaleKind::Minor).map_err(|e| e.message())?;
    let f_sharp_minor: Key<EqualTemperament> =
        new_key(NoteName::F, Accidental::Sharp, ScaleKind::Minor).map_err(|e| e.message())?;
    let a = g_flat_minor
        .get_scale_pitches(4, 1, 8)
        .ok_or(String::from("expected some pitches"))?;
    let b = f_sharp_minor
        .get_scale_pitches(4, 1, 8)
        .ok_or(String::from("expected some pitches"))?;
    assert_eq!(a, b);
    Ok(())
}

#[test]
fn equal_temperament_test() -> Result<(), String> {
    let scale = Key::<EqualTemperament>::get_scale(
        Tone::new(NoteName::C, Accidental::Natural),
        ScaleKind::Major,
    );
    let temp = EqualTemperament::new(&scale).map_err(|e| e.message())?;

    let a = temp.get_pitch(4, Tone::from("A")?).unwrap();
    assert_eq!(fmt_pitch(&a), "440.000");
    let c = temp.get_pitch(4, Tone::from("C")?).unwrap();
    assert_eq!(fmt_pitch(&c), "261.626");
    let b_sharp = temp.get_pitch(4, Tone::from("B#")?).unwrap();
    assert_eq!(fmt_pitch(&b_sharp), "261.626");
    let b = temp.get_pitch(4, Tone::from("B")?).unwrap();
    assert_eq!(fmt_pitch(&b), "493.883");
    let c5 = temp.get_pitch(5, Tone::from("C")?).unwrap();
    assert_eq!(fmt_pitch(&c5), "523.251");

    Ok(())
}

#[test]
fn just_intonation_test() -> Result<(), String> {
    let expected_proportionen: [Proportion; 7] = [
        Proportion::new(8, 9),   // D
        Proportion::new(9, 10),  // E
        Proportion::new(15, 16), // F
        Proportion::new(8, 9),   // G
        Proportion::new(8, 9),   // A
        Proportion::new(9, 10),  // B
        Proportion::new(15, 16), // C
    ];

    let c_natural_major: Key<JustIntonation> =
        new_key(NoteName::C, Accidental::Natural, ScaleKind::Major).map_err(|e| e.message())?;

    assert_eq!(c_natural_major.temperament.proportionen, expected_proportionen);

    let cases = [
        ("C", 4, "260.741"),
        ("D", 4, "293.333"),
        ("E", 4, "325.926"),
        ("F", 4, "347.654"),
        ("G", 4, "391.111"),
        ("A", 4, "440.000"),
        ("B", 4, "488.889"),
        ("C", 5, "521.481"),
    ];
    for (name, octave, expected) in cases {
        let pitch = c_natural_major
            .temperament
            .get_pitch(octave, Tone::from(name)?)
            .ok_or(String::from("expected a pitch"))?;
        assert_eq!(fmt_pitch(&pitch), expected);
    }
    Ok(())
}

#[test]
fn just_intonation_needs_an_a() {
    let c = Tone::new(NoteName::C, Accidental::Natural);
    let scale = [c, c, c, c, c, c, c];
    match JustIntonation::new(&scale) {
        Err(e) => assert_eq!(
            e.message(),
            "There was a problem creating the temperament. Couldn't find NoteName A in given scale."
        ),
        Ok(_) => panic!("Built a just intonation without a reference A."),
    }
}

#[test]
fn just_intonation_needs_step_sized_intervals() {
    let a = Tone::new(NoteName::A, Accidental::Natural);
    let scale = [a, a, a, a, a, a, a];
    match JustIntonation::new(&scale) {
        Err(e) => assert_eq!(
            e.message(),
            "There was a problem creating the temperament. Scale degrees must step by whole or half tones."
        ),
        Ok(_) => panic!("Built a just intonation from a degenerate scale."),
    }
}

#[test]
fn tone_parsing_rejects_unknown_spellings() {
    match Tone::from("H") {
        Err(msg) => assert_eq!(
            msg,
            "Please provide a valid tonic. Examples of correct values are 'C', 'F#', 'Gb'."
        ),
        Ok(_) => panic!("Parsed an unknown tone."),
    }
    assert!(Tone::from("").is_err());
    assert!(Tone::from("Cbb").is_err());
    assert_eq!(
        Tone::from("Gb").unwrap(),
        Tone::new(NoteName::G, Accidental::Flat)
    );
}

#[test]
fn scale_pitches_reject_degrees_outside_the_scale() -> Result<(), String> {
    let key: Key<EqualTemperament> =
        new_key(NoteName::C, Accidental::Natural, ScaleKind::Major).map_err(|e| e.message())?;
    assert!(key.get_scale_pitches(4, 0, 3).is_none());
    assert!(key.get_scale_pitches(4, 8, 3).is_none());
    assert!(key.get_scale_pitches(4, 7, 3).is_some());
    Ok(())
}
