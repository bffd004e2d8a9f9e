use music_generator::proportion::Proportion;

fn display(p: &Proportion) -> String {
    p.as_string()
}

/// Scaling a number by a proportion, as just intonation turns an exact
/// pitch into Hertz.
fn scale(p: &Proportion, number: f64) -> f64 {
    (number * p.magnitude_b as f64) / p.magnitude_a as f64
}

#[test]
fn display_test() {
    assert_eq!(display(&Proportion::new(1, 2)), "1:2");
    assert_eq!(display(&Proportion::new(2, 1)), "2:1");
}

#[test]
fn fusion_test() {
    let a = Proportion::new(2, 3);
    let b = Proportion::new(3, 4);
    let c = a.fusion(&b);
    assert_eq!(display(&c), "6:12");
}

#[test]
fn equivalence_test() {
    let a = Proportion::new(1, 2);
    let b = Proportion::new(2, 4);
    assert_eq!(a, a, "a = {}", display(&a));
    assert_eq!(a, b, "a = {}, b = {}", display(&a), display(&b));

    let b = Proportion::new(4, 2);
    assert_ne!(a, b, "a = {}, b = {}", display(&a), display(&b));

    let a = Proportion::new(5, 3);
    let b = Proportion::new(15, 9);
    assert_eq!(a, a, "a = {}", display(&a));
    assert_eq!(a, b, "a = {}, b = {}", display(&a), display(&b));

    let b = Proportion::new(14, 9);
    assert_ne!(a, b, "a = {}, b = {}", display(&a), display(&b));
}

#[test]
fn invert_test() {
    let a = Proportion::new(2, 3);
    let b = Proportion::new(3, 4);
    assert_eq!(display(&a.invert()), "3:2");
    assert_eq!(display(&b.invert()), "4:3");
}

#[test]
fn pow_test() {
    let a = Proportion::new(2, 3);
    assert_eq!(display(&a.pow(0)), "1:1");
    assert_eq!(display(&a.pow(-1)), "3:2");
    assert_eq!(display(&a.pow(-3)), "27:8");
    assert_eq!(display(&a.pow(1)), "2:3");
    assert_eq!(display(&a.pow(3)), "8:27");
}

#[test]
fn scale_up_test() {
    let a = Proportion::new(2, 3);
    let b = Proportion::new(4, 6);
    assert_eq!(format!("{:.3?}", scale(&a, 6.000)), "9.000");
    assert_eq!(format!("{:.3?}", scale(&b, 6.000)), "9.000");
    assert_eq!(format!("{:.3?}", scale(&a, 3.000)), "4.500");
    assert_eq!(format!("{:.3?}", scale(&b, 3.000)), "4.500");
    assert_eq!(format!("{:.3?}", scale(&a, 3.333)), "5.000");
    assert_eq!(format!("{:.3?}", scale(&b, 3.333)), "5.000");
    assert_eq!(format!("{:.3?}", scale(&a, 3.251)), "4.877");
    assert_eq!(format!("{:.3?}", scale(&b, 3.251)), "4.877");
}

#[test]
fn scale_down_test() {
    let a = Proportion::new(3, 2);
    let b = Proportion::new(6, 4);
    assert_eq!(format!("{:.3?}", scale(&a, 6.000)), "4.000");
    assert_eq!(format!("{:.3?}", scale(&b, 6.000)), "4.000");
    assert_eq!(format!("{:.3?}", scale(&a, 2.000)), "1.333");
    assert_eq!(format!("{:.3?}", scale(&b, 2.000)), "1.333");
    assert_eq!(format!("{:.3?}", scale(&a, 3.333)), "2.222");
    assert_eq!(format!("{:.3?}", scale(&b, 3.333)), "2.222");
}

#[test]
fn invert_twice_gives_back_the_proportion() {
    let a = Proportion::new(12, 30);
    let round_trip = a.invert().invert();
    assert_eq!(round_trip.magnitude_a, 12);
    assert_eq!(round_trip.magnitude_b, 30);
    assert_eq!(round_trip.magnitude_a_norm, 2);
    assert_eq!(round_trip.magnitude_b_norm, 5);
    assert_eq!(a, round_trip);
}

#[test]
fn fusion_is_commutative_and_associative() {
    let a = Proportion::new(2, 3);
    let b = Proportion::new(5, 7);
    let c = Proportion::new(4, 9);
    assert_eq!(a.fusion(&b), b.fusion(&a));
    assert_eq!(a.fusion(&b).fusion(&c), a.fusion(&b.fusion(&c)));
}

#[test]
fn unit_ratio_is_reduced() {
    let u = Proportion::unit();
    assert_eq!(display(&u), "1:1");
    assert_eq!(display(&Proportion::octave_up()), "1:2");
    assert_eq!(display(&Proportion::octave_down()), "2:1");
}
