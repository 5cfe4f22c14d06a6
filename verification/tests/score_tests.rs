use wavescore::instrument::Generator;
use wavescore::pitch::Pitch;
use wavescore::roll::Roll;

#[test]
fn test_roll_seconds_exact_fraction() {
    // One quarter-note beat at 84 beats per minute: 15/84 of a second.
    let s = Roll::new(1).seconds();
    assert_eq!(s.num, 15);
    assert_eq!(s.den, 84);
    // 28 beats last exactly 5 seconds: 420/84.
    let s = Roll::new(28).seconds();
    assert_eq!(s.num, 420);
    assert_eq!(s.num / s.den, 5);
    assert_eq!(s.num % s.den, 0);
}

#[test]
fn test_roll_addition_matches_seconds_addition() {
    let a = Roll::new(3);
    let b = Roll::new(5);
    let sum = a.plus(b);
    assert_eq!(sum.v, 8);
    let sa = a.seconds();
    let sb = b.seconds();
    let ss = sum.seconds();
    assert_eq!(sa.den, sb.den);
    assert_eq!(ss.den, sa.den);
    assert_eq!(ss.num, sa.num + sb.num);
}

#[test]
fn test_pitch_frequencies() {
    assert_eq!(Pitch::C4.frequency(), 60);
    assert_eq!(Pitch::E4.frequency(), 64);
    assert_eq!(Pitch::G4.frequency(), 67);
    assert_eq!(Pitch::B4.frequency(), 71);
    assert_eq!(Pitch::C5.frequency(), 72);
    assert_eq!(Pitch::C1.frequency(), 24);
    assert_eq!(Pitch::E1.frequency(), 28);
    assert_eq!(Pitch::C2.frequency(), 36);
    assert_eq!(Pitch::D2.frequency(), 38);
    assert_eq!(Pitch::E2.frequency(), 40);
}

#[test]
fn test_generator_kinds_distinct() {
    assert_ne!(Generator::Sine, Generator::Square);
    assert_ne!(Generator::Triangle, Generator::Sawtooth);
    assert_eq!(Generator::DC, Generator::DC);
}
