use shaffuru::rng::SeededRng;
use shaffuru::rotation::{sample_modifier, sample_move, Face, Modifier, Rotation};

#[test]
fn opposite_faces() {
    let face = Face::Up;
    assert_eq!(face.opposite(), Face::Down);

    let face = Face::Down;
    assert_eq!(face.opposite(), Face::Up);

    let face = Face::Right;
    assert_eq!(face.opposite(), Face::Left);

    let face = Face::Left;
    assert_eq!(face.opposite(), Face::Right);

    let face = Face::Front;
    assert_eq!(face.opposite(), Face::Back);

    let face = Face::Back;
    assert_eq!(face.opposite(), Face::Front);
}

#[test]
fn every_rotation_is_valid_if_empty() {
    let mut rng = SeededRng::new(rand::random());
    for _ in 0..100 {
        let r: Rotation = sample_move(&mut rng);
        assert!(r.is_valid(None, None));
    }
}

#[test]
fn valid_rotations_different_faces() {
    let mut rng = SeededRng::new(rand::random());

    let r1 = Rotation { face: Face::Up, modifier: sample_modifier(&mut rng) };
    let r2 = Rotation { face: Face::Left, modifier: sample_modifier(&mut rng) };
    assert!(r1.is_valid(Some(&r2), None));

    let r1 = Rotation { face: Face::Down, modifier: sample_modifier(&mut rng) };
    let r2 = Rotation { face: Face::Left, modifier: sample_modifier(&mut rng) };
    assert!(r1.is_valid(Some(&r2), None));

    let r1 = Rotation { face: Face::Right, modifier: sample_modifier(&mut rng) };
    let r2 = Rotation { face: Face::Left, modifier: sample_modifier(&mut rng) };
    assert!(r1.is_valid(Some(&r2), None));

    let r1 = Rotation { face: Face::Back, modifier: sample_modifier(&mut rng) };
    let r2 = Rotation { face: Face::Left, modifier: sample_modifier(&mut rng) };
    assert!(r1.is_valid(Some(&r2), None));

    let r1 = Rotation { face: Face::Front, modifier: sample_modifier(&mut rng) };
    let r2 = Rotation { face: Face::Left, modifier: sample_modifier(&mut rng) };
    assert!(r1.is_valid(Some(&r2), None));
}

#[test]
fn invalid_self_solving_rotations() {
    let r1 = Rotation { face: Face::Up, modifier: Modifier::Empty };
    let r2 = Rotation { face: Face::Up, modifier: Modifier::Prime };
    assert!(!r1.is_valid(Some(&r2), None));

    let r1 = Rotation { face: Face::Right, modifier: Modifier::Prime };
    let r2 = Rotation { face: Face::Right, modifier: Modifier::Empty };
    assert!(!r1.is_valid(Some(&r2), None));

    let r1 = Rotation { face: Face::Back, modifier: Modifier::Two };
    let r2 = Rotation { face: Face::Back, modifier: Modifier::Two };
    assert!(!r1.is_valid(Some(&r2), None));
}

#[test]
fn invalid_same_plane_rotation() {
    let r1 = Rotation { face: Face::Up, modifier: Modifier::Empty };
    let r2 = Rotation { face: Face::Right, modifier: Modifier::Empty };
    let r3 = Rotation { face: Face::Up, modifier: Modifier::Prime };
    assert!(!r1.is_valid(Some(&r2), Some(&r3)));

    let r1 = Rotation { face: Face::Up, modifier: Modifier::Empty };
    let r2 = Rotation { face: Face::Right, modifier: Modifier::Empty };
    let r3 = Rotation { face: Face::Down, modifier: Modifier::Empty };
    assert!(!r1.is_valid(Some(&r2), Some(&r3)));
}

#[test]
fn validity_rule_unit_cases() {
    let up = Rotation { face: Face::Up, modifier: Modifier::Empty };
    assert!(up.is_valid(None, None));

    for modifier in [Modifier::Empty, Modifier::Prime, Modifier::Two] {
        let last = Rotation { face: Face::Up, modifier };
        assert!(!up.is_valid(Some(&last), None));
    }

    let left = Rotation { face: Face::Left, modifier: Modifier::Empty };
    let up_last = Rotation { face: Face::Up, modifier: Modifier::Empty };
    assert!(left.is_valid(Some(&up_last), None));

    let last = Rotation { face: Face::Right, modifier: Modifier::Empty };
    let second = Rotation { face: Face::Up, modifier: Modifier::Empty };
    let down = Rotation { face: Face::Down, modifier: Modifier::Empty };
    assert!(!down.is_valid(Some(&last), Some(&second)));
    let front = Rotation { face: Face::Front, modifier: Modifier::Empty };
    assert!(front.is_valid(Some(&last), Some(&second)));
}

#[test]
fn render_face_modifier_cases() {
    let r = Rotation { face: Face::Up, modifier: Modifier::Prime };
    assert_eq!(r.render(), "U'");

    let r = Rotation { face: Face::Back, modifier: Modifier::Two };
    assert_eq!(r.render(), "B2");

    let r = Rotation { face: Face::Right, modifier: Modifier::Empty };
    assert_eq!(r.render(), "R");
}

#[test]
fn sampling_is_deterministic_per_seed() {
    let mut a = SeededRng::new(9);
    let mut b = SeededRng::new(9);
    for _ in 0..50 {
        assert_eq!(sample_move(&mut a), sample_move(&mut b));
    }
}
