use shaffuru::{Cli, Permutation};

#[test]
fn generate_returns_requested_length() {
    for (seed, length) in [(42u64, 0u8), (1, 1), (7, 10), (123, 255), (u64::MAX, 100)] {
        let p = Permutation::generate(seed, length);
        assert_eq!(p.seed, seed);
        assert_eq!(p.length, length);
        assert_eq!(p.rotations.len(), length as usize);
    }
}

#[test]
fn generate_is_deterministic() {
    let a = Permutation::generate(42, 25);
    let b = Permutation::generate(42, 25);
    assert_eq!(a.rotations, b.rotations);
    assert_eq!(a.render(), b.render());
}

#[test]
fn different_seeds_give_different_sequences() {
    let a = Permutation::generate(42, 25);
    let b = Permutation::generate(43, 25);
    assert_ne!(a.rotations, b.rotations);
}

#[test]
fn adjacent_moves_differ_in_face() {
    let p = Permutation::generate(7, 200);
    for w in p.rotations.windows(2) {
        assert_ne!(w[0].face, w[1].face);
    }
}

#[test]
fn no_same_plane_within_three_moves() {
    let p = Permutation::generate(11, 200);
    for w in p.rotations.windows(3) {
        assert_ne!(w[2].face, w[0].face);
        assert_ne!(w[2].face, w[0].face.opposite());
    }
}

#[test]
fn length_zero_renders_header_only() {
    let p = Permutation::generate(5, 0);
    assert!(p.rotations.is_empty());
    assert_eq!(p.render(), "Seed: 5\n");
}

#[test]
fn render_shows_seed_and_moves() {
    let p = Permutation::generate(42, 3);
    let text = p.render();
    let rest = text.strip_prefix("Seed: 42\n").unwrap();
    let moves: Vec<&str> = rest.split_terminator(' ').collect();
    assert_eq!(moves.len(), 3);
    for (m, r) in moves.iter().zip(p.rotations.iter()) {
        assert_eq!(*m, r.render());
    }
}

#[test]
fn render_of_largest_seed() {
    let p = Permutation::generate(u64::MAX, 0);
    assert_eq!(p.render(), "Seed: 18446744073709551615\n");
}

#[test]
fn default_is_empty() {
    let p = Permutation::default();
    assert_eq!(p.seed, 0);
    assert_eq!(p.length, 0);
    assert!(p.rotations.is_empty());
}

#[test]
fn cli_run_uses_given_seed() {
    let cli = Cli { seed: Some(42), length: 25 };
    let p = cli.run();
    assert_eq!(p.seed, 42);
    assert_eq!(p.length, 25);
    let again = Permutation::generate(42, 25);
    assert_eq!(p.rotations, again.rotations);
}

#[test]
fn cli_run_without_seed_still_generates() {
    let cli = Cli { seed: None, length: 12 };
    let p = cli.run();
    assert_eq!(p.length, 12);
    assert_eq!(p.rotations.len(), 12);
}
