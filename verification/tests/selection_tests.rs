use pack_picker::selection::{ab_instruction_for_index, generate_ab_instruction, halving_sequence, AbInstruction, Half};
use rand::rngs::StdRng;
use rand::SeedableRng;

/// Follow the halves from the whole pile: (start, len) of the part reached.
fn follow(pile_size: u32, steps: &[Half]) -> (u32, u32) {
    let mut start = 0u32;
    let mut len = pile_size;
    for h in steps {
        let half = len / 2;
        match h {
            Half::A => len = half,
            Half::B => {
                start += half;
                len -= half;
            }
        }
    }
    (start, len)
}

#[test]
fn ab_sequence_reduces_pile() {
    let mut rng = StdRng::seed_from_u64(42);
    let (inst, _idx) = generate_ab_instruction(1384, &mut rng);
    assert!(!inst.sequence.is_empty());
    assert!(inst.final_number >= 2 && inst.final_number <= 10);
}

#[test]
fn instruction_locates_every_card() {
    let mut rng = StdRng::seed_from_u64(7);
    for size in [1u32, 2, 9, 10, 11, 21, 100, 1384] {
        for index in 0..size {
            let inst = ab_instruction_for_index(size, index, &mut rng);
            let (start, len) = follow(size, &inst.sequence);
            assert!(start <= index && index < start + len);
            assert!(len <= 10 || len == size);
            assert!(len >= 1);
            let max_final = if len >= 10 { 10 } else if len <= 2 { 2 } else { len };
            assert!(inst.final_number >= 2 && inst.final_number <= max_final);
        }
    }
}

#[test]
fn halving_sequence_exact_values() {
    assert_eq!(halving_sequence(10, 4), (vec![], 10));
    assert_eq!(halving_sequence(20, 3), (vec![Half::A], 10));
    assert_eq!(halving_sequence(20, 10), (vec![Half::B], 10));
    // 21 cards: top half is 10 cards (0..10); position 10 is in the bottom 11,
    // which is halved again into 5 (10..15) and 6 (15..21).
    assert_eq!(halving_sequence(21, 10), (vec![Half::B, Half::A], 5));
    assert_eq!(halving_sequence(21, 20), (vec![Half::B, Half::B], 6));
}

#[test]
fn small_pile_has_no_halving_and_final_at_least_two() {
    let mut rng = StdRng::seed_from_u64(1);
    let (inst, idx) = generate_ab_instruction(1, &mut rng);
    assert_eq!(idx, 0);
    assert!(inst.sequence.is_empty());
    assert_eq!(inst.final_number, 2);
}

#[test]
fn display_string_formats_letters_and_number() {
    let inst = AbInstruction { sequence: vec![Half::A, Half::B, Half::A], final_number: 7 };
    assert_eq!(inst.display_string(), "A, B, A \u{2014} 7");
    let empty = AbInstruction { sequence: vec![], final_number: 10 };
    assert_eq!(empty.display_string(), " \u{2014} 10");
    assert_eq!(Half::A.as_str(), "A");
    assert_eq!(Half::B.as_str(), "B");
}
