//! A/B halving sequence plus a small final number, for locating a card in a
//! physical pile.
//!
//! Given a pile of `N` cards and a target position `i` (`0 <= i < N`), the
//! sequence says, step by step, whether the target lies in the top half (`A`)
//! or the bottom half (`B`) of what is left, until at most 10 cards remain.
//! The final number is drawn in `2..=10` (or `2..=remaining`).

use crate::rng::{gen_range_inclusive_u32, gen_range_u32};
use crate::text::{decimal, seq_join, u32_to_string};
use rand::rngs::StdRng;
use vstd::prelude::*;

verus! {

/// One halving step: top half (`A`) or bottom half (`B`).
#[derive(Debug, Clone, Copy, PartialEq, Eq, Structural)]
pub enum Half {
    A,
    B,
}

impl Half {
    /// The letter shown to the user for this half.
    pub fn as_str(self) -> (s: &'static str)
        ensures
            s@ == half_letter(self),
    {
        match self {
            Half::A => {
                proof {
                    reveal_strlit("A");
                }
                "A"
            },
            Half::B => {
                proof {
                    reveal_strlit("B");
                }
                "B"
            },
        }
    }
}

/// Result of the A/B selection: the halving sequence and the final small number.
#[derive(Debug, Clone)]
pub struct AbInstruction {
    pub sequence: Vec<Half>,
    pub final_number: u32,
}

/// Largest pile part that is no longer halved.
pub open spec fn small_pile() -> int {
    10
}

/// The halving walk towards `index` in the segment `[start, start + len)`:
/// the steps taken, then the start and length of the segment where it stops.
pub open spec fn halving(start: int, len: int, index: int) -> (Seq<Half>, int, int)
    decreases len,
{
    if len <= small_pile() {
        (Seq::empty(), start, len)
    } else {
        let half = len / 2;
        if index < start + half {
            let r = halving(start, half, index);
            (seq![Half::A] + r.0, r.1, r.2)
        } else {
            let r = halving(start + half, len - half, index);
            (seq![Half::B] + r.0, r.1, r.2)
        }
    }
}

/// Where a reader ends up who starts with the segment `[start, start + len)`
/// and follows `steps`: `A` keeps the top `len / 2` cards, `B` the rest.
pub open spec fn navigate(start: int, len: int, steps: Seq<Half>) -> (int, int)
    decreases steps.len(),
{
    if steps.len() == 0 {
        (start, len)
    } else {
        let half = len / 2;
        match steps[0] {
            Half::A => navigate(start, half, steps.drop_first()),
            Half::B => navigate(start + half, len - half, steps.drop_first()),
        }
    }
}

/// Upper bound of the final number, given how many cards remain.
pub open spec fn max_final_number(remaining: int) -> int {
    if remaining >= small_pile() {
        small_pile()
    } else if remaining <= 2 {
        2
    } else {
        remaining
    }
}

/// `inst` is the instruction for position `index` of a pile of `pile_size` cards.
pub open spec fn instruction_for(inst: AbInstruction, pile_size: int, index: int) -> bool {
    let h = halving(0, pile_size, index);
    &&& inst.sequence@ == h.0
    &&& 2 <= inst.final_number <= max_final_number(h.2)
}

/// `inst` is the instruction for some position of a pile of `pile_size` cards.
pub open spec fn valid_instruction(inst: AbInstruction, pile_size: int) -> bool {
    exists|index: int| 0 <= index < pile_size && #[trigger] instruction_for(inst, pile_size, index)
}

pub open spec fn half_letter(h: Half) -> Seq<char> {
    match h {
        Half::A => seq!['A'],
        Half::B => seq!['B'],
    }
}

/// Following the halving walk towards `index` leads to a segment that holds
/// `index`, has at least one card, and (once the walk started from more than
/// ten cards) at most ten cards.
pub proof fn lemma_halving_locates(start: int, len: int, index: int)
    requires
        start <= index < start + len,
    ensures
        ({
            let h = halving(start, len, index);
            &&& navigate(start, len, h.0) == (h.1, h.2)
            &&& h.1 <= index < h.1 + h.2
            &&& 1 <= h.2 <= small_pile() || (h.2 == len && len <= small_pile())
            &&& start <= h.1
            &&& h.1 + h.2 <= start + len
        }),
    decreases len,
{
    if len > small_pile() {
        let half = len / 2;
        if index < start + half {
            lemma_halving_locates(start, half, index);
            let r = halving(start, half, index);
            assert((seq![Half::A] + r.0).drop_first() =~= r.0);
        } else {
            lemma_halving_locates(start + half, len - half, index);
            let r = halving(start + half, len - half, index);
            assert((seq![Half::B] + r.0).drop_first() =~= r.0);
        }
    }
}

/// Law: an instruction for `index` of a non-empty pile leads a reader who
/// follows its A/B steps from the whole pile to a part of at most ten cards
/// (the whole pile if it has ten or fewer) that holds the card at `index`.
pub proof fn lemma_instruction_locates_card(inst: AbInstruction, pile_size: int, index: int)
    requires
        0 <= index < pile_size,
        instruction_for(inst, pile_size, index),
    ensures
        ({
            let (start, len) = navigate(0, pile_size, inst.sequence@);
            &&& start <= index < start + len
            &&& len <= small_pile() || len == pile_size
        }),
{
    lemma_halving_locates(0, pile_size, index);
}

/// The halving steps towards `index` in a pile of `pile_size` cards, and how
/// many cards remain at the end.
pub fn halving_sequence(pile_size: u32, index: u32) -> (r: (Vec<Half>, u32))
    ensures
        r.0@ == halving(0, pile_size as int, index as int).0,
        r.1 == halving(0, pile_size as int, index as int).2,
{
    let mut sequence: Vec<Half> = Vec::new();
    let mut start: u32 = 0;
    let mut len: u32 = pile_size;
    while len > 10
        invariant
            start as int + len as int <= pile_size as int,
            ({
                let whole = halving(0, pile_size as int, index as int);
                let rest = halving(start as int, len as int, index as int);
                &&& whole.0 == sequence@ + rest.0
                &&& whole.2 == rest.2
            }),
        decreases len,
    {
        let ghost old_seq = sequence@;
        let half = len / 2;
        let top_end = start + half;
        if index < top_end {
            sequence.push(Half::A);
            len = half;
            proof {
                let r = halving(start as int, len as int, index as int);
                assert(old_seq + (seq![Half::A] + r.0) =~= sequence@ + r.0);
            }
        } else {
            sequence.push(Half::B);
            let ghost old_start = start;
            let ghost old_len = len;
            start = top_end;
            len = len - half;
            proof {
                let r = halving(start as int, len as int, index as int);
                assert(old_seq + (seq![Half::B] + r.0) =~= sequence@ + r.0);
            }
        }
    }
    proof {
        assert(sequence@ + Seq::<Half>::empty() =~= sequence@);
    }
    (sequence, len)
}

/// Build the A/B instruction for a chosen position `index` of a pile of
/// `pile_size` cards. The final number is drawn in `2..=min(10, remaining)`
/// (at least 2).
pub fn ab_instruction_for_index(pile_size: u32, index: u32, rng: &mut StdRng) -> (inst: AbInstruction)
    ensures
        instruction_for(inst, pile_size as int, index as int),
{
    let (sequence, len) = halving_sequence(pile_size, index);
    let capped = if len < 10 { len } else { 10 };
    let max_final = if capped > 2 { capped } else { 2 };
    let final_number = gen_range_inclusive_u32(rng, 2, max_final);
    AbInstruction { sequence, final_number }
}

/// Instructions to reach a random card in a pile of `pile_size` cards.
/// Returns the instruction and the position it leads to.
pub fn generate_ab_instruction(pile_size: u32, rng: &mut StdRng) -> (r: (AbInstruction, u32))
    requires
        pile_size >= 1,
    ensures
        r.1 < pile_size,
        instruction_for(r.0, pile_size as int, r.1 as int),
        valid_instruction(r.0, pile_size as int),
{
    let index = gen_range_u32(rng, 0, pile_size);
    let instruction = ab_instruction_for_index(pile_size, index, rng);
    (instruction, index)
}

/// The text shown for an instruction: the letters joined with ", ", then a
/// dash and the final number, e.g. "A, B, A \u{2014} 7".
pub open spec fn instruction_text(inst: AbInstruction) -> Seq<char> {
    seq_join(inst.sequence@.map_values(|h: Half| half_letter(h)), ", "@) + " \u{2014} "@
        + decimal(inst.final_number as nat)
}

impl AbInstruction {
    /// Format the sequence as "A, B, A, A, ..." followed by the final number.
    pub fn display_string(&self) -> (s: String)
        ensures
            s@ == instruction_text(*self),
    {
        let ghost letters = self.sequence@.map_values(|h: Half| half_letter(h));
        let mut s = String::new();
        let mut i: usize = 0;
        while i < self.sequence.len()
            invariant
                i <= self.sequence@.len(),
                letters == self.sequence@.map_values(|h: Half| half_letter(h)),
                s@ == seq_join(letters.take(i as int), ", "@),
            decreases self.sequence@.len() - i,
        {
            assert(letters.take(i + 1).drop_last() =~= letters.take(i as int));
            if i > 0 {
                s.append(", ");
            } else {
                assert(s@ + letters[0] =~= letters[0]);
            }
            s.append(self.sequence[i].as_str());
            i = i + 1;
        }
        assert(letters.take(i as int) =~= letters);
        s.append(" \u{2014} ");
        let n = u32_to_string(self.final_number);
        s.append(n.as_str());
        s
    }
}

} // verus!
