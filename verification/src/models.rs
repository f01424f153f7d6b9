//! Data models for piles, settings, and saved packs.

use crate::rng::new_v4_id;
use vstd::prelude::*;

verus! {

/// Rarity used for slot filling and value-pile matching.
#[derive(Debug, Clone, Copy, PartialEq, Eq, Structural)]
pub enum Rarity {
    Common,
    Uncommon,
    Rare,
    DoubleRare,
    UltraRare,
}

/// Kind of pile: determines how cards are picked from it.
///
/// A value pile carries its price range as the bit patterns of the `f64`
/// prices in USD (`f64::to_bits`); the library never reads them, it only keeps
/// them with the pile. What the library reads is `price_rarity`, the rarity
/// that the price range maps to, and `rarity`, an explicit override.
#[derive(Debug, Clone)]
pub enum PileType {
    /// Single pool; pure random across all cards.
    Trainers,
    /// Energy of a specific type; each type is equally likely.
    Energy { energy_type: String },
    /// Bulk; several piles weighted by size.
    Bulk,
    /// Value / rarity proxy.
    Value {
        price_min_usd_bits: Option<u64>,
        price_max_usd_bits: Option<u64>,
        price_rarity: Rarity,
        rarity: Option<Rarity>,
    },
}

impl PileType {
    /// A copy of this pile type.
    pub fn duplicate(&self) -> (r: PileType)
        ensures
            r == *self,
    {
        match self {
            PileType::Trainers => PileType::Trainers,
            PileType::Energy { energy_type } => PileType::Energy { energy_type: energy_type.clone() },
            PileType::Bulk => PileType::Bulk,
            PileType::Value { price_min_usd_bits, price_max_usd_bits, price_rarity, rarity } => {
                PileType::Value {
                    price_min_usd_bits: *price_min_usd_bits,
                    price_max_usd_bits: *price_max_usd_bits,
                    price_rarity: *price_rarity,
                    rarity: *rarity,
                }
            },
        }
    }
}

/// The rarity a value pile counts as: its explicit rarity if set, else the
/// rarity of its price range.
pub open spec fn effective_value_rarity(price_rarity: Rarity, rarity: Option<Rarity>) -> Rarity {
    match rarity {
        Some(r) => r,
        None => price_rarity,
    }
}

/// A single pile of cards. `id` is the 128-bit value of the pile's UUID.
#[derive(Debug, Clone)]
pub struct Pile {
    pub id: u128,
    pub name: String,
    pub pile_type: PileType,
    /// Estimated count; decremented when a card is picked from this pile.
    pub estimated_count: u32,
}

impl Pile {
    /// A new pile with a random version-4 id (drawn, not checked against other piles).
    pub fn new(name: String, pile_type: PileType, estimated_count: u32) -> (p: Pile)
        ensures
            p.name == name,
            p.pile_type == pile_type,
            p.estimated_count == estimated_count,
            p.id & 0xF000C000000000000000u128 == 0x40008000000000000000u128,
    {
        Pile { id: new_v4_id(), name, pile_type, estimated_count }
    }

    /// A copy of this pile.
    pub fn duplicate(&self) -> (r: Pile)
        ensures
            r == *self,
    {
        Pile {
            id: self.id,
            name: self.name.clone(),
            pile_type: self.pile_type.duplicate(),
            estimated_count: self.estimated_count,
        }
    }
}

/// Pack type: determines layout and odds. Only Modern is implemented.
#[derive(Debug, Clone, Copy, PartialEq, Eq, Structural)]
pub enum PackTypeId {
    Modern,
    /// Not implemented yet.
    Classic,
    /// Not implemented yet.
    Legacy,
}

impl PackTypeId {
    /// Human-readable name of the pack type.
    pub fn label(self) -> (s: &'static str)
        ensures
            s@ == pack_type_label(self),
    {
        match self {
            PackTypeId::Modern => {
                proof {
                    reveal_strlit("Modern");
                }
                "Modern"
            },
            PackTypeId::Classic => {
                proof {
                    reveal_strlit("Classic (coming soon)");
                }
                "Classic (coming soon)"
            },
            PackTypeId::Legacy => {
                proof {
                    reveal_strlit("Legacy (coming soon)");
                }
                "Legacy (coming soon)"
            },
        }
    }

    /// Whether packs of this type can be generated.
    pub fn is_implemented(self) -> (b: bool)
        ensures
            b == (self == PackTypeId::Modern),
    {
        match self {
            PackTypeId::Modern => true,
            _ => false,
        }
    }
}

impl Default for PackTypeId {
    fn default() -> (r: PackTypeId)
        ensures
            r == PackTypeId::Modern,
    {
        PackTypeId::Modern
    }
}

pub open spec fn pack_type_label(t: PackTypeId) -> Seq<char> {
    match t {
        PackTypeId::Modern => "Modern"@,
        PackTypeId::Classic => "Classic (coming soon)"@,
        PackTypeId::Legacy => "Legacy (coming soon)"@,
    }
}

/// Global app settings.
#[derive(Debug, Clone)]
pub struct Settings {
    /// Cards per pack (default 5).
    pub pack_size: u32,
    pub pack_type: PackTypeId,
    /// Include an energy slot when generating packs (default false).
    pub add_energy_to_packs: bool,
    /// Energy types left out of the energy draw.
    pub energy_types_out: Vec<String>,
}

impl Default for Settings {
    fn default() -> (s: Settings)
        ensures
            s.pack_size == 5,
            s.pack_type == PackTypeId::Modern,
            !s.add_energy_to_packs,
            s.energy_types_out@.len() == 0,
    {
        Settings {
            pack_size: 5,
            pack_type: PackTypeId::Modern,
            add_energy_to_packs: false,
            energy_types_out: Vec::new(),
        }
    }
}

/// Below this many cards a pile is too small for reliable A/B drawing.
pub const CRITICAL_LOW_THRESHOLD: u32 = 40;

} // verus!
