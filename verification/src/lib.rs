//! Pack picker library: builds trading-card booster packs from the user's own
//! card piles, with per-slot rarity odds and A/B halving instructions that
//! locate each card in a physical pile.

pub mod rng;
pub mod selection;
pub mod models;
pub mod odds;
pub mod text;
pub mod state;
pub mod pack_gen;
pub mod candidates;
pub mod packs;
pub mod dates;
pub mod recognition;
pub mod hero;
pub mod pages;
pub mod pile_pages;
