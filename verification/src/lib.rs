//! A card-drawing library: playing-card and tarot decks as ordered
//! containers with random, non-replacing sampling under destructive and
//! nondestructive semantics, and exact rendering of every card.

pub mod card;
pub mod deck;
pub mod engine;
pub mod source;
pub mod tarot;
pub mod text;
