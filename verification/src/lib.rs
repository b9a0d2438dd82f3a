//! Parser for the hand (captured pieces) segment of a USI position string.
//!
//! The hand segment either is the single byte `-`, meaning that neither side
//! holds any piece, or is a run of tokens, each an optional one- or two-digit
//! count followed by one piece letter.  An upper-case letter credits the first
//! player, a lower-case letter the second.  Parsing stops at the first byte
//! that does not belong to a token and hands the unconsumed suffix back to the
//! caller.

pub mod hand;
pub mod parser;
pub mod piece;
