//! Verified core of the Houston bot: the calculator's tokenizer and parser, dice
//! notation, and the UnityFS / serialized-file readers.

pub mod calc;
pub mod text;
pub mod dice;
pub mod buttons;
pub mod unity;
pub mod who;
pub mod discord;
pub mod azur;
