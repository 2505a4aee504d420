//! A small record manager for "NFT" entries: a token identifier, an owner
//! identifier, a creation date and a category, kept as an ordered sequence
//! and exchanged with the backing file as one self-describing byte blob.

pub mod category;
pub mod clock;
pub mod codec;
pub mod commands;
pub mod date;
pub mod errors;
pub mod nft;
pub mod storage;
pub mod text;
