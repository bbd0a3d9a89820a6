//! A small collection of verified programs.
//!
//! The largest is a single-node proof-of-work ledger: [`transaction`],
//! [`block`] and [`chain`] hold its data and operations, [`encoding`] and
//! [`digest`] say what is hashed and how a hash is judged, [`chain_laws`]
//! proves what holds of every chain, and [`clock`] reads the time.
//!
//! The others are classic exercises: searching a text line by line
//! ([`minigrep`], on top of [`text`]), a word-guessing game ([`hangman`],
//! with [`chance`] for the draw), Fibonacci numbers ([`fibonacci`]),
//! rectangles ([`rectangle`]) and the posts of a feed ([`post`]).

pub mod block;
pub mod chain;
pub mod chain_laws;
pub mod chance;
pub mod clock;
pub mod digest;
pub mod encoding;
pub mod encoding_laws;
pub mod fibonacci;
pub mod hangman;
pub mod minigrep;
pub mod post;
pub mod rectangle;
pub mod text;
pub mod transaction;
