//! Passwords drawn uniformly from an alphabet of bytes.
//!
//! A password is made by rejection sampling: every raw byte that a randomness
//! source gives is kept if the alphabet holds it and dropped otherwise, so each
//! byte of the alphabet is as likely as any other, whatever the alphabet's size.
//!
//! - [`sampler`] holds the sampling itself and what is proved of it;
//! - [`source`] the randomness sources;
//! - [`alphabets`] the alphabets that come with the library;
//! - [`text`] passwords as text;
//! - [`cli`] and [`number`] what the command line asks for.
pub mod alphabets;
pub mod cli;
pub mod number;
pub mod sampler;
pub mod source;
pub mod text;

pub use sampler::{generate, generate_with_rng, generate_within, GenerateError};
pub use source::{Draw, Failure, OsSource, RandomSource, Recorded};
pub use text::mkpasswd;
