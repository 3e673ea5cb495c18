//! A number-guessing game with a verified core, and a few first steps beside
//! it.
//!
//! [`session`] holds the game itself: a secret target, the three-way answer to
//! each guess, and the single step from `Active` to `Won`. [`input`] turns a
//! line that a player typed into a guess, on top of the small grammar in
//! [`text`]. [`error`] names what can go wrong.
//!
//! [`basics`] and [`ownership`] are the first steps: sums, arrays and loops,
//! and strings that change hands.
//!
//! Nothing here reads or prints. A caller reads the lines and prints the
//! answers.

pub mod basics;
pub mod error;
pub mod input;
pub mod ownership;
mod random;
pub mod session;
pub mod text;
