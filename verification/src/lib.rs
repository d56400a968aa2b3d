//! Prediction league for a football tournament: the rules by which a user's
//! forecasts and favourite teams are turned into points, and the bookkeeping
//! that keeps every user's score equal to the sum of those points.
//!
//! - `scores` holds the rules: what a favourite and a prediction earn for one
//!   match, by the phase of the tournament.
//! - `table` holds the rows of points, one for each user and match.
//! - `recompute` joins matches with their outcomes, works out the rows of all
//!   users, writes them into the table and sums up the scores, all or nothing.
//! - `predictions`, `lucky` and `favourites` hold what the league lets a user
//!   enter, and until when.
//! - `auth` holds who may do what, and `imports` what the fixture lists mean.
//!
//! Bcrypt, chrono and rand do what only they can do: hashing, reading the
//! clock and a calendar date, and drawing numbers. Each of their functions is
//! called in one small function, which says what is believed of it.

pub mod auth;
pub mod clock;
pub mod error;
pub mod favourites;
pub mod imports;
pub mod lucky;
pub mod models;
pub mod predictions;
pub mod recompute;
pub mod schema;
pub mod scores;
pub mod table;
pub mod text;
