use vstd::prelude::*;
use crate::clock::Timestamp;

verus! {

/// A registered player of the league.
#[derive(Clone, Debug)]
pub struct User {
    pub user_id: i32,
    pub display_name: Option<String>,
    pub login: String,
    pub email: String,
    /// The sum of `total` over the user's rows of points.
    pub score: i32,
    pub encrypted_password: String,
    pub slack_handle: Option<String>,
    pub created_at: Timestamp,
    pub updated_at: Timestamp,
}

/// A user who is about to register, with the password as it was entered.
#[derive(Clone, Copy, Debug)]
pub struct NewUser<'a> {
    pub email: &'a str,
    pub login: &'a str,
    pub display_name: Option<&'a str>,
    pub password: &'a str,
    pub slack_handle: Option<&'a str>,
}

/// A user who is about to register, with the password hashed.
#[derive(Clone, Debug)]
pub struct NewUserWithEncryptedPassword<'a> {
    pub email: &'a str,
    pub login: &'a str,
    pub display_name: Option<&'a str>,
    pub encrypted_password: String,
    pub slack_handle: Option<&'a str>,
}

/// A country that takes part in the tournament.
#[derive(Clone, Debug)]
pub struct Country {
    pub country_id: i32,
    pub name: String,
    pub flag: String,
    pub seeding_pot: String,
}

/// A group of the group stage.
#[derive(Clone, Debug)]
pub struct Group {
    pub group_id: i32,
    pub name: String,
}

/// A stadium.
#[derive(Clone, Debug)]
pub struct Location {
    pub location_id: i32,
    pub city: String,
    pub stadium: String,
}

/// One side of a match. The country is unknown until the rounds before it
/// have been played.
#[derive(Clone, Debug)]
pub struct MatchParticipant {
    pub match_participant_id: i32,
    pub country_id: Option<i32>,
    pub stage_id: i32,
    pub group_id: Option<i32>,
    pub previous_match_id: Option<i32>,
    pub group_drawn_place: Option<i32>,
    pub result: Option<String>,
}

/// A fixture as it is stored: the two sides are named by their ids.
#[derive(Clone, Copy, Debug, PartialEq, Eq)]
pub struct Match {
    pub match_id: i32,
    pub stage_id: i32,
    pub location_id: i32,
    pub home_participant_id: i32,
    pub away_participant_id: i32,
    pub time: Timestamp,
}

/// A fixture with both of its sides looked up.
#[derive(Clone, Debug)]
pub struct MatchWithParticipants {
    pub match_id: i32,
    pub stage_id: i32,
    pub home_participant: MatchParticipant,
    pub away_participant: MatchParticipant,
    /// Kickoff.
    pub time: Timestamp,
}

/// What one user expects of one match.
#[derive(Clone, Debug)]
pub struct MatchPrediction {
    pub match_id: i32,
    pub user_id: i32,
    pub home_score: i16,
    pub away_score: i16,
    pub time_of_first_goal: i16,
    pub home_penalties: Option<i16>,
    pub away_penalties: Option<i16>,
    pub duration: Option<i16>,
    pub created_at: Timestamp,
    pub updated_at: Timestamp,
    pub source: String,
}

/// A prediction as it is written to the store.
#[derive(Clone, Debug)]
pub struct UpdatedPrediction {
    pub match_id: i32,
    pub user_id: i32,
    pub home_score: i16,
    pub away_score: i16,
    pub time_of_first_goal: i16,
    pub source: String,
    pub home_penalties: Option<i16>,
    pub away_penalties: Option<i16>,
    pub duration: Option<i16>,
}

/// How a match ended. Penalties are there only after a shoot-out.
#[derive(Clone, Copy, Debug, PartialEq, Eq)]
pub struct MatchOutcome {
    pub match_id: i32,
    pub home_score: i16,
    pub away_score: i16,
    pub time_of_first_goal: i16,
    pub home_penalties: Option<i16>,
    pub away_penalties: Option<i16>,
    pub duration: Option<i16>,
}

/// A user's pick of a country for one phase of the tournament.
#[derive(Clone, Debug)]
pub struct Favourite {
    pub user_id: i32,
    pub country_id: Option<i32>,
    pub choice: i16,
    pub created_at: Timestamp,
    pub updated_at: Timestamp,
    pub phase: i16,
    pub source: String,
}

/// A pick as it is written to the store.
#[derive(Clone, Copy, Debug, PartialEq, Eq)]
pub struct UpdatedFavourite {
    pub user_id: i32,
    pub country_id: Option<i32>,
    pub choice: i16,
    pub phase: i16,
}

/// The points of one user for one match.
#[derive(Clone, Copy, Debug, PartialEq, Eq, Structural)]
pub struct UserMatchPoints {
    pub user_id: i32,
    pub match_id: i32,
    pub favourites: i32,
    pub prediction: i32,
    pub time_of_first_goal: i32,
    pub total: i32,
}

fn duplicate_text(text: &Option<String>) -> (copy: Option<String>)
    ensures
        copy == *text,
{
    match text {
        Some(text) => Some(text.clone()),
        None => None,
    }
}

impl MatchParticipant {
    /// A second value with the same fields.
    pub fn duplicate(&self) -> (copy: MatchParticipant)
        ensures
            copy == *self,
    {
        MatchParticipant {
            match_participant_id: self.match_participant_id,
            country_id: self.country_id,
            stage_id: self.stage_id,
            group_id: self.group_id,
            previous_match_id: self.previous_match_id,
            group_drawn_place: self.group_drawn_place,
            result: duplicate_text(&self.result),
        }
    }
}

} // verus!
