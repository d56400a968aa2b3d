use vstd::prelude::*;
use crate::clock::{chrono_parsed, parse_time, Timestamp};
use crate::models::{Country, Group, Location};
use crate::schema::StageType;
use crate::text::{parse_i32, same_text, spec_parse_i32};

verus! {

/// A text names no kind of stage.
#[derive(Clone, Copy, Debug, PartialEq, Eq, Structural)]
pub struct StageTypeParseError;

/// The kind of stage that a text names: `group` or `knockout`.
pub open spec fn spec_stage_type(text: Seq<char>) -> Option<StageType> {
    if text == "group"@ {
        Some(StageType::Group)
    } else if text == "knockout"@ {
        Some(StageType::Knockout)
    } else {
        None
    }
}

/// The kind of stage that a text names.
pub fn stage_type_from(text: &str) -> (res: Result<StageType, StageTypeParseError>)
    ensures
        match spec_stage_type(text@) {
            Some(stage_type) => res == Ok::<StageType, StageTypeParseError>(stage_type),
            None => res is Err,
        },
{
    if same_text(text, "group") {
        Ok(StageType::Group)
    } else if same_text(text, "knockout") {
        Ok(StageType::Knockout)
    } else {
        Err(StageTypeParseError)
    }
}

/// How the times of the group matches are written: `14 June 2018 18:00 +03:00`.
pub open spec fn group_time_format() -> Seq<char> {
    "%d %B %Y %R %:z"@
}

/// How the times of the knockout matches are written: `30/06/2018 17:00+0300`.
pub open spec fn knockout_time_format() -> Seq<char> {
    "%d/%m/%Y %H:%M%z"@
}

/// The time as the parser gave it.
pub open spec fn time_of(parsed: Option<(i64, u32)>) -> Option<Timestamp> {
    match parsed {
        Some((seconds, nanos)) => Some(Timestamp { seconds, nanos }),
        None => None,
    }
}

/// The kickoff of a group match, read from the text of the fixture list.
pub fn group_match_time(text: &str) -> (time: Option<Timestamp>)
    ensures
        time == time_of(chrono_parsed(text@, group_time_format())),
{
    parse_time(text, "%d %B %Y %R %:z")
}

/// The kickoff of a knockout match, read from the text of the fixture list.
pub fn knockout_match_time(text: &str) -> (time: Option<Timestamp>)
    ensures
        time == time_of(chrono_parsed(text@, knockout_time_format())),
{
    parse_time(text, "%d/%m/%Y %H:%M%z")
}

/// The id of the country of this name: of the last one, where more than one
/// has the name.
pub open spec fn spec_country_id(countries: Seq<Country>, name: Seq<char>) -> Option<i32>
    decreases countries.len(),
{
    if countries.len() == 0 {
        None
    } else if countries.last().name@ == name {
        Some(countries.last().country_id)
    } else {
        spec_country_id(countries.drop_last(), name)
    }
}

/// The id of the country of this name.
pub fn country_id_by_name(countries: &Vec<Country>, name: &str) -> (found: Option<i32>)
    ensures
        found == spec_country_id(countries@, name@),
{
    let mut i: usize = countries.len();
    proof {
        assert(countries@.take(i as int) =~= countries@);
    }
    while i > 0
        invariant
            i <= countries.len(),
            spec_country_id(countries@, name@) == spec_country_id(countries@.take(i as int), name@),
        decreases i,
    {
        proof {
            assert(countries@.take(i as int).drop_last() =~= countries@.take(i - 1));
        }
        if same_text(countries[i - 1].name.as_str(), name) {
            return Some(countries[i - 1].country_id);
        }
        i -= 1;
    }
    None
}

/// The id of the group of this name: of the last one, where more than one has
/// the name.
pub open spec fn spec_group_id(groups: Seq<Group>, name: Seq<char>) -> Option<i32>
    decreases groups.len(),
{
    if groups.len() == 0 {
        None
    } else if groups.last().name@ == name {
        Some(groups.last().group_id)
    } else {
        spec_group_id(groups.drop_last(), name)
    }
}

/// The id of the group of this name.
pub fn group_id_by_name(groups: &Vec<Group>, name: &str) -> (found: Option<i32>)
    ensures
        found == spec_group_id(groups@, name@),
{
    let mut i: usize = groups.len();
    proof {
        assert(groups@.take(i as int) =~= groups@);
    }
    while i > 0
        invariant
            i <= groups.len(),
            spec_group_id(groups@, name@) == spec_group_id(groups@.take(i as int), name@),
        decreases i,
    {
        proof {
            assert(groups@.take(i as int).drop_last() =~= groups@.take(i - 1));
        }
        if same_text(groups[i - 1].name.as_str(), name) {
            return Some(groups[i - 1].group_id);
        }
        i -= 1;
    }
    None
}

/// The id of the stadium of this name: of the last one, where more than one
/// has the name.
pub open spec fn spec_location_id(locations: Seq<Location>, stadium: Seq<char>) -> Option<i32>
    decreases locations.len(),
{
    if locations.len() == 0 {
        None
    } else if locations.last().stadium@ == stadium {
        Some(locations.last().location_id)
    } else {
        spec_location_id(locations.drop_last(), stadium)
    }
}

/// The id of the stadium of this name.
pub fn location_id_by_stadium(locations: &Vec<Location>, stadium: &str) -> (found: Option<i32>)
    ensures
        found == spec_location_id(locations@, stadium@),
{
    let mut i: usize = locations.len();
    proof {
        assert(locations@.take(i as int) =~= locations@);
    }
    while i > 0
        invariant
            i <= locations.len(),
            spec_location_id(locations@, stadium@) == spec_location_id(
                locations@.take(i as int),
                stadium@,
            ),
        decreases i,
    {
        proof {
            assert(locations@.take(i as int).drop_last() =~= locations@.take(i - 1));
        }
        if same_text(locations[i - 1].stadium.as_str(), stadium) {
            return Some(locations[i - 1].location_id);
        }
        i -= 1;
    }
    None
}

/// The id of the stadium of this name in this city: of the last one, where
/// more than one has both.
pub open spec fn spec_location_id_in_city(
    locations: Seq<Location>,
    city: Seq<char>,
    stadium: Seq<char>,
) -> Option<i32>
    decreases locations.len(),
{
    if locations.len() == 0 {
        None
    } else if locations.last().city@ == city && locations.last().stadium@ == stadium {
        Some(locations.last().location_id)
    } else {
        spec_location_id_in_city(locations.drop_last(), city, stadium)
    }
}

/// The id of the stadium of this name in this city.
pub fn location_id_by_city_and_stadium(locations: &Vec<Location>, city: &str, stadium: &str) -> (found:
    Option<i32>)
    ensures
        found == spec_location_id_in_city(locations@, city@, stadium@),
{
    let mut i: usize = locations.len();
    proof {
        assert(locations@.take(i as int) =~= locations@);
    }
    while i > 0
        invariant
            i <= locations.len(),
            spec_location_id_in_city(locations@, city@, stadium@) == spec_location_id_in_city(
                locations@.take(i as int),
                city@,
                stadium@,
            ),
        decreases i,
    {
        proof {
            assert(locations@.take(i as int).drop_last() =~= locations@.take(i - 1));
        }
        if same_text(locations[i - 1].city.as_str(), city) && same_text(
            locations[i - 1].stadium.as_str(),
            stadium,
        ) {
            return Some(locations[i - 1].location_id);
        }
        i -= 1;
    }
    None
}

/// The first knockout stage: its sides are known from the start.
pub const FIRST_KNOCKOUT_STAGE: i32 = 2;

/// A side of a knockout match as it is written to the store.
#[derive(Clone, Debug)]
pub struct NewParticipant {
    pub stage_id: i32,
    pub country_id: Option<i32>,
    pub group_id: Option<i32>,
    pub previous_match_id: Option<i32>,
    pub result: String,
}

/// The country of a side is written down only in the first knockout stage.
pub open spec fn spec_participant_country(
    stage: i32,
    team: Seq<char>,
    countries: Seq<Country>,
) -> Option<i32> {
    if stage == FIRST_KNOCKOUT_STAGE {
        spec_country_id(countries, team)
    } else {
        None
    }
}

/// Where a side comes from is a number, and then the match that it comes out
/// of, or the name of a group.
pub open spec fn spec_previous_match(source: Seq<char>) -> Option<i32> {
    spec_parse_i32(source)
}

/// The group that a side comes out of, where its source is no number.
pub open spec fn spec_source_group(source: Seq<char>, groups: Seq<Group>) -> Option<i32> {
    if spec_parse_i32(source) is Some {
        None
    } else {
        spec_group_id(groups, source)
    }
}

/// Everything that a side of a knockout match names is known: its country in
/// the first knockout stage, and its group where it comes out of one.
pub open spec fn participant_is_known(
    stage: i32,
    team: Seq<char>,
    source: Seq<char>,
    countries: Seq<Country>,
    groups: Seq<Group>,
) -> bool {
    (stage == FIRST_KNOCKOUT_STAGE ==> spec_country_id(countries, team) is Some) && (
    spec_parse_i32(source) is None ==> spec_group_id(groups, source) is Some)
}

/// Whether everything that a side of a knockout match names is known.
pub fn participant_known(
    stage: i32,
    team: &str,
    source: &str,
    countries: &Vec<Country>,
    groups: &Vec<Group>,
) -> (known: bool)
    ensures
        known == participant_is_known(stage, team@, source@, countries@, groups@),
{
    if stage == FIRST_KNOCKOUT_STAGE && country_id_by_name(countries, team).is_none() {
        return false;
    }
    parse_i32(source).is_some() || group_id_by_name(groups, source).is_some()
}

/// A side of a knockout match, from a line of the fixture list: the country
/// in the first knockout stage only, and either the match or the group that
/// the side comes out of.
pub fn new_participant(
    stage: i32,
    team: &str,
    condition: String,
    source: &str,
    countries: &Vec<Country>,
    groups: &Vec<Group>,
) -> (participant: NewParticipant)
    requires
        participant_is_known(stage, team@, source@, countries@, groups@),
    ensures
        participant.stage_id == stage,
        participant.country_id == spec_participant_country(stage, team@, countries@),
        participant.previous_match_id == spec_previous_match(source@),
        participant.group_id == spec_source_group(source@, groups@),
        participant.result@ == condition@,
{
    let country_id = if stage == FIRST_KNOCKOUT_STAGE {
        country_id_by_name(countries, team)
    } else {
        None
    };
    let (previous_match_id, group_id) = match parse_i32(source) {
        Some(match_id) => (Some(match_id), None),
        None => (None, group_id_by_name(groups, source)),
    };
    NewParticipant { stage_id: stage, country_id, group_id, previous_match_id, result: condition }
}

} // verus!
