use crate::action::HistoryDetail;
use serde_json::Value;
use std::collections::HashMap;
use std::hash::RandomState;
use vstd::prelude::*;
use vstd::std_specs::hash::{
    builds_valid_hashers, contains_borrowed_key, maps_borrowed_key_to_value, obeys_key_model,
};

verus! {

/// The error that `serde_json` reports for a text it cannot read.
#[verifier::external_type_specification]
#[verifier::external_body]
pub struct ExJsonError(serde_json::Error);

/// What `serde_json::from_str` makes of a text read as a map from field
/// names to JSON values: the fields, or `None` where it reports an error.
pub uninterp spec fn json_fields(text: Seq<char>) -> Option<Map<String, Value>>;

/// Whether a text reads as a map from field names to JSON values.
pub open spec fn is_json_object(text: Seq<char>) -> bool {
    json_fields(text) is Some
}

/// Parses a text with `serde_json::from_str` as a map from field names to
/// values. The claim: the outcome depends on the text alone, the fields
/// where it succeeds and the failure where it does not.
#[verifier::external_body]
fn parse_fields(json: &str) -> (r: Result<HashMap<String, Value>, serde_json::Error>)
    ensures
        match r {
            Ok(map) => json_fields(json@) == Some(map@),
            Err(_) => json_fields(json@) is None,
        },
{
    serde_json::from_str::<HashMap<String, Value>>(json)
}

/// The player of a history whose player field holds `field_text`, a text
/// or none.
pub open spec fn player_text(field_text: Option<String>) -> Seq<char> {
    match field_text {
        Some(t) => t@,
        None => unknown_player(),
    }
}

/// The player of a history, given the text of its player field if that
/// field holds a text.
pub fn player_id_of(field_text: Option<String>) -> (r: String)
    ensures
        r@ == player_text(field_text),
{
    match field_text {
        Some(t) => t,
        None => "unknown".to_owned(),
    }
}

/// The history made of parsed fields, given what the lookup of the player
/// field gave: nothing where the field is missing, else the text of its
/// value if that is a text. A history without the field is dropped.
pub fn detail_from(map: HashMap<String, Value>, field: Option<Option<String>>) -> (r: Option<
    HistoryDetail,
>)
    ensures
        match field {
            Some(t) => r is Some && r->Some_0.player_id@ == player_text(t) && r->Some_0.map == map,
            None => r is None,
        },
{
    match field {
        Some(t) => Some(HistoryDetail::new(player_id_of(t), map)),
        None => None,
    }
}

/// Reads a play history: parses the text into fields and looks the player
/// field up in them. There is none where the text does not parse or the
/// lookup finds no player field; else the history carries the parsed
/// fields, and as its player the text of that field, or "unknown" where the
/// field holds no text.
pub fn history_detail(json: &str) -> (r: Option<HistoryDetail>)
    ensures
        match json_fields(json@) {
            None => r is None,
            Some(fields) => {
                &&& r is Some ==> r->Some_0.map@ == fields
                &&& lookups_are_modelled() ==> player_field_lookup(fields, r is Some)
            },
        },
{
    match parse_fields(json) {
        Ok(map) => {
            let field: Option<Option<String>> = match map.get("userId") {
                Some(value) => Some(text_of_value(value)),
                None => None,
            };
            detail_from(map, field)
        },
        Err(_) => None,
    }
}

/// Whether a hash map keyed by text is known to find what it holds: the
/// condition under which a lookup in the parsed fields is specified.
pub open spec fn lookups_are_modelled() -> bool {
    obeys_key_model::<String>() && builds_valid_hashers::<RandomState>()
}

/// What a lookup of the player field tells of the fields: that they map
/// the field to a value where it was found, that they do not contain it
/// where it was not.
pub open spec fn player_field_lookup(fields: Map<String, Value>, found: bool) -> bool {
    if found {
        exists|value: Value|
            #[trigger] maps_borrowed_key_to_value::<String, Value, str>(fields, "userId", value)
    } else {
        !contains_borrowed_key::<String, Value, str>(fields, "userId")
    }
}

/// The text of a JSON value, by `serde_json::Value::as_str`: `None` where
/// the value is no string. Nothing is claimed of it.
#[verifier::external_body]
fn text_of_value(value: &Value) -> (r: Option<String>) {
    match value.as_str() {
        Some(s) => Some(s.to_owned()),
        None => None,
    }
}

/// The player written for a history whose player field is no text.
pub open spec fn unknown_player() -> Seq<char> {
    "unknown"@
}

} // verus!
