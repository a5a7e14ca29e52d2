//! Presets.

use serde_json::Value;
use vstd::prelude::*;
use vstd::string::StringExecFns;

use crate::json::{parse_json, string_member};

verus! {

/// A preset.
pub struct Preset {
    /// The settings, as they were read.
    pub document: Value,
    /// The path of the lookup table that the settings name.
    pub lut_path: Option<String>,
}

/// What is said of a preset that cannot be read, for the given reason.
pub open spec fn preset_error_text(reason: Seq<char>) -> Seq<char> {
    "Preset JSON parse error: "@ + reason
}

/// Makes a preset of what parsing its text came to. Settings name a lookup table if
/// they are an object whose member `lutPath` is a string.
pub fn preset_from(parsed: Result<Value, String>) -> (preset: Result<Preset, String>)
    ensures
        match (parsed, preset) {
            (Ok(value), Ok(made)) => made.document == value && crate::pipeline::option_text(
                made.lut_path,
            ) == crate::json::string_at(crate::json::object_strings(value), "lutPath"@),
            (Err(reason), Err(text)) => text@ == preset_error_text(reason@),
            _ => false,
        },
{
    match parsed {
        Ok(document) => {
            let lut_path = string_member(&document, "lutPath");
            Ok(Preset { document, lut_path })
        },
        Err(reason) => {
            let mut text = "Preset JSON parse error: ".to_string();
            text.append(reason.as_str());
            Err(text)
        },
    }
}

/// Whether this is what reading a preset from this text comes to.
pub open spec fn is_preset_of(text: Seq<char>, preset: Result<Preset, String>) -> bool {
    match (crate::json::json_document(text), preset) {
        (Ok(held), Ok(made)) => crate::json::content(made.document) == held
            && crate::pipeline::option_text(made.lut_path) == crate::json::string_at(
            held.0,
            "lutPath"@,
        ),
        (Err(reason), Err(told)) => told@ == preset_error_text(reason),
        _ => false,
    }
}

/// Reads a preset from its text.
pub fn parse_preset(text: &str) -> (preset: Result<Preset, String>)
    ensures
        is_preset_of(text@, preset),
{
    preset_from(parse_json(text))
}

/// What is read of a preset is settled by its text alone, wherever it was read from:
/// two readings of one text have the same settings and name the same lookup table, or
/// are refused alike.
pub proof fn law_same_text_same_preset(
    text: Seq<char>,
    a: Result<Preset, String>,
    b: Result<Preset, String>,
)
    requires
        is_preset_of(text, a),
        is_preset_of(text, b),
    ensures
        match (a, b) {
            (Ok(one), Ok(other)) => crate::json::content(one.document) == crate::json::content(
                other.document,
            ) && crate::pipeline::option_text(one.lut_path) == crate::pipeline::option_text(
                other.lut_path,
            ),
            (Err(one), Err(other)) => one@ == other@,
            _ => false,
        },
{
}

/// A preset has all that its text holds, and the lookup table it names is the string
/// under `lutPath`, if there is one. A text that is no JSON is refused with what is wrong
/// with it.
pub proof fn law_preset_is_what_its_text_holds(text: Seq<char>, preset: Result<Preset, String>)
    requires
        is_preset_of(text, preset),
    ensures
        match (crate::json::json_document(text), preset) {
            (Ok(held), Ok(made)) => {
                &&& crate::json::object_strings(made.document) == held.0
                &&& crate::json::value_text(made.document) == held.1
                &&& held.0.contains_key("lutPath"@) ==> (made.lut_path matches Some(path) && path@
                    == held.0["lutPath"@])
                &&& !held.0.contains_key("lutPath"@) ==> made.lut_path is None
            },
            (Err(reason), Err(told)) => told@ == "Preset JSON parse error: "@ + reason,
            _ => false,
        },
{
}

} // verus!
