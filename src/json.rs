//! The reads of JSON text that the harvest needs, made by sonic-rs.
use vstd::prelude::*;

use crate::harvest::opt_view;

verus! {

/// The raw text of the member `key` of the JSON object `json`; `None` when the
/// member is absent or `json` is not an object.
pub uninterp spec fn json_member_of(json: Seq<char>, key: Seq<char>) -> Option<Seq<char>>;

/// The members of the JSON object `json` as (key, raw value text) pairs in text
/// order; `None` when `json` is not a well-formed object.
pub uninterp spec fn json_entries_of(json: Seq<char>) -> Option<Seq<(Seq<char>, Seq<char>)>>;

/// The JSON value `raw` read as a nullable string: `Some(None)` for `null`,
/// `Some(Some(s))` for a string, `None` for anything else.
pub uninterp spec fn json_nullable_string_of(raw: Seq<char>) -> Option<Option<Seq<char>>>;

/// The texts of (key, value) pairs.
pub open spec fn pairs_view(v: Seq<(String, String)>) -> Seq<(Seq<char>, Seq<char>)> {
    v.map_values(|p: (String, String)| (p.0@, p.1@))
}

/// Relies on `sonic_rs::get_from_str` with a one-key path, and on
/// `LazyValue::as_raw_str`: the raw text of the member found.
#[verifier::external_body]
pub(crate) fn json_member(json: &str, key: &str) -> (r: Option<String>)
    ensures
        opt_view(r) == json_member_of(json@, key@),
{
    sonic_rs::get_from_str(json, [key]).ok().map(|v| v.as_raw_str().to_string())
}

/// Relies on `sonic_rs::to_object_iter`: the members of an object in order, or an
/// error item where the text is not a well-formed object.
#[verifier::external_body]
pub(crate) fn json_entries(json: &str) -> (r: Option<Vec<(String, String)>>)
    ensures
        match r {
            Some(v) => json_entries_of(json@) == Some(pairs_view(v@)),
            None => json_entries_of(json@).is_none(),
        },
{
    sonic_rs::to_object_iter(json).map(|e| e.map(|(k, v)| (k.to_string(), v.as_raw_str().to_string())))
        .collect::<Result<Vec<_>, _>>().ok()
}

/// Relies on `sonic_rs::from_str::<Option<String>>`: `null` reads as `None`, a
/// string as its unescaped text, anything else as an error.
#[verifier::external_body]
fn json_nullable_string(raw: &str) -> (r: Option<Option<String>>)
    ensures
        match r {
            Some(o) => json_nullable_string_of(raw@) == Some(opt_view(o)),
            None => json_nullable_string_of(raw@).is_none(),
        },
{
    sonic_rs::from_str::<Option<String>>(raw).ok()
}

/// What a member of a JSON object holds, as far as the harvest reads it.
pub enum JsonScalar {
    Missing,
    Null,
    Str(String),
    Other,
}

/// The mathematical form of a [`JsonScalar`].
pub enum Scalar {
    Missing,
    Null,
    Str(Seq<char>),
    Other,
}

impl View for JsonScalar {
    type V = Scalar;

    open spec fn view(&self) -> Scalar {
        match self {
            JsonScalar::Missing => Scalar::Missing,
            JsonScalar::Null => Scalar::Null,
            JsonScalar::Str(s) => Scalar::Str(s@),
            JsonScalar::Other => Scalar::Other,
        }
    }
}

/// What the raw member text `raw` holds (`None`: no such member).
pub open spec fn scalar_of(raw: Option<Seq<char>>) -> Scalar {
    match raw {
        None => Scalar::Missing,
        Some(t) => match json_nullable_string_of(t) {
            Some(Some(v)) => Scalar::Str(v),
            Some(None) => Scalar::Null,
            None => Scalar::Other,
        },
    }
}

/// The member `key` of the JSON object `json`, read as a nullable string.
pub fn member_scalar(json: &str, key: &str) -> (r: JsonScalar)
    ensures
        r@ == scalar_of(json_member_of(json@, key@)),
{
    match json_member(json, key) {
        None => JsonScalar::Missing,
        Some(raw) => match json_nullable_string(raw.as_str()) {
            Some(Some(s)) => JsonScalar::Str(s),
            Some(None) => JsonScalar::Null,
            None => JsonScalar::Other,
        },
    }
}

} // verus!
