//! Typed decoding of a JSON tree into the response data model. Decoding is
//! driven by the schema: required fields that are absent or of the wrong
//! shape fail the whole decode; known optional fields that are absent (or
//! null) decode to no value. A decode either yields a complete, fully-typed
//! value or fails entirely.
use vstd::prelude::*;
use vstd::string::*;

use crate::error::DecodeError;
use crate::helpers::i64_dec;
use crate::helpers::signed_dec_str;
use crate::helpers::str_eq;
use crate::json::json_parse;
use crate::json::json_view;
use crate::json::json_view_fields;
use crate::json::json_view_items;
use crate::json::lemma_json_view_fields;
use crate::json::lemma_json_view_items;
use crate::json::parse_json;
use crate::json::Json;
use crate::json::JsonField;
use crate::json::JsonV;
use crate::response::code_from;
use crate::response::message_code_from;
use crate::response::AttributesTrafficInfo;
use crate::response::AttributesTrafficInfoV;
use crate::response::Attributes;
use crate::response::Departure;
use crate::response::DepartureTime;
use crate::response::DepartureV;
use crate::response::Departures;
use crate::response::DeparturesV;
use crate::response::Geometry;
use crate::response::GeometryV;
use crate::response::Line;
use crate::response::LineV;
use crate::response::LocationStop;
use crate::response::LocationStopV;
use crate::response::Message;
use crate::response::MessageV;
use crate::response::Monitor;
use crate::response::MonitorResponse;
use crate::response::MonitorResponseData;
use crate::response::MonitorResponseDataV;
use crate::response::MonitorResponseV;
use crate::response::MonitorV;
use crate::response::Properties;
use crate::response::PropertiesV;
use crate::response::Response;
use crate::response::ResponseV;
use crate::response::Time;
use crate::response::TrafficInfo;
use crate::response::TrafficInfoCategory;
use crate::response::TrafficInfoCategoryGroup;
use crate::response::TrafficInfoCategoryGroupV;
use crate::response::TrafficInfoCategoryV;
use crate::response::TrafficInfoListResponse;
use crate::response::TrafficInfoListResponseData;
use crate::response::TrafficInfoListResponseDataV;
use crate::response::TrafficInfoListResponseV;
use crate::response::TrafficInfoV;
use crate::response::Vehicle;
use crate::response::VehicleV;
use crate::response::view_opt_text;
use crate::response::view_opt_texts;
use crate::timestamp::parse_timestamp;
use crate::timestamp::ts_parse;
use crate::timestamp::Timestamp;

verus! {

broadcast use vstd::std_specs::control_flow::group_control_flow_axioms;

/// The value under `key` in an object member list: the first member with
/// that key, if any.
pub open spec fn obj_get(fs: Seq<(Seq<char>, JsonV)>, key: Seq<char>) -> Option<JsonV>
    decreases fs.len(),
{
    if fs.len() == 0 {
        None
    } else if fs[0].0 == key {
        Some(fs[0].1)
    } else {
        obj_get(fs.drop_first(), key)
    }
}

/// The value under `key` when `j` is an object that has that key.
pub open spec fn req_field(j: JsonV, key: Seq<char>) -> Option<JsonV> {
    match j {
        JsonV::Obj(fs) => obj_get(fs, key),
        _ => None,
    }
}

/// The value under an optional `key`: absent or null both mean no value.
pub open spec fn opt_field(j: JsonV, key: Seq<char>) -> Option<JsonV> {
    match req_field(j, key) {
        None => None,
        Some(JsonV::Null) => None,
        Some(v) => Some(v),
    }
}

/// A required text field.
pub open spec fn req_text(j: JsonV, key: Seq<char>) -> Option<Seq<char>> {
    match req_field(j, key) {
        Some(JsonV::Text(s)) => Some(s),
        _ => None,
    }
}

/// A required boolean field.
pub open spec fn req_bool(j: JsonV, key: Seq<char>) -> Option<bool> {
    match req_field(j, key) {
        Some(JsonV::Bool(b)) => Some(b),
        _ => None,
    }
}

/// A required integer field.
pub open spec fn req_i64(j: JsonV, key: Seq<char>) -> Option<i64> {
    match req_field(j, key) {
        Some(JsonV::Int(n)) => Some(n),
        _ => None,
    }
}

/// A required integer field within the signed 32-bit range.
pub open spec fn req_i32(j: JsonV, key: Seq<char>) -> Option<i32> {
    match req_i64(j, key) {
        Some(n) => if i32::MIN <= n <= i32::MAX {
            Some(n as i32)
        } else {
            None
        },
        None => None,
    }
}

/// A required array field, as its element list.
pub open spec fn req_arr(j: JsonV, key: Seq<char>) -> Option<Seq<JsonV>> {
    match req_field(j, key) {
        Some(JsonV::Arr(els)) => Some(els),
        _ => None,
    }
}

/// A required timestamp field: a text field holding the fixed pattern.
pub open spec fn req_ts(j: JsonV, key: Seq<char>) -> Option<Timestamp> {
    match req_text(j, key) {
        Some(s) => ts_parse(s),
        None => None,
    }
}

/// An optional text field: outer `None` is a failure, `Some(None)` absence.
pub open spec fn opt_text(j: JsonV, key: Seq<char>) -> Option<Option<Seq<char>>> {
    match opt_field(j, key) {
        None => Some(None),
        Some(JsonV::Text(s)) => Some(Some(s)),
        Some(_) => None,
    }
}

/// An optional integer field within the signed 32-bit range.
pub open spec fn opt_i32(j: JsonV, key: Seq<char>) -> Option<Option<i32>> {
    match opt_field(j, key) {
        None => Some(None),
        Some(JsonV::Int(n)) => if i32::MIN <= n <= i32::MAX {
            Some(Some(n as i32))
        } else {
            None
        },
        Some(_) => None,
    }
}

/// An optional timestamp field.
pub open spec fn opt_ts(j: JsonV, key: Seq<char>) -> Option<Option<Timestamp>> {
    match opt_field(j, key) {
        None => Some(None),
        Some(JsonV::Text(s)) => match ts_parse(s) {
            Some(t) => Some(Some(t)),
            None => None,
        },
        Some(_) => None,
    }
}

/// A text array element.
pub open spec fn text_of(j: JsonV) -> Option<Seq<char>> {
    match j {
        JsonV::Text(s) => Some(s),
        _ => None,
    }
}

/// An unsigned 32-bit array element.
pub open spec fn u32_of(j: JsonV) -> Option<u32> {
    match j {
        JsonV::Int(n) => if 0 <= n <= u32::MAX {
            Some(n as u32)
        } else {
            None
        },
        _ => None,
    }
}

/// A signed 32-bit array element.
pub open spec fn i32_of(j: JsonV) -> Option<i32> {
    match j {
        JsonV::Int(n) => if i32::MIN <= n <= i32::MAX {
            Some(n as i32)
        } else {
            None
        },
        _ => None,
    }
}

/// A numeric array element, kept as its decimal wire text.
pub open spec fn num_text_of(j: JsonV) -> Option<Seq<char>> {
    match j {
        JsonV::Int(n) => Some(signed_dec_str(n as int)),
        JsonV::NumText(s) => Some(s),
        _ => None,
    }
}

/// All elements as texts, or nothing if any element is not a text.
pub open spec fn texts_of(els: Seq<JsonV>) -> Option<Seq<Seq<char>>> {
    if forall|k: int| 0 <= k < els.len() ==> text_of(#[trigger] els[k]) is Some {
        Some(els.map_values(|j: JsonV| text_of(j).unwrap()))
    } else {
        None
    }
}

/// All elements as unsigned 32-bit values, or nothing.
pub open spec fn u32s_of(els: Seq<JsonV>) -> Option<Seq<u32>> {
    if forall|k: int| 0 <= k < els.len() ==> u32_of(#[trigger] els[k]) is Some {
        Some(els.map_values(|j: JsonV| u32_of(j).unwrap()))
    } else {
        None
    }
}

/// All elements as signed 32-bit values, or nothing.
pub open spec fn i32s_of(els: Seq<JsonV>) -> Option<Seq<i32>> {
    if forall|k: int| 0 <= k < els.len() ==> i32_of(#[trigger] els[k]) is Some {
        Some(els.map_values(|j: JsonV| i32_of(j).unwrap()))
    } else {
        None
    }
}

/// All elements as numeric wire texts, or nothing.
pub open spec fn num_texts_of(els: Seq<JsonV>) -> Option<Seq<Seq<char>>> {
    if forall|k: int| 0 <= k < els.len() ==> num_text_of(#[trigger] els[k]) is Some {
        Some(els.map_values(|j: JsonV| num_text_of(j).unwrap()))
    } else {
        None
    }
}

/// An optional text-list field.
pub open spec fn opt_texts(j: JsonV, key: Seq<char>) -> Option<Option<Seq<Seq<char>>>> {
    match opt_field(j, key) {
        None => Some(None),
        Some(JsonV::Arr(els)) => match texts_of(els) {
            Some(v) => Some(Some(v)),
            None => None,
        },
        Some(_) => None,
    }
}

/// An optional unsigned 32-bit list field.
pub open spec fn opt_u32s(j: JsonV, key: Seq<char>) -> Option<Option<Seq<u32>>> {
    match opt_field(j, key) {
        None => Some(None),
        Some(JsonV::Arr(els)) => match u32s_of(els) {
            Some(v) => Some(Some(v)),
            None => None,
        },
        Some(_) => None,
    }
}

/// An optional signed 32-bit list field.
pub open spec fn opt_i32s(j: JsonV, key: Seq<char>) -> Option<Option<Seq<i32>>> {
    match opt_field(j, key) {
        None => Some(None),
        Some(JsonV::Arr(els)) => match i32s_of(els) {
            Some(v) => Some(Some(v)),
            None => None,
        },
        Some(_) => None,
    }
}

fn get_field<'a>(j: &'a Json, key: &str) -> (r: Option<&'a Json>)
    ensures
        match r {
            Some(v) => req_field(j@, key@) == Some(v@),
            None => req_field(j@, key@) is None,
        },
{
    match j {
        Json::Obj(fields) => {
            let mut idx: usize = 0;
            proof {
                lemma_json_view_fields(*fields);
                assert(json_view_fields(*fields).skip(0) =~= json_view_fields(*fields));
            }
            while idx < fields.len()
                invariant
                    idx <= fields@.len(),
                    req_field(j@, key@) == obj_get(json_view_fields(*fields), key@),
                    obj_get(json_view_fields(*fields), key@) == obj_get(
                        json_view_fields(*fields).skip(idx as int),
                        key@,
                    ),
                decreases fields@.len() - idx,
            {
                proof {
                    lemma_json_view_fields(*fields);
                }
                if str_eq(fields[idx].key.as_str(), key) {
                    proof {
                        assert(json_view_fields(*fields).skip(idx as int)[0] == json_view_fields(
                            *fields,
                        )[idx as int]);
                    }
                    return Some(&fields[idx].value);
                }
                proof {
                    assert(json_view_fields(*fields).skip(idx as int)[0] == json_view_fields(
                        *fields,
                    )[idx as int]);
                    assert(json_view_fields(*fields).skip(idx as int).drop_first()
                        =~= json_view_fields(*fields).skip(idx as int + 1));
                }
                idx = idx + 1;
            }
            proof {
                lemma_json_view_fields(*fields);
                assert(json_view_fields(*fields).skip(
                    json_view_fields(*fields).len() as int,
                ).len() == 0);
            }
            None
        },
        _ => None,
    }
}

fn get_opt_field<'a>(j: &'a Json, key: &str) -> (r: Option<&'a Json>)
    ensures
        match r {
            Some(v) => opt_field(j@, key@) == Some(v@),
            None => opt_field(j@, key@) is None,
        },
{
    match get_field(j, key) {
        Some(v) => match v {
            Json::Null => None,
            _ => Some(v),
        },
        None => None,
    }
}

fn req_text_field(j: &Json, key: &str) -> (r: Result<String, DecodeError>)
    ensures
        match r {
            Ok(s) => req_text(j@, key@) == Some(s@),
            Err(_) => req_text(j@, key@) is None,
        },
{
    match get_field(j, key) {
        Some(v) => match v {
            Json::Text(s) => Ok(s.clone()),
            _ => Err(DecodeError::TypeMismatch),
        },
        None => Err(DecodeError::MissingField),
    }
}

fn req_bool_field(j: &Json, key: &str) -> (r: Result<bool, DecodeError>)
    ensures
        match r {
            Ok(b) => req_bool(j@, key@) == Some(b),
            Err(_) => req_bool(j@, key@) is None,
        },
{
    match get_field(j, key) {
        Some(v) => match v {
            Json::Bool(b) => Ok(*b),
            _ => Err(DecodeError::TypeMismatch),
        },
        None => Err(DecodeError::MissingField),
    }
}

fn req_i64_field(j: &Json, key: &str) -> (r: Result<i64, DecodeError>)
    ensures
        match r {
            Ok(n) => req_i64(j@, key@) == Some(n),
            Err(_) => req_i64(j@, key@) is None,
        },
{
    match get_field(j, key) {
        Some(v) => match v {
            Json::Int(n) => Ok(*n),
            _ => Err(DecodeError::TypeMismatch),
        },
        None => Err(DecodeError::MissingField),
    }
}

fn req_i32_field(j: &Json, key: &str) -> (r: Result<i32, DecodeError>)
    ensures
        match r {
            Ok(n) => req_i32(j@, key@) == Some(n),
            Err(_) => req_i32(j@, key@) is None,
        },
{
    let n = req_i64_field(j, key)?;
    if -2147483648 <= n && n <= 2147483647 {
        Ok(n as i32)
    } else {
        Err(DecodeError::TypeMismatch)
    }
}

fn req_ts_field(j: &Json, key: &str) -> (r: Result<Timestamp, DecodeError>)
    ensures
        match r {
            Ok(t) => req_ts(j@, key@) == Some(t),
            Err(_) => req_ts(j@, key@) is None,
        },
{
    match get_field(j, key) {
        Some(v) => match v {
            Json::Text(s) => parse_timestamp(s.as_str()),
            _ => Err(DecodeError::TypeMismatch),
        },
        None => Err(DecodeError::MissingField),
    }
}

fn opt_text_field(j: &Json, key: &str) -> (r: Result<Option<String>, DecodeError>)
    ensures
        match r {
            Ok(Some(s)) => opt_text(j@, key@) == Some(Some(s@)),
            Ok(None) => opt_text(j@, key@) == Some(None::<Seq<char>>),
            Err(_) => opt_text(j@, key@) is None,
        },
{
    match get_opt_field(j, key) {
        Some(v) => match v {
            Json::Text(s) => Ok(Some(s.clone())),
            _ => Err(DecodeError::TypeMismatch),
        },
        None => Ok(None),
    }
}

fn opt_i32_field(j: &Json, key: &str) -> (r: Result<Option<i32>, DecodeError>)
    ensures
        match r {
            Ok(Some(n)) => opt_i32(j@, key@) == Some(Some(n)),
            Ok(None) => opt_i32(j@, key@) == Some(None::<i32>),
            Err(_) => opt_i32(j@, key@) is None,
        },
{
    match get_opt_field(j, key) {
        Some(v) => match v {
            Json::Int(n) => if -2147483648 <= *n && *n <= 2147483647 {
                Ok(Some(*n as i32))
            } else {
                Err(DecodeError::TypeMismatch)
            },
            _ => Err(DecodeError::TypeMismatch),
        },
        None => Ok(None),
    }
}

fn opt_ts_field(j: &Json, key: &str) -> (r: Result<Option<Timestamp>, DecodeError>)
    ensures
        match r {
            Ok(Some(t)) => opt_ts(j@, key@) == Some(Some(t)),
            Ok(None) => opt_ts(j@, key@) == Some(None::<Timestamp>),
            Err(_) => opt_ts(j@, key@) is None,
        },
{
    match get_opt_field(j, key) {
        Some(v) => match v {
            Json::Text(s) => match parse_timestamp(s.as_str()) {
                Ok(t) => Ok(Some(t)),
                Err(e) => Err(e),
            },
            _ => Err(DecodeError::TypeMismatch),
        },
        None => Ok(None),
    }
}

fn texts_items(els: &Vec<Json>) -> (r: Result<Vec<String>, DecodeError>)
    ensures
        match r {
            Ok(v) => texts_of(json_view_items(*els)) == Some(v@.map_values(|s: String| s@)),
            Err(_) => texts_of(json_view_items(*els)) is None,
        },
{
    let mut out: Vec<String> = Vec::new();
    let mut idx: usize = 0;
    while idx < els.len()
        invariant
            idx <= els@.len(),
            out@.len() == idx,
            forall|k: int| 0 <= k < idx ==> text_of(json_view(#[trigger] els@[k])) == Some(out@[k]@),
        decreases els@.len() - idx,
    {
        match &els[idx] {
            Json::Text(s) => {
                out.push(s.clone());
            },
            _ => {
                proof {
                    lemma_json_view_items(*els);
                    assert(text_of(json_view_items(*els)[idx as int]) is None);
                }
                return Err(DecodeError::TypeMismatch);
            },
        }
        idx = idx + 1;
    }
    proof {
        lemma_json_view_items(*els);
        let vels = json_view_items(*els);
        assert forall|k: int| 0 <= k < vels.len() implies text_of(#[trigger] vels[k]) is Some by {
            assert(vels[k] == json_view(els@[k]));
        }
        assert(vels.map_values(|jv: JsonV| text_of(jv).unwrap()) =~= out@.map_values(
            |s: String| s@,
        ));
    }
    Ok(out)
}

fn u32_items(els: &Vec<Json>) -> (r: Result<Vec<u32>, DecodeError>)
    ensures
        match r {
            Ok(v) => u32s_of(json_view_items(*els)) == Some(v@),
            Err(_) => u32s_of(json_view_items(*els)) is None,
        },
{
    let mut out: Vec<u32> = Vec::new();
    let mut idx: usize = 0;
    while idx < els.len()
        invariant
            idx <= els@.len(),
            out@.len() == idx,
            forall|k: int| 0 <= k < idx ==> u32_of(json_view(#[trigger] els@[k])) == Some(out@[k]),
        decreases els@.len() - idx,
    {
        match &els[idx] {
            Json::Int(n) => {
                if 0 <= *n && *n <= 4294967295 {
                    out.push(*n as u32);
                } else {
                    proof {
                    lemma_json_view_items(*els);
                    assert(u32_of(json_view_items(*els)[idx as int]) is None);
                }
                return Err(DecodeError::TypeMismatch);
                }
            },
            _ => {
                proof {
                    lemma_json_view_items(*els);
                    assert(u32_of(json_view_items(*els)[idx as int]) is None);
                }
                return Err(DecodeError::TypeMismatch);
            },
        }
        idx = idx + 1;
    }
    proof {
        lemma_json_view_items(*els);
        let vels = json_view_items(*els);
        assert forall|k: int| 0 <= k < vels.len() implies u32_of(#[trigger] vels[k]) is Some by {
            assert(vels[k] == json_view(els@[k]));
        }
        assert(vels.map_values(|jv: JsonV| u32_of(jv).unwrap()) =~= out@);
    }
    Ok(out)
}

fn i32_items(els: &Vec<Json>) -> (r: Result<Vec<i32>, DecodeError>)
    ensures
        match r {
            Ok(v) => i32s_of(json_view_items(*els)) == Some(v@),
            Err(_) => i32s_of(json_view_items(*els)) is None,
        },
{
    let mut out: Vec<i32> = Vec::new();
    let mut idx: usize = 0;
    while idx < els.len()
        invariant
            idx <= els@.len(),
            out@.len() == idx,
            forall|k: int| 0 <= k < idx ==> i32_of(json_view(#[trigger] els@[k])) == Some(out@[k]),
        decreases els@.len() - idx,
    {
        match &els[idx] {
            Json::Int(n) => {
                if -2147483648 <= *n && *n <= 2147483647 {
                    out.push(*n as i32);
                } else {
                    proof {
                    lemma_json_view_items(*els);
                    assert(i32_of(json_view_items(*els)[idx as int]) is None);
                }
                return Err(DecodeError::TypeMismatch);
                }
            },
            _ => {
                proof {
                    lemma_json_view_items(*els);
                    assert(i32_of(json_view_items(*els)[idx as int]) is None);
                }
                return Err(DecodeError::TypeMismatch);
            },
        }
        idx = idx + 1;
    }
    proof {
        lemma_json_view_items(*els);
        let vels = json_view_items(*els);
        assert forall|k: int| 0 <= k < vels.len() implies i32_of(#[trigger] vels[k]) is Some by {
            assert(vels[k] == json_view(els@[k]));
        }
        assert(vels.map_values(|jv: JsonV| i32_of(jv).unwrap()) =~= out@);
    }
    Ok(out)
}

fn num_text_items(els: &Vec<Json>) -> (r: Result<Vec<String>, DecodeError>)
    ensures
        match r {
            Ok(v) => num_texts_of(json_view_items(*els)) == Some(v@.map_values(|s: String| s@)),
            Err(_) => num_texts_of(json_view_items(*els)) is None,
        },
{
    let mut out: Vec<String> = Vec::new();
    let mut idx: usize = 0;
    while idx < els.len()
        invariant
            idx <= els@.len(),
            out@.len() == idx,
            forall|k: int| 0 <= k < idx ==> num_text_of(json_view(#[trigger] els@[k])) == Some(out@[k]@),
        decreases els@.len() - idx,
    {
        match &els[idx] {
            Json::Int(n) => {
                out.push(i64_dec(*n));
            },
            Json::NumText(s) => {
                out.push(s.clone());
            },
            _ => {
                proof {
                    lemma_json_view_items(*els);
                    assert(num_text_of(json_view_items(*els)[idx as int]) is None);
                }
                return Err(DecodeError::TypeMismatch);
            },
        }
        idx = idx + 1;
    }
    proof {
        lemma_json_view_items(*els);
        let vels = json_view_items(*els);
        assert forall|k: int| 0 <= k < vels.len() implies num_text_of(#[trigger] vels[k]) is Some by {
            assert(vels[k] == json_view(els@[k]));
        }
        assert(vels.map_values(|jv: JsonV| num_text_of(jv).unwrap()) =~= out@.map_values(
            |s: String| s@,
        ));
    }
    Ok(out)
}

fn opt_texts_field(j: &Json, key: &str) -> (r: Result<Option<Vec<String>>, DecodeError>)
    ensures
        match r {
            Ok(Some(v)) => opt_texts(j@, key@) == Some(Some(v@.map_values(|s: String| s@))),
            Ok(None) => opt_texts(j@, key@) == Some(None::<Seq<Seq<char>>>),
            Err(_) => opt_texts(j@, key@) is None,
        },
{
    match get_opt_field(j, key) {
        Some(v) => match v {
            Json::Arr(els) => match texts_items(els) {
                Ok(out) => Ok(Some(out)),
                Err(e) => Err(e),
            },
            _ => Err(DecodeError::TypeMismatch),
        },
        None => Ok(None),
    }
}

fn opt_u32s_field(j: &Json, key: &str) -> (r: Result<Option<Vec<u32>>, DecodeError>)
    ensures
        match r {
            Ok(Some(v)) => opt_u32s(j@, key@) == Some(Some(v@)),
            Ok(None) => opt_u32s(j@, key@) == Some(None::<Seq<u32>>),
            Err(_) => opt_u32s(j@, key@) is None,
        },
{
    match get_opt_field(j, key) {
        Some(v) => match v {
            Json::Arr(els) => match u32_items(els) {
                Ok(out) => Ok(Some(out)),
                Err(e) => Err(e),
            },
            _ => Err(DecodeError::TypeMismatch),
        },
        None => Ok(None),
    }
}

fn opt_i32s_field(j: &Json, key: &str) -> (r: Result<Option<Vec<i32>>, DecodeError>)
    ensures
        match r {
            Ok(Some(v)) => opt_i32s(j@, key@) == Some(Some(v@)),
            Ok(None) => opt_i32s(j@, key@) == Some(None::<Seq<i32>>),
            Err(_) => opt_i32s(j@, key@) is None,
        },
{
    match get_opt_field(j, key) {
        Some(v) => match v {
            Json::Arr(els) => match i32_items(els) {
                Ok(out) => Ok(Some(out)),
                Err(e) => Err(e),
            },
            _ => Err(DecodeError::TypeMismatch),
        },
        None => Ok(None),
    }
}

/// The message a JSON value decodes to, if it has the required shape.
pub open spec fn dec_message(j: JsonV) -> Option<MessageV> {
    match (req_text(j, "value"@), req_i64(j, "messageCode"@), req_ts(j, "serverTime"@)) {
        (Some(value), Some(code), Some(server_time)) => match code_from(code as int) {
            Some(mc) => Some(MessageV { value, message_code: mc, server_time }),
            None => None,
        },
        _ => None,
    }
}

/// Decode a service message: text, closed status code, server timestamp.
pub fn decode_message(j: &Json) -> (r: Result<Message, DecodeError>)
    ensures
        match r {
            Ok(v) => dec_message(j@) == Some(v@),
            Err(_) => dec_message(j@) is None,
        },
{
    let value = req_text_field(j, "value")?;
    let code = req_i64_field(j, "messageCode")?;
    let server_time = req_ts_field(j, "serverTime")?;
    let message_code = message_code_from(code)?;
    Ok(Message { value, message_code, server_time })
}

/// The geometry a JSON value decodes to.
pub open spec fn dec_geometry(j: JsonV) -> Option<GeometryV> {
    match (req_text(j, "type"@), req_arr(j, "coordinates"@)) {
        (Some(geometry_type), Some(els)) => match num_texts_of(els) {
            Some(coordinates) => Some(GeometryV { geometry_type, coordinates }),
            None => None,
        },
        _ => None,
    }
}

/// Decode a stop's geometry; coordinates keep their decimal wire text.
pub fn decode_geometry(j: &Json) -> (r: Result<Geometry, DecodeError>)
    ensures
        match r {
            Ok(v) => dec_geometry(j@) == Some(v@),
            Err(_) => dec_geometry(j@) is None,
        },
{
    let geometry_type = req_text_field(j, "type")?;
    match get_field(j, "coordinates") {
        Some(v) => match v {
            Json::Arr(els) => {
                let coordinates = num_text_items(els)?;
                Ok(Geometry { geometry_type, coordinates })
            },
            _ => Err(DecodeError::TypeMismatch),
        },
        None => Err(DecodeError::MissingField),
    }
}

/// The attribute set a JSON value decodes to.
pub open spec fn dec_attributes(j: JsonV) -> Option<Attributes> {
    match req_i32(j, "rbl"@) {
        Some(rbl) => Some(Attributes { rbl }),
        None => None,
    }
}

/// Decode a stop's attribute set.
pub fn decode_attributes(j: &Json) -> (r: Result<Attributes, DecodeError>)
    ensures
        match r {
            Ok(v) => dec_attributes(j@) == Some(v),
            Err(_) => dec_attributes(j@) is None,
        },
{
    let rbl = req_i32_field(j, "rbl")?;
    Ok(Attributes { rbl })
}

/// The properties a JSON value decodes to.
pub open spec fn dec_properties(j: JsonV) -> Option<PropertiesV> {
    match (
        req_text(j, "name"@),
        req_text(j, "title"@),
        req_text(j, "municipality"@),
        req_i32(j, "municipalityId"@),
        req_text(j, "type"@),
        req_text(j, "coordName"@),
        req_field(j, "attributes"@),
    ) {
        (
            Some(name),
            Some(title),
            Some(municipality),
            Some(municipality_id),
            Some(stop_type),
            Some(coord_name),
            Some(aj),
        ) => match dec_attributes(aj) {
            Some(attributes) => Some(
                PropertiesV {
                    name,
                    title,
                    municipality,
                    municipality_id,
                    stop_type,
                    coord_name,
                    attributes,
                },
            ),
            None => None,
        },
        _ => None,
    }
}

/// Decode a stop's properties.
pub fn decode_properties(j: &Json) -> (r: Result<Properties, DecodeError>)
    ensures
        match r {
            Ok(v) => dec_properties(j@) == Some(v@),
            Err(_) => dec_properties(j@) is None,
        },
{
    let name = req_text_field(j, "name")?;
    let title = req_text_field(j, "title")?;
    let municipality = req_text_field(j, "municipality")?;
    let municipality_id = req_i32_field(j, "municipalityId")?;
    let stop_type = req_text_field(j, "type")?;
    let coord_name = req_text_field(j, "coordName")?;
    match get_field(j, "attributes") {
        Some(aj) => {
            let attributes = decode_attributes(aj)?;
            Ok(
                Properties {
                    name,
                    title,
                    municipality,
                    municipality_id,
                    stop_type,
                    coord_name,
                    attributes,
                },
            )
        },
        None => Err(DecodeError::MissingField),
    }
}

/// The stop a JSON value decodes to.
pub open spec fn dec_location_stop(j: JsonV) -> Option<LocationStopV> {
    match (req_text(j, "type"@), req_field(j, "geometry"@), req_field(j, "properties"@)) {
        (Some(location_type), Some(gj), Some(pj)) => match (dec_geometry(gj), dec_properties(pj)) {
            (Some(geometry), Some(properties)) => Some(
                LocationStopV { location_type, geometry, properties },
            ),
            _ => None,
        },
        _ => None,
    }
}

/// Decode a stop.
pub fn decode_location_stop(j: &Json) -> (r: Result<LocationStop, DecodeError>)
    ensures
        match r {
            Ok(v) => dec_location_stop(j@) == Some(v@),
            Err(_) => dec_location_stop(j@) is None,
        },
{
    let location_type = req_text_field(j, "type")?;
    let gj = match get_field(j, "geometry") {
        Some(gj) => gj,
        None => {
            return Err(DecodeError::MissingField);
        },
    };
    let geometry = decode_geometry(gj)?;
    let pj = match get_field(j, "properties") {
        Some(pj) => pj,
        None => {
            return Err(DecodeError::MissingField);
        },
    };
    let properties = decode_properties(pj)?;
    Ok(LocationStop { location_type, geometry, properties })
}

/// The departure times a JSON value decodes to.
pub open spec fn dec_departure_time(j: JsonV) -> Option<DepartureTime> {
    match (req_ts(j, "timePlanned"@), opt_ts(j, "timeReal"@), req_i32(j, "countdown"@)) {
        (Some(time_planned), Some(time_real), Some(countdown)) => Some(
            DepartureTime { time_planned, time_real, countdown },
        ),
        _ => None,
    }
}

/// Decode a departure's times: the realtime estimate is optional.
pub fn decode_departure_time(j: &Json) -> (r: Result<DepartureTime, DecodeError>)
    ensures
        match r {
            Ok(v) => dec_departure_time(j@) == Some(v),
            Err(_) => dec_departure_time(j@) is None,
        },
{
    let time_planned = req_ts_field(j, "timePlanned")?;
    let time_real = opt_ts_field(j, "timeReal")?;
    let countdown = req_i32_field(j, "countdown")?;
    Ok(DepartureTime { time_planned, time_real, countdown })
}

/// The vehicle a JSON value decodes to.
pub open spec fn dec_vehicle(j: JsonV) -> Option<VehicleV> {
    match (
        req_text(j, "name"@),
        req_text(j, "towards"@),
        req_text(j, "direction"@),
        req_text(j, "richtungsId"@),
        req_bool(j, "barrierFree"@),
        req_bool(j, "realtimeSupported"@),
        req_bool(j, "trafficjam"@),
        req_text(j, "type"@),
    ) {
        (
            Some(name),
            Some(towards),
            Some(direction),
            Some(richtungs_id),
            Some(barrier_free),
            Some(realtime_supported),
            Some(trafficjam),
            Some(vehicle_type),
        ) => Some(
            VehicleV {
                name,
                towards,
                direction,
                richtungs_id,
                barrier_free,
                realtime_supported,
                trafficjam,
                vehicle_type,
            },
        ),
        _ => None,
    }
}

/// Decode a vehicle.
pub fn decode_vehicle(j: &Json) -> (r: Result<Vehicle, DecodeError>)
    ensures
        match r {
            Ok(v) => dec_vehicle(j@) == Some(v@),
            Err(_) => dec_vehicle(j@) is None,
        },
{
    let name = req_text_field(j, "name")?;
    let towards = req_text_field(j, "towards")?;
    let direction = req_text_field(j, "direction")?;
    let richtungs_id = req_text_field(j, "richtungsId")?;
    let barrier_free = req_bool_field(j, "barrierFree")?;
    let realtime_supported = req_bool_field(j, "realtimeSupported")?;
    let trafficjam = req_bool_field(j, "trafficjam")?;
    let vehicle_type = req_text_field(j, "type")?;
    Ok(
        Vehicle {
            name,
            towards,
            direction,
            richtungs_id,
            barrier_free,
            realtime_supported,
            trafficjam,
            vehicle_type,
        },
    )
}

/// The departure a JSON value decodes to.
pub open spec fn dec_departure(j: JsonV) -> Option<DepartureV> {
    match req_field(j, "departureTime"@) {
        Some(dtj) => match dec_departure_time(dtj) {
            Some(departure_time) => match opt_field(j, "vehicle"@) {
                None => Some(DepartureV { departure_time, vehicle: None }),
                Some(vj) => match dec_vehicle(vj) {
                    Some(vehicle) => Some(DepartureV { departure_time, vehicle: Some(vehicle) }),
                    None => None,
                },
            },
            None => None,
        },
        None => None,
    }
}

/// Decode a departure: the vehicle is optional.
pub fn decode_departure(j: &Json) -> (r: Result<Departure, DecodeError>)
    ensures
        match r {
            Ok(v) => dec_departure(j@) == Some(v@),
            Err(_) => dec_departure(j@) is None,
        },
{
    let dtj = match get_field(j, "departureTime") {
        Some(dtj) => dtj,
        None => {
            return Err(DecodeError::MissingField);
        },
    };
    let departure_time = decode_departure_time(dtj)?;
    match get_opt_field(j, "vehicle") {
        Some(vj) => {
            let vehicle = decode_vehicle(vj)?;
            Ok(Departure { departure_time, vehicle: Some(vehicle) })
        },
        None => Ok(Departure { departure_time, vehicle: None }),
    }
}

/// The departure list a JSON element list decodes to.
pub open spec fn dec_departure_list(els: Seq<JsonV>) -> Option<Seq<DepartureV>> {
    if forall|k: int| 0 <= k < els.len() ==> dec_departure(#[trigger] els[k]) is Some {
        Some(els.map_values(|j: JsonV| dec_departure(j).unwrap()))
    } else {
        None
    }
}

fn departure_items(els: &Vec<Json>) -> (r: Result<Vec<Departure>, DecodeError>)
    ensures
        match r {
            Ok(v) => dec_departure_list(json_view_items(*els)) == Some(v@.map_values(|d: Departure| d@)),
            Err(_) => dec_departure_list(json_view_items(*els)) is None,
        },
{
    let mut out: Vec<Departure> = Vec::new();
    let mut idx: usize = 0;
    while idx < els.len()
        invariant
            idx <= els@.len(),
            out@.len() == idx,
            forall|k: int| 0 <= k < idx ==> dec_departure(json_view(#[trigger] els@[k])) == Some(out@[k]@),
        decreases els@.len() - idx,
    {
        match decode_departure(&els[idx]) {
            Ok(d) => {
                out.push(d);
            },
            Err(e) => {
                proof {
                    lemma_json_view_items(*els);
                    assert(dec_departure(json_view_items(*els)[idx as int]) is None);
                }
                return Err(e);
            },
        }
        idx = idx + 1;
    }
    proof {
        lemma_json_view_items(*els);
        let vels = json_view_items(*els);
        assert forall|k: int| 0 <= k < vels.len() implies dec_departure(#[trigger] vels[k]) is Some by {
            assert(vels[k] == json_view(els@[k]));
        }
        assert(vels.map_values(|jv: JsonV| dec_departure(jv).unwrap()) =~= out@.map_values(
            |d: Departure| d@,
        ));
    }
    Ok(out)
}

/// The departure collection a JSON value decodes to.
pub open spec fn dec_departures(j: JsonV) -> Option<DeparturesV> {
    match req_arr(j, "departure"@) {
        Some(els) => match dec_departure_list(els) {
            Some(departure) => Some(DeparturesV { departure }),
            None => None,
        },
        None => None,
    }
}

/// Decode a line's departure collection.
pub fn decode_departures(j: &Json) -> (r: Result<Departures, DecodeError>)
    ensures
        match r {
            Ok(v) => dec_departures(j@) == Some(v@),
            Err(_) => dec_departures(j@) is None,
        },
{
    match get_field(j, "departure") {
        Some(v) => match v {
            Json::Arr(els) => {
                let departure = departure_items(els)?;
                Ok(Departures { departure })
            },
            _ => Err(DecodeError::TypeMismatch),
        },
        None => Err(DecodeError::MissingField),
    }
}

/// The line a JSON value decodes to.
pub open spec fn dec_line(j: JsonV) -> Option<LineV> {
    match (
        req_text(j, "name"@),
        req_text(j, "towards"@),
        req_text(j, "direction"@),
        req_text(j, "richtungsId"@),
        req_bool(j, "barrierFree"@),
        req_bool(j, "realtimeSupported"@),
        req_bool(j, "trafficjam"@),
        req_field(j, "departures"@),
        req_text(j, "type"@),
        opt_i32(j, "lineId"@),
    ) {
        (
            Some(name),
            Some(towards),
            Some(direction),
            Some(richtungs_id),
            Some(barrier_free),
            Some(realtime_supported),
            Some(trafficjam),
            Some(dj),
            Some(line_type),
            Some(line_id),
        ) => match dec_departures(dj) {
            Some(departures) => Some(
                LineV {
                    name,
                    towards,
                    direction,
                    richtungs_id,
                    barrier_free,
                    realtime_supported,
                    trafficjam,
                    departures,
                    line_type,
                    line_id,
                },
            ),
            None => None,
        },
        _ => None,
    }
}

/// Decode a line with its departures; the numeric line id is optional.
pub fn decode_line(j: &Json) -> (r: Result<Line, DecodeError>)
    ensures
        match r {
            Ok(v) => dec_line(j@) == Some(v@),
            Err(_) => dec_line(j@) is None,
        },
{
    let name = req_text_field(j, "name")?;
    let towards = req_text_field(j, "towards")?;
    let direction = req_text_field(j, "direction")?;
    let richtungs_id = req_text_field(j, "richtungsId")?;
    let barrier_free = req_bool_field(j, "barrierFree")?;
    let realtime_supported = req_bool_field(j, "realtimeSupported")?;
    let trafficjam = req_bool_field(j, "trafficjam")?;
    let dj = match get_field(j, "departures") {
        Some(dj) => dj,
        None => {
            return Err(DecodeError::MissingField);
        },
    };
    let departures = decode_departures(dj)?;
    let line_type = req_text_field(j, "type")?;
    let line_id = opt_i32_field(j, "lineId")?;
    Ok(
        Line {
            name,
            towards,
            direction,
            richtungs_id,
            barrier_free,
            realtime_supported,
            trafficjam,
            departures,
            line_type,
            line_id,
        },
    )
}

/// The line list a JSON element list decodes to.
pub open spec fn dec_line_list(els: Seq<JsonV>) -> Option<Seq<LineV>> {
    if forall|k: int| 0 <= k < els.len() ==> dec_line(#[trigger] els[k]) is Some {
        Some(els.map_values(|j: JsonV| dec_line(j).unwrap()))
    } else {
        None
    }
}

fn line_items(els: &Vec<Json>) -> (r: Result<Vec<Line>, DecodeError>)
    ensures
        match r {
            Ok(v) => dec_line_list(json_view_items(*els)) == Some(v@.map_values(|l: Line| l@)),
            Err(_) => dec_line_list(json_view_items(*els)) is None,
        },
{
    let mut out: Vec<Line> = Vec::new();
    let mut idx: usize = 0;
    while idx < els.len()
        invariant
            idx <= els@.len(),
            out@.len() == idx,
            forall|k: int| 0 <= k < idx ==> dec_line(json_view(#[trigger] els@[k])) == Some(out@[k]@),
        decreases els@.len() - idx,
    {
        match decode_line(&els[idx]) {
            Ok(l) => {
                out.push(l);
            },
            Err(e) => {
                proof {
                    lemma_json_view_items(*els);
                    assert(dec_line(json_view_items(*els)[idx as int]) is None);
                }
                return Err(e);
            },
        }
        idx = idx + 1;
    }
    proof {
        lemma_json_view_items(*els);
        let vels = json_view_items(*els);
        assert forall|k: int| 0 <= k < vels.len() implies dec_line(#[trigger] vels[k]) is Some by {
            assert(vels[k] == json_view(els@[k]));
        }
        assert(vels.map_values(|jv: JsonV| dec_line(jv).unwrap()) =~= out@.map_values(|l: Line| l@));
    }
    Ok(out)
}

/// The monitor entry a JSON value decodes to.
pub open spec fn dec_monitor(j: JsonV) -> Option<MonitorV> {
    match (req_field(j, "locationStop"@), req_arr(j, "lines"@), opt_texts(
        j,
        "refTrafficInfoNames"@,
    )) {
        (Some(lsj), Some(els), Some(ref_traffic_info_names)) => match (dec_location_stop(lsj),
        dec_line_list(els)) {
            (Some(location_stop), Some(lines)) => Some(
                MonitorV { location_stop, lines, ref_traffic_info_names },
            ),
            _ => None,
        },
        _ => None,
    }
}

/// Decode a monitor entry: a stop, its lines, and optional referenced
/// traffic-info names.
pub fn decode_monitor(j: &Json) -> (r: Result<Monitor, DecodeError>)
    ensures
        match r {
            Ok(v) => dec_monitor(j@) == Some(v@),
            Err(_) => dec_monitor(j@) is None,
        },
{
    let lsj = match get_field(j, "locationStop") {
        Some(lsj) => lsj,
        None => {
            return Err(DecodeError::MissingField);
        },
    };
    let location_stop = decode_location_stop(lsj)?;
    let lines = match get_field(j, "lines") {
        Some(v) => match v {
            Json::Arr(els) => line_items(els)?,
            _ => {
                return Err(DecodeError::TypeMismatch);
            },
        },
        None => {
            return Err(DecodeError::MissingField);
        },
    };
    let ref_traffic_info_names = opt_texts_field(j, "refTrafficInfoNames")?;
    Ok(Monitor { location_stop, lines, ref_traffic_info_names })
}

/// The monitor list a JSON element list decodes to.
pub open spec fn dec_monitor_list(els: Seq<JsonV>) -> Option<Seq<MonitorV>> {
    if forall|k: int| 0 <= k < els.len() ==> dec_monitor(#[trigger] els[k]) is Some {
        Some(els.map_values(|j: JsonV| dec_monitor(j).unwrap()))
    } else {
        None
    }
}

fn monitor_items(els: &Vec<Json>) -> (r: Result<Vec<Monitor>, DecodeError>)
    ensures
        match r {
            Ok(v) => dec_monitor_list(json_view_items(*els)) == Some(v@.map_values(|m: Monitor| m@)),
            Err(_) => dec_monitor_list(json_view_items(*els)) is None,
        },
{
    let mut out: Vec<Monitor> = Vec::new();
    let mut idx: usize = 0;
    while idx < els.len()
        invariant
            idx <= els@.len(),
            out@.len() == idx,
            forall|k: int| 0 <= k < idx ==> dec_monitor(json_view(#[trigger] els@[k])) == Some(out@[k]@),
        decreases els@.len() - idx,
    {
        match decode_monitor(&els[idx]) {
            Ok(m) => {
                out.push(m);
            },
            Err(e) => {
                proof {
                    lemma_json_view_items(*els);
                    assert(dec_monitor(json_view_items(*els)[idx as int]) is None);
                }
                return Err(e);
            },
        }
        idx = idx + 1;
    }
    proof {
        lemma_json_view_items(*els);
        let vels = json_view_items(*els);
        assert forall|k: int| 0 <= k < vels.len() implies dec_monitor(#[trigger] vels[k]) is Some by {
            assert(vels[k] == json_view(els@[k]));
        }
        assert(vels.map_values(|jv: JsonV| dec_monitor(jv).unwrap()) =~= out@.map_values(
            |m: Monitor| m@,
        ));
    }
    Ok(out)
}

/// The time window a JSON value decodes to.
pub open spec fn dec_time(j: JsonV) -> Option<Time> {
    match (opt_ts(j, "start"@), opt_ts(j, "end"@), opt_ts(j, "resume"@)) {
        (Some(start), Some(end), Some(resume)) => Some(Time { start, end, resume }),
        _ => None,
    }
}

/// Decode a traffic info's time window: all three bounds optional.
pub fn decode_time(j: &Json) -> (r: Result<Time, DecodeError>)
    ensures
        match r {
            Ok(v) => dec_time(j@) == Some(v),
            Err(_) => dec_time(j@) is None,
        },
{
    let start = opt_ts_field(j, "start")?;
    let end = opt_ts_field(j, "end")?;
    let resume = opt_ts_field(j, "resume")?;
    Ok(Time { start, end, resume })
}

/// The attribute bag a JSON value decodes to.
pub open spec fn dec_attributes_traffic_info(j: JsonV) -> Option<AttributesTrafficInfoV> {
    match (
        opt_text(j, "status"@),
        opt_text(j, "station"@),
        opt_text(j, "location"@),
        opt_text(j, "reason"@),
        opt_text(j, "towards"@),
        opt_texts(j, "relatedLines"@),
        opt_u32s(j, "relatedStops"@),
    ) {
        (
            Some(status),
            Some(station),
            Some(location),
            Some(reason),
            Some(towards),
            Some(related_lines),
            Some(related_stops),
        ) => Some(
            AttributesTrafficInfoV {
                status,
                station,
                location,
                reason,
                towards,
                related_lines,
                related_stops,
            },
        ),
        _ => None,
    }
}

/// Decode a traffic info's attribute bag: every field optional.
pub fn decode_attributes_traffic_info(j: &Json) -> (r: Result<
    AttributesTrafficInfo,
    DecodeError,
>)
    ensures
        match r {
            Ok(v) => dec_attributes_traffic_info(j@) == Some(v@),
            Err(_) => dec_attributes_traffic_info(j@) is None,
        },
{
    let status = opt_text_field(j, "status")?;
    let station = opt_text_field(j, "station")?;
    let location = opt_text_field(j, "location")?;
    let reason = opt_text_field(j, "reason")?;
    let towards = opt_text_field(j, "towards")?;
    let related_lines = opt_texts_field(j, "relatedLines")?;
    let related_stops = opt_u32s_field(j, "relatedStops")?;
    Ok(
        AttributesTrafficInfo {
            status,
            station,
            location,
            reason,
            towards,
            related_lines,
            related_stops,
        },
    )
}

/// The traffic info a JSON value decodes to.
pub open spec fn dec_traffic_info(j: JsonV) -> Option<TrafficInfoV> {
    match (
        req_i32(j, "refTrafficInfoCategoryId"@),
        req_text(j, "name"@),
        opt_text(j, "priority"@),
        opt_text(j, "owner"@),
        req_text(j, "title"@),
        req_text(j, "description"@),
        opt_texts(j, "relatedLines"@),
        opt_i32s(j, "relatedStops"@),
    ) {
        (
            Some(ref_traffic_info_category_id),
            Some(name),
            Some(priority),
            Some(owner),
            Some(title),
            Some(description),
            Some(related_lines),
            Some(related_stops),
        ) => match (opt_field(j, "time"@), opt_field(j, "attributes"@)) {
            (None, None) => Some(
                TrafficInfoV {
                    ref_traffic_info_category_id,
                    name,
                    priority,
                    owner,
                    title,
                    description,
                    time: None,
                    attributes: None,
                    related_lines,
                    related_stops,
                },
            ),
            (Some(tj), None) => match dec_time(tj) {
                Some(time) => Some(
                    TrafficInfoV {
                        ref_traffic_info_category_id,
                        name,
                        priority,
                        owner,
                        title,
                        description,
                        time: Some(time),
                        attributes: None,
                        related_lines,
                        related_stops,
                    },
                ),
                None => None,
            },
            (None, Some(aj)) => match dec_attributes_traffic_info(aj) {
                Some(attributes) => Some(
                    TrafficInfoV {
                        ref_traffic_info_category_id,
                        name,
                        priority,
                        owner,
                        title,
                        description,
                        time: None,
                        attributes: Some(attributes),
                        related_lines,
                        related_stops,
                    },
                ),
                None => None,
            },
            (Some(tj), Some(aj)) => match (dec_time(tj), dec_attributes_traffic_info(aj)) {
                (Some(time), Some(attributes)) => Some(
                    TrafficInfoV {
                        ref_traffic_info_category_id,
                        name,
                        priority,
                        owner,
                        title,
                        description,
                        time: Some(time),
                        attributes: Some(attributes),
                        related_lines,
                        related_stops,
                    },
                ),
                _ => None,
            },
        },
        _ => None,
    }
}

/// Decode one traffic disruption or information entry.
pub fn decode_traffic_info(j: &Json) -> (r: Result<TrafficInfo, DecodeError>)
    ensures
        match r {
            Ok(v) => dec_traffic_info(j@) == Some(v@),
            Err(_) => dec_traffic_info(j@) is None,
        },
{
    let ref_traffic_info_category_id = req_i32_field(j, "refTrafficInfoCategoryId")?;
    let name = req_text_field(j, "name")?;
    let priority = opt_text_field(j, "priority")?;
    let owner = opt_text_field(j, "owner")?;
    let title = req_text_field(j, "title")?;
    let description = req_text_field(j, "description")?;
    let related_lines = opt_texts_field(j, "relatedLines")?;
    let related_stops = opt_i32s_field(j, "relatedStops")?;
    let time = match get_opt_field(j, "time") {
        Some(tj) => Some(decode_time(tj)?),
        None => None,
    };
    let attributes = match get_opt_field(j, "attributes") {
        Some(aj) => Some(decode_attributes_traffic_info(aj)?),
        None => None,
    };
    Ok(
        TrafficInfo {
            ref_traffic_info_category_id,
            name,
            priority,
            owner,
            title,
            description,
            time,
            attributes,
            related_lines,
            related_stops,
        },
    )
}

/// The category a JSON value decodes to.
pub open spec fn dec_category(j: JsonV) -> Option<TrafficInfoCategoryV> {
    match (
        req_i32(j, "id"@),
        req_i32(j, "refTrafficInfoCategoryGroupId"@),
        req_text(j, "name"@),
        req_text(j, "trafficInfoNameList"@),
        req_text(j, "title"@),
    ) {
        (
            Some(id),
            Some(ref_traffic_info_category_group_id),
            Some(name),
            Some(traffic_info_name_list),
            Some(title),
        ) => Some(
            TrafficInfoCategoryV {
                id,
                ref_traffic_info_category_group_id,
                name,
                traffic_info_name_list,
                title,
            },
        ),
        _ => None,
    }
}

/// Decode a traffic-info category.
pub fn decode_category(j: &Json) -> (r: Result<TrafficInfoCategory, DecodeError>)
    ensures
        match r {
            Ok(v) => dec_category(j@) == Some(v@),
            Err(_) => dec_category(j@) is None,
        },
{
    let id = req_i32_field(j, "id")?;
    let ref_traffic_info_category_group_id = req_i32_field(j, "refTrafficInfoCategoryGroupId")?;
    let name = req_text_field(j, "name")?;
    let traffic_info_name_list = req_text_field(j, "trafficInfoNameList")?;
    let title = req_text_field(j, "title")?;
    Ok(
        TrafficInfoCategory {
            id,
            ref_traffic_info_category_group_id,
            name,
            traffic_info_name_list,
            title,
        },
    )
}

/// The category group a JSON value decodes to.
pub open spec fn dec_category_group(j: JsonV) -> Option<TrafficInfoCategoryGroupV> {
    match (req_i32(j, "id"@), req_text(j, "name"@)) {
        (Some(id), Some(name)) => Some(TrafficInfoCategoryGroupV { id, name }),
        _ => None,
    }
}

/// Decode a traffic-info category group.
pub fn decode_category_group(j: &Json) -> (r: Result<TrafficInfoCategoryGroup, DecodeError>)
    ensures
        match r {
            Ok(v) => dec_category_group(j@) == Some(v@),
            Err(_) => dec_category_group(j@) is None,
        },
{
    let id = req_i32_field(j, "id")?;
    let name = req_text_field(j, "name")?;
    Ok(TrafficInfoCategoryGroup { id, name })
}

/// The traffic-info list a JSON element list decodes to.
pub open spec fn dec_traffic_info_list(els: Seq<JsonV>) -> Option<Seq<TrafficInfoV>> {
    if forall|k: int| 0 <= k < els.len() ==> dec_traffic_info(#[trigger] els[k]) is Some {
        Some(els.map_values(|j: JsonV| dec_traffic_info(j).unwrap()))
    } else {
        None
    }
}

fn traffic_info_items(els: &Vec<Json>) -> (r: Result<Vec<TrafficInfo>, DecodeError>)
    ensures
        match r {
            Ok(v) => dec_traffic_info_list(json_view_items(*els)) == Some(v@.map_values(|t: TrafficInfo| t@)),
            Err(_) => dec_traffic_info_list(json_view_items(*els)) is None,
        },
{
    let mut out: Vec<TrafficInfo> = Vec::new();
    let mut idx: usize = 0;
    while idx < els.len()
        invariant
            idx <= els@.len(),
            out@.len() == idx,
            forall|k: int| 0 <= k < idx ==> dec_traffic_info(json_view(#[trigger] els@[k])) == Some(out@[k]@),
        decreases els@.len() - idx,
    {
        match decode_traffic_info(&els[idx]) {
            Ok(t) => {
                out.push(t);
            },
            Err(e) => {
                proof {
                    lemma_json_view_items(*els);
                    assert(dec_traffic_info(json_view_items(*els)[idx as int]) is None);
                }
                return Err(e);
            },
        }
        idx = idx + 1;
    }
    proof {
        lemma_json_view_items(*els);
        let vels = json_view_items(*els);
        assert forall|k: int| 0 <= k < vels.len() implies dec_traffic_info(#[trigger] vels[k]) is Some by {
            assert(vels[k] == json_view(els@[k]));
        }
        assert(vels.map_values(|jv: JsonV| dec_traffic_info(jv).unwrap()) =~= out@.map_values(
            |t: TrafficInfo| t@,
        ));
    }
    Ok(out)
}

/// The category list a JSON element list decodes to.
pub open spec fn dec_category_list(els: Seq<JsonV>) -> Option<Seq<TrafficInfoCategoryV>> {
    if forall|k: int| 0 <= k < els.len() ==> dec_category(#[trigger] els[k]) is Some {
        Some(els.map_values(|j: JsonV| dec_category(j).unwrap()))
    } else {
        None
    }
}

fn category_items(els: &Vec<Json>) -> (r: Result<Vec<TrafficInfoCategory>, DecodeError>)
    ensures
        match r {
            Ok(v) => dec_category_list(json_view_items(*els)) == Some(
                v@.map_values(|c: TrafficInfoCategory| c@),
            ),
            Err(_) => dec_category_list(json_view_items(*els)) is None,
        },
{
    let mut out: Vec<TrafficInfoCategory> = Vec::new();
    let mut idx: usize = 0;
    while idx < els.len()
        invariant
            idx <= els@.len(),
            out@.len() == idx,
            forall|k: int| 0 <= k < idx ==> dec_category(json_view(#[trigger] els@[k])) == Some(out@[k]@),
        decreases els@.len() - idx,
    {
        match decode_category(&els[idx]) {
            Ok(c) => {
                out.push(c);
            },
            Err(e) => {
                proof {
                    lemma_json_view_items(*els);
                    assert(dec_category(json_view_items(*els)[idx as int]) is None);
                }
                return Err(e);
            },
        }
        idx = idx + 1;
    }
    proof {
        lemma_json_view_items(*els);
        let vels = json_view_items(*els);
        assert forall|k: int| 0 <= k < vels.len() implies dec_category(#[trigger] vels[k]) is Some by {
            assert(vels[k] == json_view(els@[k]));
        }
        assert(vels.map_values(|jv: JsonV| dec_category(jv).unwrap()) =~= out@.map_values(
            |c: TrafficInfoCategory| c@,
        ));
    }
    Ok(out)
}

/// The category-group list a JSON element list decodes to.
pub open spec fn dec_category_group_list(els: Seq<JsonV>) -> Option<Seq<TrafficInfoCategoryGroupV>> {
    if forall|k: int| 0 <= k < els.len() ==> dec_category_group(#[trigger] els[k]) is Some {
        Some(els.map_values(|j: JsonV| dec_category_group(j).unwrap()))
    } else {
        None
    }
}

fn category_group_items(els: &Vec<Json>) -> (r: Result<Vec<TrafficInfoCategoryGroup>, DecodeError>)
    ensures
        match r {
            Ok(v) => dec_category_group_list(json_view_items(*els)) == Some(
                v@.map_values(|g: TrafficInfoCategoryGroup| g@),
            ),
            Err(_) => dec_category_group_list(json_view_items(*els)) is None,
        },
{
    let mut out: Vec<TrafficInfoCategoryGroup> = Vec::new();
    let mut idx: usize = 0;
    while idx < els.len()
        invariant
            idx <= els@.len(),
            out@.len() == idx,
            forall|k: int|
                0 <= k < idx ==> dec_category_group(json_view(#[trigger] els@[k])) == Some(out@[k]@),
        decreases els@.len() - idx,
    {
        match decode_category_group(&els[idx]) {
            Ok(g) => {
                out.push(g);
            },
            Err(e) => {
                proof {
                    lemma_json_view_items(*els);
                    assert(dec_category_group(json_view_items(*els)[idx as int]) is None);
                }
                return Err(e);
            },
        }
        idx = idx + 1;
    }
    proof {
        lemma_json_view_items(*els);
        let vels = json_view_items(*els);
        assert forall|k: int| 0 <= k < vels.len() implies dec_category_group(#[trigger] vels[k]) is Some by {
            assert(vels[k] == json_view(els@[k]));
        }
        assert(vels.map_values(|jv: JsonV| dec_category_group(jv).unwrap()) =~= out@.map_values(
            |g: TrafficInfoCategoryGroup| g@,
        ));
    }
    Ok(out)
}

/// An optional traffic-info section.
pub open spec fn opt_traffic_infos(j: JsonV, key: Seq<char>) -> Option<Option<Seq<TrafficInfoV>>> {
    match opt_field(j, key) {
        None => Some(None),
        Some(JsonV::Arr(els)) => match dec_traffic_info_list(els) {
            Some(v) => Some(Some(v)),
            None => None,
        },
        Some(_) => None,
    }
}

/// An optional category section.
pub open spec fn opt_categories(j: JsonV, key: Seq<char>) -> Option<
    Option<Seq<TrafficInfoCategoryV>>,
> {
    match opt_field(j, key) {
        None => Some(None),
        Some(JsonV::Arr(els)) => match dec_category_list(els) {
            Some(v) => Some(Some(v)),
            None => None,
        },
        Some(_) => None,
    }
}

/// An optional category-group section.
pub open spec fn opt_category_groups(j: JsonV, key: Seq<char>) -> Option<
    Option<Seq<TrafficInfoCategoryGroupV>>,
> {
    match opt_field(j, key) {
        None => Some(None),
        Some(JsonV::Arr(els)) => match dec_category_group_list(els) {
            Some(v) => Some(Some(v)),
            None => None,
        },
        Some(_) => None,
    }
}

fn opt_traffic_infos_field(j: &Json, key: &str) -> (r: Result<
    Option<Vec<TrafficInfo>>,
    DecodeError,
>)
    ensures
        match r {
            Ok(Some(v)) => opt_traffic_infos(j@, key@) == Some(
                Some(v@.map_values(|t: TrafficInfo| t@)),
            ),
            Ok(None) => opt_traffic_infos(j@, key@) == Some(None::<Seq<TrafficInfoV>>),
            Err(_) => opt_traffic_infos(j@, key@) is None,
        },
{
    match get_opt_field(j, key) {
        Some(v) => match v {
            Json::Arr(els) => match traffic_info_items(els) {
                Ok(out) => Ok(Some(out)),
                Err(e) => Err(e),
            },
            _ => Err(DecodeError::TypeMismatch),
        },
        None => Ok(None),
    }
}

fn opt_categories_field(j: &Json, key: &str) -> (r: Result<
    Option<Vec<TrafficInfoCategory>>,
    DecodeError,
>)
    ensures
        match r {
            Ok(Some(v)) => opt_categories(j@, key@) == Some(
                Some(v@.map_values(|c: TrafficInfoCategory| c@)),
            ),
            Ok(None) => opt_categories(j@, key@) == Some(None::<Seq<TrafficInfoCategoryV>>),
            Err(_) => opt_categories(j@, key@) is None,
        },
{
    match get_opt_field(j, key) {
        Some(v) => match v {
            Json::Arr(els) => match category_items(els) {
                Ok(out) => Ok(Some(out)),
                Err(e) => Err(e),
            },
            _ => Err(DecodeError::TypeMismatch),
        },
        None => Ok(None),
    }
}

fn opt_category_groups_field(j: &Json, key: &str) -> (r: Result<
    Option<Vec<TrafficInfoCategoryGroup>>,
    DecodeError,
>)
    ensures
        match r {
            Ok(Some(v)) => opt_category_groups(j@, key@) == Some(
                Some(v@.map_values(|g: TrafficInfoCategoryGroup| g@)),
            ),
            Ok(None) => opt_category_groups(j@, key@) == Some(
                None::<Seq<TrafficInfoCategoryGroupV>>,
            ),
            Err(_) => opt_category_groups(j@, key@) is None,
        },
{
    match get_opt_field(j, key) {
        Some(v) => match v {
            Json::Arr(els) => match category_group_items(els) {
                Ok(out) => Ok(Some(out)),
                Err(e) => Err(e),
            },
            _ => Err(DecodeError::TypeMismatch),
        },
        None => Ok(None),
    }
}

/// The monitor payload a JSON value decodes to.
pub open spec fn dec_monitor_response_data(j: JsonV) -> Option<MonitorResponseDataV> {
    match (
        req_arr(j, "monitors"@),
        opt_traffic_infos(j, "trafficInfos"@),
        opt_categories(j, "trafficInfoCategories"@),
        opt_category_groups(j, "trafficInfoCategoryGroups"@),
    ) {
        (
            Some(els),
            Some(traffic_infos),
            Some(traffic_info_categories),
            Some(traffic_info_category_groups),
        ) => match dec_monitor_list(els) {
            Some(monitors) => Some(
                MonitorResponseDataV {
                    monitors,
                    traffic_infos,
                    traffic_info_categories,
                    traffic_info_category_groups,
                },
            ),
            None => None,
        },
        _ => None,
    }
}

/// Decode a monitor payload: the monitor list is required, the traffic-info
/// sections are optional and stay absent when the payload lacks them.
pub fn decode_monitor_response_data(j: &Json) -> (r: Result<MonitorResponseData, DecodeError>)
    ensures
        match r {
            Ok(v) => dec_monitor_response_data(j@) == Some(v@),
            Err(_) => dec_monitor_response_data(j@) is None,
        },
{
    let monitors = match get_field(j, "monitors") {
        Some(v) => match v {
            Json::Arr(els) => monitor_items(els)?,
            _ => {
                return Err(DecodeError::TypeMismatch);
            },
        },
        None => {
            return Err(DecodeError::MissingField);
        },
    };
    let traffic_infos = opt_traffic_infos_field(j, "trafficInfos")?;
    let traffic_info_categories = opt_categories_field(j, "trafficInfoCategories")?;
    let traffic_info_category_groups = opt_category_groups_field(j, "trafficInfoCategoryGroups")?;
    Ok(
        MonitorResponseData {
            monitors,
            traffic_infos,
            traffic_info_categories,
            traffic_info_category_groups,
        },
    )
}

/// The monitor response a JSON document decodes to.
pub open spec fn dec_monitor_response(j: JsonV) -> Option<MonitorResponseV> {
    match (req_field(j, "message"@), req_field(j, "data"@)) {
        (Some(mj), Some(dj)) => match (dec_message(mj), dec_monitor_response_data(dj)) {
            (Some(message), Some(data)) => Some(MonitorResponseV { message, data }),
            _ => None,
        },
        _ => None,
    }
}

/// Decode a whole monitor response document.
pub fn decode_monitor_response_value(j: &Json) -> (r: Result<MonitorResponse, DecodeError>)
    ensures
        match r {
            Ok(v) => dec_monitor_response(j@) == Some(v@),
            Err(_) => dec_monitor_response(j@) is None,
        },
{
    let mj = match get_field(j, "message") {
        Some(mj) => mj,
        None => {
            return Err(DecodeError::MissingField);
        },
    };
    let message = decode_message(mj)?;
    let dj = match get_field(j, "data") {
        Some(dj) => dj,
        None => {
            return Err(DecodeError::MissingField);
        },
    };
    let data = decode_monitor_response_data(dj)?;
    Ok(MonitorResponse { message, data })
}

/// The traffic-info-list payload a JSON value decodes to.
pub open spec fn dec_traffic_info_list_response_data(j: JsonV) -> Option<
    TrafficInfoListResponseDataV,
> {
    match (
        opt_traffic_infos(j, "trafficInfos"@),
        opt_categories(j, "trafficInfoCategories"@),
        opt_category_groups(j, "trafficInfoCategoryGroups"@),
    ) {
        (Some(traffic_infos), Some(traffic_info_categories), Some(traffic_info_category_groups)) =>
            Some(
            TrafficInfoListResponseDataV {
                traffic_infos,
                traffic_info_categories,
                traffic_info_category_groups,
            },
        ),
        _ => None,
    }
}

/// Decode a traffic-info-list payload: all three sections optional.
pub fn decode_traffic_info_list_response_data(j: &Json) -> (r: Result<
    TrafficInfoListResponseData,
    DecodeError,
>)
    ensures
        match r {
            Ok(v) => dec_traffic_info_list_response_data(j@) == Some(v@),
            Err(_) => dec_traffic_info_list_response_data(j@) is None,
        },
{
    let traffic_infos = opt_traffic_infos_field(j, "trafficInfos")?;
    let traffic_info_categories = opt_categories_field(j, "trafficInfoCategories")?;
    let traffic_info_category_groups = opt_category_groups_field(j, "trafficInfoCategoryGroups")?;
    Ok(
        TrafficInfoListResponseData {
            traffic_infos,
            traffic_info_categories,
            traffic_info_category_groups,
        },
    )
}

/// The traffic-info-list response a JSON document decodes to.
pub open spec fn dec_traffic_info_list_response(j: JsonV) -> Option<TrafficInfoListResponseV> {
    match (req_field(j, "message"@), req_field(j, "data"@)) {
        (Some(mj), Some(dj)) => match (dec_message(mj), dec_traffic_info_list_response_data(dj)) {
            (Some(message), Some(data)) => Some(TrafficInfoListResponseV { message, data }),
            _ => None,
        },
        _ => None,
    }
}

/// Decode a whole traffic-info-list response document.
pub fn decode_traffic_info_list_response_value(j: &Json) -> (r: Result<
    TrafficInfoListResponse,
    DecodeError,
>)
    ensures
        match r {
            Ok(v) => dec_traffic_info_list_response(j@) == Some(v@),
            Err(_) => dec_traffic_info_list_response(j@) is None,
        },
{
    let mj = match get_field(j, "message") {
        Some(mj) => mj,
        None => {
            return Err(DecodeError::MissingField);
        },
    };
    let message = decode_message(mj)?;
    let dj = match get_field(j, "data") {
        Some(dj) => dj,
        None => {
            return Err(DecodeError::MissingField);
        },
    };
    let data = decode_traffic_info_list_response_data(dj)?;
    Ok(TrafficInfoListResponse { message, data })
}

/// The bare response envelope a JSON document decodes to.
pub open spec fn dec_response(j: JsonV) -> Option<ResponseV> {
    match req_field(j, "message"@) {
        Some(mj) => match dec_message(mj) {
            Some(message) => Some(ResponseV { message }),
            None => None,
        },
        None => None,
    }
}

/// Decode a bare response envelope holding only the message.
pub fn decode_response_value(j: &Json) -> (r: Result<Response, DecodeError>)
    ensures
        match r {
            Ok(v) => dec_response(j@) == Some(v@),
            Err(_) => dec_response(j@) is None,
        },
{
    let mj = match get_field(j, "message") {
        Some(mj) => mj,
        None => {
            return Err(DecodeError::MissingField);
        },
    };
    let message = decode_message(mj)?;
    Ok(Response { message })
}

/// Decode a monitor response from body text: tokenize, then map the tree.
/// The typed mapping is exactly `dec_monitor_response` on the parsed tree.
pub fn decode_monitor_response(body: &str) -> (r: Result<MonitorResponse, DecodeError>)
    ensures
        json_parse(body@) is None ==> r == Err::<MonitorResponse, DecodeError>(
            DecodeError::MalformedJson,
        ),
        json_parse(body@) matches Some(t) ==> match r {
            Ok(v) => dec_monitor_response(t) == Some(v@),
            Err(_) => dec_monitor_response(t) is None,
        },
{
    let tree = parse_json(body)?;
    decode_monitor_response_value(&tree)
}

/// Decode a traffic-info-list response from body text: tokenize, then map
/// the tree. The typed mapping is exactly `dec_traffic_info_list_response`
/// on the parsed tree.
pub fn decode_traffic_info_list_response(body: &str) -> (r: Result<
    TrafficInfoListResponse,
    DecodeError,
>)
    ensures
        json_parse(body@) is None ==> r == Err::<TrafficInfoListResponse, DecodeError>(
            DecodeError::MalformedJson,
        ),
        json_parse(body@) matches Some(t) ==> match r {
            Ok(v) => dec_traffic_info_list_response(t) == Some(v@),
            Err(_) => dec_traffic_info_list_response(t) is None,
        },
{
    let tree = parse_json(body)?;
    decode_traffic_info_list_response_value(&tree)
}

} // verus!
