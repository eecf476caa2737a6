//! A JSON document tree and a strict tokenizer for response bodies. The
//! tokenizer is specified exactly: `json_parse` is the spec-level parse of
//! the body text, and `parse_json` returns precisely its result. The typed
//! decoding of the tree into domain structures lives in `decode`.
use vstd::prelude::*;
use vstd::string::*;

use crate::error::DecodeError;
use crate::helpers::push_char;
use crate::helpers::str_to_chars;
use crate::timestamp::digits_val;
use crate::timestamp::is_digit;
use crate::timestamp::lemma_pow10_values;
use crate::timestamp::pow10;

verus! {

broadcast use vstd::std_specs::control_flow::group_control_flow_axioms,
    vstd::std_specs::vec::axiom_vec_index_decreases;

/// One key/value member of a JSON object, in document order.
#[derive(Debug)]
pub struct JsonField {
    pub key: String,
    pub value: Json,
}

/// A JSON value. Numbers keep their decimal text when they are not plain
/// integers of at most eighteen digits, so no precision is lost.
#[derive(Debug)]
pub enum Json {
    Null,
    Bool(bool),
    Int(i64),
    NumText(String),
    Text(String),
    Arr(Vec<Json>),
    Obj(Vec<JsonField>),
}

/// The spec-level form of a JSON tree: the same shape as `Json`, over
/// sequences instead of heap values.
pub enum JsonV {
    Null,
    Bool(bool),
    Int(i64),
    NumText(Seq<char>),
    Text(Seq<char>),
    Arr(Seq<JsonV>),
    Obj(Seq<(Seq<char>, JsonV)>),
}

/// The spec-level tree a `Json` value stands for.
pub open spec fn json_view(j: Json) -> JsonV
    decreases j,
{
    match j {
        Json::Null => JsonV::Null,
        Json::Bool(b) => JsonV::Bool(b),
        Json::Int(n) => JsonV::Int(n),
        Json::NumText(s) => JsonV::NumText(s@),
        Json::Text(s) => JsonV::Text(s@),
        Json::Arr(items) => JsonV::Arr(json_view_items(items)),
        Json::Obj(fields) => JsonV::Obj(json_view_fields(fields)),
    }
}

/// The spec-level trees of the elements of `items` from index `i` on.
pub open spec fn json_view_items_from(items: Vec<Json>, i: int) -> Seq<JsonV>
    decreases items, items@.len() - i,
{
    if 0 <= i < items@.len() {
        seq![json_view(items@[i])] + json_view_items_from(items, i + 1)
    } else {
        Seq::empty()
    }
}

/// The spec-level trees of an element vector.
pub open spec fn json_view_items(items: Vec<Json>) -> Seq<JsonV>
    decreases items, items@.len() + 1,
{
    json_view_items_from(items, 0)
}

/// The spec-level members of `fields` from index `i` on.
pub open spec fn json_view_fields_from(fields: Vec<JsonField>, i: int) -> Seq<(Seq<char>, JsonV)>
    decreases fields, fields@.len() - i,
{
    if 0 <= i < fields@.len() {
        seq![(fields@[i].key@, json_view(fields@[i].value))] + json_view_fields_from(fields, i + 1)
    } else {
        Seq::empty()
    }
}

/// The spec-level members of a field vector.
pub open spec fn json_view_fields(fields: Vec<JsonField>) -> Seq<(Seq<char>, JsonV)>
    decreases fields, fields@.len() + 1,
{
    json_view_fields_from(fields, 0)
}

impl View for Json {
    type V = JsonV;

    open spec fn view(&self) -> JsonV {
        json_view(*self)
    }
}

impl View for JsonField {
    type V = (Seq<char>, JsonV);

    open spec fn view(&self) -> (Seq<char>, JsonV) {
        (self.key@, json_view(self.value))
    }
}

proof fn lemma_json_view_items_from(items: Vec<Json>, i: int)
    requires
        0 <= i <= items@.len(),
    ensures
        json_view_items_from(items, i).len() == items@.len() - i,
        forall|k: int|
            0 <= k < items@.len() - i ==> #[trigger] json_view_items_from(items, i)[k]
                == json_view(items@[i + k]),
    decreases items@.len() - i,
{
    if i < items@.len() {
        lemma_json_view_items_from(items, i + 1);
    }
}

/// The view of an element vector, element by element.
pub proof fn lemma_json_view_items(items: Vec<Json>)
    ensures
        json_view_items(items).len() == items@.len(),
        forall|k: int|
            0 <= k < items@.len() ==> #[trigger] json_view_items(items)[k] == json_view(
                items@[k],
            ),
{
    lemma_json_view_items_from(items, 0);
}

proof fn lemma_json_view_fields_from(fields: Vec<JsonField>, i: int)
    requires
        0 <= i <= fields@.len(),
    ensures
        json_view_fields_from(fields, i).len() == fields@.len() - i,
        forall|k: int|
            0 <= k < fields@.len() - i ==> #[trigger] json_view_fields_from(fields, i)[k] == (
                fields@[i + k].key@,
                json_view(fields@[i + k].value),
            ),
    decreases fields@.len() - i,
{
    if i < fields@.len() {
        lemma_json_view_fields_from(fields, i + 1);
    }
}

/// The view of a field vector, member by member.
pub proof fn lemma_json_view_fields(fields: Vec<JsonField>)
    ensures
        json_view_fields(fields).len() == fields@.len(),
        forall|k: int|
            0 <= k < fields@.len() ==> #[trigger] json_view_fields(fields)[k] == (
                fields@[k].key@,
                json_view(fields@[k].value),
            ),
{
    lemma_json_view_fields_from(fields, 0);
}

proof fn lemma_json_view_items_push(a: Vec<Json>, b: Vec<Json>, x: Json)
    requires
        b@ == a@.push(x),
    ensures
        json_view_items(b) == json_view_items(a).push(json_view(x)),
{
    lemma_json_view_items(a);
    lemma_json_view_items(b);
    assert(json_view_items(b) =~= json_view_items(a).push(json_view(x)));
}

proof fn lemma_json_view_fields_push(a: Vec<JsonField>, b: Vec<JsonField>, x: JsonField)
    requires
        b@ == a@.push(x),
    ensures
        json_view_fields(b) == json_view_fields(a).push((x.key@, json_view(x.value))),
{
    lemma_json_view_fields(a);
    lemma_json_view_fields(b);
    assert(json_view_fields(b) =~= json_view_fields(a).push((x.key@, json_view(x.value))));
}

/// Whether `c` is JSON whitespace.
pub open spec fn ws_char(c: char) -> bool {
    c == ' ' || c == '\n' || c == '\t' || c == '\r'
}

/// The first index at or after `i` that holds no whitespace.
pub open spec fn spec_skip_ws(s: Seq<char>, i: int) -> int
    decreases s.len() - i,
    when 0 <= i <= s.len()
{
    if i < s.len() && ws_char(s[i]) {
        spec_skip_ws(s, i + 1)
    } else {
        i
    }
}

/// Skipping whitespace stays within the text and never moves backwards.
pub proof fn lemma_spec_skip_ws(s: Seq<char>, i: int)
    requires
        0 <= i <= s.len(),
    ensures
        i <= spec_skip_ws(s, i) <= s.len(),
    decreases s.len() - i,
{
    if i < s.len() && ws_char(s[i]) {
        lemma_spec_skip_ws(s, i + 1);
    }
}

/// The first index at or after `i` that holds no decimal digit.
pub open spec fn spec_digits_end(s: Seq<char>, i: int) -> int
    decreases s.len() - i,
    when 0 <= i <= s.len()
{
    if i < s.len() && is_digit(s[i]) {
        spec_digits_end(s, i + 1)
    } else {
        i
    }
}

/// A digit run stays within the text; everything in it is a digit.
pub proof fn lemma_spec_digits_end(s: Seq<char>, i: int)
    requires
        0 <= i <= s.len(),
    ensures
        i <= spec_digits_end(s, i) <= s.len(),
        forall|m: int| i <= m < spec_digits_end(s, i) ==> is_digit(#[trigger] s[m]),
    decreases s.len() - i,
{
    if i < s.len() && is_digit(s[i]) {
        lemma_spec_digits_end(s, i + 1);
    }
}

/// The value of a hexadecimal digit character, if it is one.
pub open spec fn spec_hex_val(c: char) -> Option<u32> {
    let v = c as u32;
    if 48 <= v && v <= 57 {
        Some((v - 48) as u32)
    } else if 97 <= v && v <= 102 {
        Some((v - 97 + 10) as u32)
    } else if 65 <= v && v <= 70 {
        Some((v - 65 + 10) as u32)
    } else {
        None
    }
}

/// The character a single-letter escape stands for, if the letter is known.
pub open spec fn esc_char(c: char) -> Option<char> {
    if c == '"' {
        Some('"')
    } else if c == '\\' {
        Some('\\')
    } else if c == '/' {
        Some('/')
    } else if c == 'b' {
        Some('\u{0008}')
    } else if c == 'f' {
        Some('\u{000C}')
    } else if c == 'n' {
        Some('\n')
    } else if c == 'r' {
        Some('\r')
    } else if c == 't' {
        Some('\t')
    } else {
        None
    }
}

/// The text and end position of a string body starting inside the quotes
/// at `i`, or nothing if the body is unterminated or an escape is bad.
pub open spec fn spec_string_body(s: Seq<char>, i: int) -> Option<(Seq<char>, int)>
    decreases s.len() - i,
    when 0 <= i <= s.len()
{
    if i >= s.len() {
        None
    } else if s[i] == '"' {
        Some((Seq::empty(), i + 1))
    } else if s[i] == '\\' {
        if s.len() - i < 2 {
            None
        } else if s[i + 1] == 'u' {
            if s.len() - i < 6 {
                None
            } else {
                match (spec_hex_val(s[i + 2]), spec_hex_val(s[i + 3]), spec_hex_val(s[i + 4]),
                spec_hex_val(s[i + 5])) {
                    (Some(d0), Some(d1), Some(d2), Some(d3)) => {
                        let code = (((d0 * 16 + d1) * 16 + d2) * 16 + d3) as u32;
                        if 0xD800 <= code && code <= 0xDFFF {
                            None
                        } else {
                            match spec_string_body(s, i + 6) {
                                Some(p) => Some((seq![code as char] + p.0, p.1)),
                                None => None,
                            }
                        }
                    },
                    _ => None,
                }
            }
        } else {
            match esc_char(s[i + 1]) {
                Some(c) => match spec_string_body(s, i + 2) {
                    Some(p) => Some((seq![c] + p.0, p.1)),
                    None => None,
                },
                None => None,
            }
        }
    } else {
        match spec_string_body(s, i + 1) {
            Some(p) => Some((seq![s[i]] + p.0, p.1)),
            None => None,
        }
    }
}

/// The text and end position of a quoted string whose opening quote stands
/// at `i`.
pub open spec fn spec_parse_string(s: Seq<char>, i: int) -> Option<(Seq<char>, int)> {
    if 0 <= i < s.len() && s[i] == '"' {
        spec_string_body(s, i + 1)
    } else {
        None
    }
}

/// The value of a number token whose digits run from `ds` to `de` and whose
/// text runs from `i` to `end`: a plain integer of at most eighteen digits
/// becomes a signed machine word, anything else keeps its decimal text.
pub open spec fn spec_number_value(s: Seq<char>, i: int, end: int, plain: bool, ds: int, de: int)
    -> JsonV {
    if plain && de - ds <= 18 {
        let v = digits_val(s.subrange(ds, de));
        JsonV::Int((if s[i] == '-' {
            -v
        } else {
            v
        }) as i64)
    } else {
        JsonV::NumText(s.subrange(i, end))
    }
}

/// The exponent part of a number token at `p`, if well-formed, and the
/// resulting value.
pub open spec fn spec_number_exp(s: Seq<char>, i: int, p: int, plain: bool, ds: int, de: int)
    -> Option<(JsonV, int)>
{
    if 0 <= p < s.len() && (s[p] == 'e' || s[p] == 'E') {
        let q = if p + 1 < s.len() && (s[p + 1] == '+' || s[p + 1] == '-') {
            p + 2
        } else {
            p + 1
        };
        if !(0 <= q <= s.len()) {
            None
        } else {
            let ee = spec_digits_end(s, q);
            if ee == q {
                None
            } else {
                Some((spec_number_value(s, i, ee, false, ds, de), ee))
            }
        }
    } else {
        Some((spec_number_value(s, i, p, plain, ds, de), p))
    }
}

/// The value and end position of a number token starting at `i`.
pub open spec fn spec_parse_number(s: Seq<char>, i: int) -> Option<(JsonV, int)> {
    if !(0 <= i < s.len()) {
        None
    } else {
        let ds = if s[i] == '-' {
            i + 1
        } else {
            i
        };
        let de = spec_digits_end(s, ds);
        if de == ds || !(ds <= de <= s.len()) {
            None
        } else if de < s.len() && s[de] == '.' {
            let fe = spec_digits_end(s, de + 1);
            if fe == de + 1 {
                None
            } else {
                spec_number_exp(s, i, fe, false, ds, de)
            }
        } else {
            spec_number_exp(s, i, de, true, ds, de)
        }
    }
}

/// The tree and end position of the value whose first token starts at or
/// after `i`, skipping leading whitespace.
pub open spec fn spec_parse_value(s: Seq<char>, i: int) -> Option<(JsonV, int)>
    decreases s.len() - i, 0int,
    when 0 <= i <= s.len()
{
    let j = spec_skip_ws(s, i);
    if !(i <= j <= s.len()) {
        None
    } else if j >= s.len() {
        None
    } else if s[j] == '{' {
        let pos = spec_skip_ws(s, j + 1);
        if !(j + 1 <= pos <= s.len()) {
            None
        } else if pos < s.len() && s[pos] == '}' {
            Some((JsonV::Obj(Seq::empty()), pos + 1))
        } else {
            match spec_parse_members(s, pos) {
                Some(p) => Some((JsonV::Obj(p.0), p.1)),
                None => None,
            }
        }
    } else if s[j] == '[' {
        let pos = spec_skip_ws(s, j + 1);
        if !(j + 1 <= pos <= s.len()) {
            None
        } else if pos < s.len() && s[pos] == ']' {
            Some((JsonV::Arr(Seq::empty()), pos + 1))
        } else {
            match spec_parse_elements(s, pos) {
                Some(p) => Some((JsonV::Arr(p.0), p.1)),
                None => None,
            }
        }
    } else if s[j] == '"' {
        match spec_parse_string(s, j) {
            Some(p) => Some((JsonV::Text(p.0), p.1)),
            None => None,
        }
    } else if s[j] == 't' {
        if s.len() - j >= 4 && s[j + 1] == 'r' && s[j + 2] == 'u' && s[j + 3] == 'e' {
            Some((JsonV::Bool(true), j + 4))
        } else {
            None
        }
    } else if s[j] == 'f' {
        if s.len() - j >= 5 && s[j + 1] == 'a' && s[j + 2] == 'l' && s[j + 3] == 's' && s[j + 4]
            == 'e' {
            Some((JsonV::Bool(false), j + 5))
        } else {
            None
        }
    } else if s[j] == 'n' {
        if s.len() - j >= 4 && s[j + 1] == 'u' && s[j + 2] == 'l' && s[j + 3] == 'l' {
            Some((JsonV::Null, j + 4))
        } else {
            None
        }
    } else if s[j] == '-' || is_digit(s[j]) {
        spec_parse_number(s, j)
    } else {
        None
    }
}

/// The members and end position of an object body whose first key's quote
/// stands at `i`; ends after the closing brace.
pub open spec fn spec_parse_members(s: Seq<char>, i: int) -> Option<(Seq<(Seq<char>, JsonV)>, int)>
    decreases s.len() - i, 1int,
    when 0 <= i <= s.len()
{
    if i >= s.len() {
        None
    } else if s[i] != '"' {
        None
    } else {
        match spec_parse_string(s, i) {
            None => None,
            Some(kp) => {
                if !(i < kp.1 <= s.len()) {
                    None
                } else {
                    let colon = spec_skip_ws(s, kp.1);
                    if !(kp.1 <= colon <= s.len()) {
                        None
                    } else if colon >= s.len() || s[colon] != ':' {
                        None
                    } else {
                        match spec_parse_value(s, colon + 1) {
                            None => None,
                            Some(vp) => {
                                if !(colon + 1 <= vp.1 <= s.len()) {
                                    None
                                } else {
                                    let next = spec_skip_ws(s, vp.1);
                                    if !(vp.1 <= next <= s.len()) {
                                        None
                                    } else if next < s.len() && s[next] == ',' {
                                        let new_pos = spec_skip_ws(s, next + 1);
                                        if !(new_pos <= s.len()) {
                                            None
                                        } else if new_pos <= i {
                                            None
                                        } else {
                                            match spec_parse_members(s, new_pos) {
                                                Some(mp) => Some(
                                                    (seq![(kp.0, vp.0)] + mp.0, mp.1),
                                                ),
                                                None => None,
                                            }
                                        }
                                    } else if next < s.len() && s[next] == '}' {
                                        Some((seq![(kp.0, vp.0)], next + 1))
                                    } else {
                                        None
                                    }
                                }
                            },
                        }
                    }
                }
            },
        }
    }
}

/// The elements and end position of an array body whose first element
/// starts at `i`; ends after the closing bracket.
pub open spec fn spec_parse_elements(s: Seq<char>, i: int) -> Option<(Seq<JsonV>, int)>
    decreases s.len() - i, 1int,
    when 0 <= i <= s.len()
{
    match spec_parse_value(s, i) {
        None => None,
        Some(vp) => {
            if !(i < vp.1 <= s.len()) {
                None
            } else {
                let next = spec_skip_ws(s, vp.1);
                if !(vp.1 <= next <= s.len()) {
                    None
                } else if next < s.len() && s[next] == ',' {
                    let new_pos = next + 1;
                    if new_pos <= i {
                        None
                    } else {
                        match spec_parse_elements(s, new_pos) {
                            Some(ep) => Some((seq![vp.0] + ep.0, ep.1)),
                            None => None,
                        }
                    }
                } else if next < s.len() && s[next] == ']' {
                    Some((seq![vp.0], next + 1))
                } else {
                    None
                }
            }
        },
    }
}

/// The spec-level parse of a whole body text: one value, surrounded by
/// optional whitespace, or nothing.
pub open spec fn json_parse(s: Seq<char>) -> Option<JsonV> {
    match spec_parse_value(s, 0) {
        Some(p) => {
            if 0 <= p.1 <= s.len() && spec_skip_ws(s, p.1) == s.len() {
                Some(p.0)
            } else {
                None
            }
        },
        None => None,
    }
}

/// Turn a `u32` into the character it encodes, if any.
///
/// Relies on char::from_u32: `None` exactly for surrogates and values above
/// the highest code point.
#[verifier::external_body]
fn char_from_u32(v: u32) -> (r: Option<char>)
    ensures
        match r {
            Some(c) => c as u32 == v,
            None => (0xD800 <= v && v <= 0xDFFF) || v > 0x10FFFF,
        },
{
    char::from_u32(v)
}

fn skip_ws(cs: &Vec<char>, i: usize) -> (j: usize)
    requires
        i <= cs.len(),
    ensures
        i <= j <= cs@.len(),
        j as int == spec_skip_ws(cs@, i as int),
{
    let mut j = i;
    while j < cs.len() && (cs[j] == ' ' || cs[j] == '\n' || cs[j] == '\t' || cs[j] == '\r')
        invariant
            i <= j <= cs@.len(),
            spec_skip_ws(cs@, i as int) == spec_skip_ws(cs@, j as int),
        decreases cs@.len() - j,
    {
        j = j + 1;
    }
    j
}

fn hex_val(c: char) -> (r: Option<u32>)
    ensures
        r == spec_hex_val(c),
        r matches Some(v) ==> v < 16,
{
    let v = c as u32;
    if 48 <= v && v <= 57 {
        Some(v - 48)
    } else if 97 <= v && v <= 102 {
        Some(v - 97 + 10)
    } else if 65 <= v && v <= 70 {
        Some(v - 65 + 10)
    } else {
        None
    }
}

fn parse_string(cs: &Vec<char>, i: usize) -> (r: Result<(String, usize), DecodeError>)
    requires
        i < cs.len(),
        cs@[i as int] == '"',
    ensures
        r matches Ok(p) ==> spec_parse_string(cs@, i as int) == Some((p.0@, p.1 as int)) && i < p.1
            <= cs@.len(),
        r matches Err(e) ==> spec_parse_string(cs@, i as int) is None && e
            == DecodeError::MalformedJson,
{
    let mut out = String::new();
    let mut pos = i + 1;
    loop
        invariant
            i < pos <= cs@.len(),
            cs@[i as int] == '"',
            i < cs@.len(),
            spec_string_body(cs@, i as int + 1) == (match spec_string_body(cs@, pos as int) {
                Some(p) => Some::<(Seq<char>, int)>((out@ + p.0, p.1)),
                None => None::<(Seq<char>, int)>,
            }),
        decreases cs@.len() - pos,
    {
        if pos >= cs.len() {
            return Err(DecodeError::MalformedJson);
        }
        let c = cs[pos];
        if c == '"' {
            proof {
                assert(out@ + Seq::<char>::empty() =~= out@);
            }
            return Ok((out, pos + 1));
        }
        if c == '\\' {
            if cs.len() - pos < 2 {
                return Err(DecodeError::MalformedJson);
            }
            let e = cs[pos + 1];
            if e == 'u' {
                if cs.len() - pos < 6 {
                    return Err(DecodeError::MalformedJson);
                }
                let d0 = match hex_val(cs[pos + 2]) {
                    Some(d) => d,
                    None => {
                        return Err(DecodeError::MalformedJson);
                    },
                };
                let d1 = match hex_val(cs[pos + 3]) {
                    Some(d) => d,
                    None => {
                        return Err(DecodeError::MalformedJson);
                    },
                };
                let d2 = match hex_val(cs[pos + 4]) {
                    Some(d) => d,
                    None => {
                        return Err(DecodeError::MalformedJson);
                    },
                };
                let d3 = match hex_val(cs[pos + 5]) {
                    Some(d) => d,
                    None => {
                        return Err(DecodeError::MalformedJson);
                    },
                };
                let code: u32 = ((d0 * 16 + d1) * 16 + d2) * 16 + d3;
                if 0xD800 <= code && code <= 0xDFFF {
                    return Err(DecodeError::MalformedJson);
                }
                let ch = match char_from_u32(code) {
                    Some(ch) => ch,
                    None => {
                        return Err(DecodeError::MalformedJson);
                    },
                };
                proof {
                    vstd::utf8::char_u32_cast(ch, code);
                    match spec_string_body(cs@, pos as int + 6) {
                        Some(p) => {
                            assert(out@ + (seq![ch] + p.0) =~= out@.push(ch) + p.0);
                        },
                        None => {},
                    }
                }
                push_char(&mut out, ch);
                pos = pos + 6;
            } else {
                let ch: char = if e == '"' {
                    '"'
                } else if e == '\\' {
                    '\\'
                } else if e == '/' {
                    '/'
                } else if e == 'b' {
                    '\u{0008}'
                } else if e == 'f' {
                    '\u{000C}'
                } else if e == 'n' {
                    '\n'
                } else if e == 'r' {
                    '\r'
                } else if e == 't' {
                    '\t'
                } else {
                    return Err(DecodeError::MalformedJson);
                };
                proof {
                    assert(esc_char(cs@[pos + 1]) == Some(ch));
                    match spec_string_body(cs@, pos as int + 2) {
                        Some(p) => {
                            assert(out@ + (seq![ch] + p.0) =~= out@.push(ch) + p.0);
                        },
                        None => {},
                    }
                }
                push_char(&mut out, ch);
                pos = pos + 2;
            }
        } else {
            proof {
                match spec_string_body(cs@, pos as int + 1) {
                    Some(p) => {
                        assert(out@ + (seq![c] + p.0) =~= out@.push(c) + p.0);
                    },
                    None => {},
                }
            }
            push_char(&mut out, c);
            pos = pos + 1;
        }
    }
}

fn is_digit_char(c: char) -> (r: bool)
    ensures
        r == is_digit(c),
{
    let v = c as u32;
    48 <= v && v <= 57
}

fn chars_to_string(cs: &Vec<char>, from: usize, to: usize) -> (s: String)
    requires
        from <= to <= cs.len(),
    ensures
        s@ == cs@.subrange(from as int, to as int),
{
    let mut s = String::new();
    let mut k = from;
    proof {
        assert(cs@.subrange(from as int, from as int) =~= Seq::<char>::empty());
    }
    while k < to
        invariant
            from <= k <= to <= cs@.len(),
            s@ == cs@.subrange(from as int, k as int),
        decreases to - k,
    {
        push_char(&mut s, cs[k]);
        proof {
            assert(cs@.subrange(from as int, k as int + 1) =~= cs@.subrange(
                from as int,
                k as int,
            ).push(cs@[k as int]));
        }
        k = k + 1;
    }
    s
}

fn scan_digits(cs: &Vec<char>, i: usize) -> (j: usize)
    requires
        i <= cs.len(),
    ensures
        i <= j <= cs@.len(),
        j as int == spec_digits_end(cs@, i as int),
{
    let mut j = i;
    while j < cs.len() && is_digit_char(cs[j])
        invariant
            i <= j <= cs@.len(),
            spec_digits_end(cs@, i as int) == spec_digits_end(cs@, j as int),
        decreases cs@.len() - j,
    {
        j = j + 1;
    }
    j
}

proof fn lemma_pow10_18()
    ensures
        pow10(18) == 1_000_000_000_000_000_000,
{
    lemma_pow10_values();
    assert(pow10(10) == 10_000_000_000);
    assert(pow10(11) == 100_000_000_000);
    assert(pow10(12) == 1_000_000_000_000);
    assert(pow10(13) == 10_000_000_000_000);
    assert(pow10(14) == 100_000_000_000_000);
    assert(pow10(15) == 1_000_000_000_000_000);
    assert(pow10(16) == 10_000_000_000_000_000);
    assert(pow10(17) == 100_000_000_000_000_000);
    assert(pow10(18) == 1_000_000_000_000_000_000);
}

fn parse_number(cs: &Vec<char>, i: usize) -> (r: Result<(Json, usize), DecodeError>)
    requires
        i < cs.len(),
    ensures
        r matches Ok(p) ==> spec_parse_number(cs@, i as int) == Some((p.0@, p.1 as int)) && i < p.1
            <= cs@.len(),
        r matches Err(e) ==> spec_parse_number(cs@, i as int) is None && e
            == DecodeError::MalformedJson,
{
    let mut pos = i;
    let negative = cs[pos] == '-';
    if negative {
        pos = pos + 1;
    }
    let digits_start = pos;
    pos = scan_digits(cs, pos);
    if pos == digits_start {
        return Err(DecodeError::MalformedJson);
    }
    let digits_end = pos;
    let mut plain_int = true;
    if pos < cs.len() && cs[pos] == '.' {
        plain_int = false;
        let fs = pos + 1;
        pos = scan_digits(cs, fs);
        if pos == fs {
            return Err(DecodeError::MalformedJson);
        }
    }
    if pos < cs.len() && (cs[pos] == 'e' || cs[pos] == 'E') {
        plain_int = false;
        pos = pos + 1;
        if pos < cs.len() && (cs[pos] == '+' || cs[pos] == '-') {
            pos = pos + 1;
        }
        let es = pos;
        pos = scan_digits(cs, es);
        if pos == es {
            return Err(DecodeError::MalformedJson);
        }
    }
    if plain_int && digits_end - digits_start <= 18 {
        proof {
            lemma_spec_digits_end(cs@, digits_start as int);
            lemma_pow10_18();
        }
        let mut magnitude: u64 = 0;
        let mut k = digits_start;
        while k < digits_end
            invariant
                digits_start <= k <= digits_end,
                digits_end <= cs.len(),
                digits_end - digits_start <= 18,
                forall|m: int| digits_start <= m < digits_end ==> is_digit(#[trigger] cs@[m]),
                magnitude as int == digits_val(cs@.subrange(digits_start as int, k as int)),
                (magnitude as int) < pow10((k - digits_start) as nat),
                pow10(18) == 1_000_000_000_000_000_000,
            decreases digits_end - k,
        {
            let c = cs[k];
            let d = (c as u32) - 48;
            proof {
                let pre = cs@.subrange(digits_start as int, k as int);
                let post = cs@.subrange(digits_start as int, k as int + 1);
                assert(post.drop_last() =~= pre);
                assert(post.last() == cs@[k as int]);
                assert(pow10(((k + 1) - digits_start) as nat) == 10 * pow10(
                    (k - digits_start) as nat,
                ));
                assert((magnitude as int) * 10 + d < 10 * pow10((k - digits_start) as nat))
                    by (nonlinear_arith)
                    requires
                        (magnitude as int) < pow10((k - digits_start) as nat),
                        0 <= d <= 9,
                        magnitude >= 0;
                crate::timestamp::lemma_pow10_le(((k + 1) - digits_start) as nat, 18);
            }
            magnitude = magnitude * 10 + (d as u64);
            k = k + 1;
        }
        proof {
            crate::timestamp::lemma_pow10_le((digits_end - digits_start) as nat, 18);
        }
        let value: i64 = if negative {
            -(magnitude as i64)
        } else {
            magnitude as i64
        };
        return Ok((Json::Int(value), pos));
    }
    let text = chars_to_string(cs, i, pos);
    Ok((Json::NumText(text), pos))
}

fn parse_value(cs: &Vec<char>, i: usize) -> (r: Result<(Json, usize), DecodeError>)
    requires
        i <= cs.len(),
    ensures
        r matches Ok(p) ==> spec_parse_value(cs@, i as int) == Some((p.0@, p.1 as int)) && i < p.1
            <= cs@.len(),
        r matches Err(e) ==> spec_parse_value(cs@, i as int) is None && e
            == DecodeError::MalformedJson,
    decreases cs@.len() - i,
{
    let j = skip_ws(cs, i);
    if j >= cs.len() {
        return Err(DecodeError::MalformedJson);
    }
    let c = cs[j];
    if c == '{' {
        let mut fields: Vec<JsonField> = Vec::new();
        let mut pos = skip_ws(cs, j + 1);
        if pos < cs.len() && cs[pos] == '}' {
            proof {
                lemma_json_view_fields(fields);
                assert(json_view_fields(fields) =~= Seq::<(Seq<char>, JsonV)>::empty());
            }
            return Ok((Json::Obj(fields), pos + 1));
        }
        loop
            invariant
                i < pos <= cs@.len(),
                spec_parse_value(cs@, i as int) == (match spec_parse_members(cs@, pos as int) {
                    Some(p) => Some::<(JsonV, int)>(
                        (JsonV::Obj(json_view_fields(fields) + p.0), p.1),
                    ),
                    None => None::<(JsonV, int)>,
                }),
            decreases cs@.len() - pos,
        {
            if pos >= cs.len() {
                return Err(DecodeError::MalformedJson);
            }
            if !(cs[pos] == '"') {
                return Err(DecodeError::MalformedJson);
            }
            let (key, after_key) = parse_string(cs, pos)?;
            let colon = skip_ws(cs, after_key);
            if colon >= cs.len() || !(cs[colon] == ':') {
                return Err(DecodeError::MalformedJson);
            }
            let (value, after_value) = parse_value(cs, colon + 1)?;
            let ghost old_fields = fields;
            let ghost member = (key@, json_view(value));
            let ghost field_rec = JsonField { key: key, value: value };
            fields.push(JsonField { key, value });
            proof {
                lemma_json_view_fields_push(old_fields, fields, field_rec);
            }
            let next = skip_ws(cs, after_value);
            if next < cs.len() && cs[next] == ',' {
                let new_pos = skip_ws(cs, next + 1);
                if new_pos <= pos {
                    return Err(DecodeError::MalformedJson);
                }
                proof {
                    match spec_parse_members(cs@, new_pos as int) {
                        Some(p) => {
                            assert(json_view_fields(old_fields) + (seq![member] + p.0)
                                =~= json_view_fields(fields) + p.0);
                        },
                        None => {},
                    }
                }
                pos = new_pos;
            } else if next < cs.len() && cs[next] == '}' {
                proof {
                    assert(json_view_fields(old_fields) + seq![member] =~= json_view_fields(
                        fields,
                    ));
                }
                return Ok((Json::Obj(fields), next + 1));
            } else {
                return Err(DecodeError::MalformedJson);
            }
        }
    } else if c == '[' {
        let mut items: Vec<Json> = Vec::new();
        let mut pos = skip_ws(cs, j + 1);
        if pos < cs.len() && cs[pos] == ']' {
            proof {
                lemma_json_view_items(items);
                assert(json_view_items(items) =~= Seq::<JsonV>::empty());
            }
            return Ok((Json::Arr(items), pos + 1));
        }
        loop
            invariant
                i < pos <= cs@.len(),
                spec_parse_value(cs@, i as int) == (match spec_parse_elements(cs@, pos as int) {
                    Some(p) => Some::<(JsonV, int)>(
                        (JsonV::Arr(json_view_items(items) + p.0), p.1),
                    ),
                    None => None::<(JsonV, int)>,
                }),
            decreases cs@.len() - pos,
        {
            let (value, after_value) = parse_value(cs, pos)?;
            let ghost old_items = items;
            let ghost element = json_view(value);
            items.push(value);
            proof {
                lemma_json_view_items_push(old_items, items, value);
            }
            let next = skip_ws(cs, after_value);
            if next < cs.len() && cs[next] == ',' {
                let new_pos = next + 1;
                if new_pos <= pos {
                    return Err(DecodeError::MalformedJson);
                }
                proof {
                    match spec_parse_elements(cs@, new_pos as int) {
                        Some(p) => {
                            assert(json_view_items(old_items) + (seq![element] + p.0)
                                =~= json_view_items(items) + p.0);
                        },
                        None => {},
                    }
                }
                pos = new_pos;
            } else if next < cs.len() && cs[next] == ']' {
                proof {
                    assert(json_view_items(old_items) + seq![element] =~= json_view_items(items));
                }
                return Ok((Json::Arr(items), next + 1));
            } else {
                return Err(DecodeError::MalformedJson);
            }
        }
    } else if c == '"' {
        let (text, after) = parse_string(cs, j)?;
        Ok((Json::Text(text), after))
    } else if c == 't' {
        if cs.len() - j >= 4 && cs[j + 1] == 'r' && cs[j + 2] == 'u' && cs[j + 3] == 'e' {
            Ok((Json::Bool(true), j + 4))
        } else {
            Err(DecodeError::MalformedJson)
        }
    } else if c == 'f' {
        if cs.len() - j >= 5 && cs[j + 1] == 'a' && cs[j + 2] == 'l' && cs[j + 3] == 's' && cs[j
            + 4] == 'e' {
            Ok((Json::Bool(false), j + 5))
        } else {
            Err(DecodeError::MalformedJson)
        }
    } else if c == 'n' {
        if cs.len() - j >= 4 && cs[j + 1] == 'u' && cs[j + 2] == 'l' && cs[j + 3] == 'l' {
            Ok((Json::Null, j + 4))
        } else {
            Err(DecodeError::MalformedJson)
        }
    } else if c == '-' || is_digit_char(c) {
        parse_number(cs, j)
    } else {
        Err(DecodeError::MalformedJson)
    }
}

/// Tokenize a whole response body into a JSON tree. The result is exactly
/// the spec-level parse `json_parse` of the body text: a tree whose view is
/// that parse on success, a malformed-JSON failure otherwise.
pub fn parse_json(s: &str) -> (r: Result<Json, DecodeError>)
    ensures
        r matches Ok(t) ==> json_parse(s@) == Some(t@),
        r matches Err(e) ==> json_parse(s@) is None && e == DecodeError::MalformedJson,
{
    let cs = str_to_chars(s);
    match parse_value(&cs, 0) {
        Ok((value, j)) => {
            let k = skip_ws(&cs, j);
            if k == cs.len() {
                Ok(value)
            } else {
                Err(DecodeError::MalformedJson)
            }
        },
        Err(e) => Err(e),
    }
}

} // verus!
