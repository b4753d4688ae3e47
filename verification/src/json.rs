//! A JSON document model: the values that the platforms' API responses hold,
//! with the accessors that the extraction logic uses.

use vstd::prelude::*;
use vstd::string::*;
use serde_json::Value;
use crate::text::{chars_of, digit_char, push_char, string_of, dec_int, dec_nat, fmt_i64, fmt_u64, parse_i64, spec_parse_i64};

verus! {

/// A JSON number: a non-negative integer, a negative integer, or a
/// floating-point number carried by the text that serde_json prints for it.
#[derive(Clone, Debug)]
pub enum JsonNumber {
    PosInt(u64),
    NegInt(i64),
    Float(String),
}

/// A JSON value. Object entries keep the order in which the document lists
/// them.
pub enum JsonValue {
    Null,
    Bool(bool),
    Number(JsonNumber),
    String(String),
    Array(Vec<JsonValue>),
    Object(Vec<(String, JsonValue)>),
}

/// First entry of an object with the given key.
pub open spec fn entries_get(es: Seq<(String, JsonValue)>, key: Seq<char>) -> Option<JsonValue>
    decreases es.len(),
{
    if es.len() == 0 {
        None
    } else if es[0].0@ == key {
        Some(es[0].1)
    } else {
        entries_get(es.drop_first(), key)
    }
}

/// `value.get(key)`: the member of an object, `None` for other values.
pub open spec fn spec_get(v: JsonValue, key: Seq<char>) -> Option<JsonValue> {
    match v {
        JsonValue::Object(es) => entries_get(es@, key),
        _ => None,
    }
}

/// Member lookup through an optional value (`opt.and_then(|v| v.get(key))`).
pub open spec fn spec_get_opt(v: Option<JsonValue>, key: Seq<char>) -> Option<JsonValue> {
    match v {
        Some(x) => spec_get(x, key),
        None => None,
    }
}

pub open spec fn spec_as_i64(v: JsonValue) -> Option<int> {
    match v {
        JsonValue::Number(JsonNumber::PosInt(n)) => if n <= i64::MAX { Some(n as int) } else { None },
        JsonValue::Number(JsonNumber::NegInt(n)) => Some(n as int),
        _ => None,
    }
}

pub open spec fn spec_as_str(v: JsonValue) -> Option<Seq<char>> {
    match v {
        JsonValue::String(s) => Some(s@),
        _ => None,
    }
}

pub open spec fn spec_as_bool(v: JsonValue) -> Option<bool> {
    match v {
        JsonValue::Bool(b) => Some(b),
        _ => None,
    }
}

pub open spec fn spec_as_array(v: JsonValue) -> Option<Seq<JsonValue>> {
    match v {
        JsonValue::Array(a) => Some(a@),
        _ => None,
    }
}

/// The string member `key` of an optional value.
pub open spec fn spec_str_at(v: Option<JsonValue>, key: Seq<char>) -> Option<Seq<char>> {
    match spec_get_opt(v, key) {
        Some(x) => spec_as_str(x),
        None => None,
    }
}

impl JsonValue {
    /// Member of an object by key (serde_json `Value::get` with a `&str`).
    pub fn get(&self, key: &str) -> (r: Option<&JsonValue>)
        ensures
            r matches Some(x) ==> spec_get(*self, key@) == Some(*x),
            r is None ==> spec_get(*self, key@) is None,
    {
        match self {
            JsonValue::Object(es) => {
                let mut i: usize = 0;
                assert(es@.skip(0) =~= es@);
                while i < es.len()
                    invariant
                        i <= es@.len(),
                        entries_get(es@, key@) == entries_get(es@.skip(i as int), key@),
                        spec_get(*self, key@) == entries_get(es@, key@),
                    decreases es@.len() - i,
                {
                    assert(es@.skip(i as int).drop_first() =~= es@.skip(i + 1));
                    if str_eq(es[i].0.as_str(), key) {
                        assert(es@.skip(i as int)[0] == es@[i as int]);
                        assert(es@.skip(i as int).len() > 0);
                        assert(es@[i as int].0@ == key@);
                        assert(entries_get(es@.skip(i as int), key@) == Some(es@[i as int].1));
                        return Some(&es[i].1);
                    }
                    i += 1;
                }
                None
            },
            _ => None,
        }
    }

    pub fn as_i64(&self) -> (r: Option<i64>)
        ensures
            r matches Some(x) ==> spec_as_i64(*self) == Some(x as int),
            r is None ==> spec_as_i64(*self) is None,
    {
        match self {
            JsonValue::Number(JsonNumber::PosInt(n)) => if *n <= 9223372036854775807u64 {
                Some(*n as i64)
            } else {
                None
            },
            JsonValue::Number(JsonNumber::NegInt(n)) => Some(*n),
            _ => None,
        }
    }

    pub fn as_str(&self) -> (r: Option<&str>)
        ensures
            r matches Some(x) ==> spec_as_str(*self) == Some(x@),
            r is None ==> spec_as_str(*self) is None,
    {
        match self {
            JsonValue::String(s) => Some(s.as_str()),
            _ => None,
        }
    }

    pub fn as_bool(&self) -> (r: Option<bool>)
        ensures
            r == spec_as_bool(*self),
    {
        match self {
            JsonValue::Bool(b) => Some(*b),
            _ => None,
        }
    }

    pub fn as_array(&self) -> (r: Option<&Vec<JsonValue>>)
        ensures
            r matches Some(a) ==> spec_as_array(*self) == Some(a@),
            r is None ==> spec_as_array(*self) is None,
    {
        match self {
            JsonValue::Array(a) => Some(a),
            _ => None,
        }
    }
}

/// Member lookup through an optional reference.
pub fn get_opt<'a>(v: Option<&'a JsonValue>, key: &str) -> (r: Option<&'a JsonValue>)
    ensures
        r matches Some(x) ==> spec_get_opt(opt_val(v), key@) == Some(*x),
        r is None ==> spec_get_opt(opt_val(v), key@) is None,
{
    match v {
        Some(x) => x.get(key),
        None => None,
    }
}

/// The value behind an optional reference.
pub open spec fn opt_val(v: Option<&JsonValue>) -> Option<JsonValue> {
    match v {
        Some(x) => Some(*x),
        None => None,
    }
}

/// The string member `key` of an optional value.
pub fn str_at<'a>(v: Option<&'a JsonValue>, key: &str) -> (r: Option<&'a str>)
    ensures
        r matches Some(s) ==> spec_str_at(opt_val(v), key@) == Some(s@),
        r is None ==> spec_str_at(opt_val(v), key@) is None,
{
    match get_opt(v, key) {
        Some(x) => x.as_str(),
        None => None,
    }
}

/// String equality on characters.
pub fn str_eq(a: &str, b: &str) -> (r: bool)
    ensures
        r == (a@ == b@),
{
    let ca = chars_of(a);
    let cb = chars_of(b);
    if ca.len() != cb.len() {
        return false;
    }
    let mut i: usize = 0;
    while i < ca.len()
        invariant
            ca@ == a@,
            cb@ == b@,
            ca@.len() == cb@.len(),
            i <= ca@.len(),
            forall|k: int| 0 <= k < i ==> ca@[k] == cb@[k],
        decreases ca@.len() - i,
    {
        if ca[i] != cb[i] {
            return false;
        }
        i += 1;
    }
    assert(ca@ =~= cb@);
    true
}

/// Integer reading of an API field that may hold a JSON number, a numeric
/// string or a boolean.
pub open spec fn spec_json_int(v: Option<JsonValue>) -> Option<int> {
    match v {
        None => None,
        Some(x) => match spec_as_i64(x) {
            Some(n) => Some(n),
            None => match spec_as_str(x) {
                Some(s) => spec_parse_i64(s),
                None => match spec_as_bool(x) {
                    Some(b) => Some(if b { 1int } else { 0int }),
                    None => None,
                },
            },
        },
    }
}

/// Integer reading of an API field that may hold a JSON number, a numeric
/// string or a boolean.
pub fn json_int(v: Option<&JsonValue>) -> (r: Option<i64>)
    ensures
        r matches Some(n) ==> spec_json_int(opt_val(v)) == Some(n as int),
        r is None ==> spec_json_int(opt_val(v)) is None,
{
    let x = match v {
        Some(x) => x,
        None => return None,
    };
    match x.as_i64() {
        Some(n) => Some(n),
        None => match x.as_str() {
            Some(s) => parse_i64(s),
            None => match x.as_bool() {
                Some(b) => Some(if b { 1i64 } else { 0i64 }),
                None => None,
            },
        },
    }
}

/// Whether an optional field reads as a positive integer.
pub open spec fn spec_json_timestamp_positive(v: Option<JsonValue>) -> bool {
    match spec_json_int(v) {
        Some(n) => n > 0,
        None => false,
    }
}

/// Whether an optional field reads as a positive integer.
pub fn json_timestamp_positive(v: Option<&JsonValue>) -> (r: bool)
    ensures
        r == spec_json_timestamp_positive(opt_val(v)),
{
    match json_int(v) {
        Some(n) => n > 0,
        None => false,
    }
}

/// The text of a JSON number as serde_json prints it.
pub open spec fn number_text(n: JsonNumber) -> Seq<char> {
    match n {
        JsonNumber::PosInt(u) => dec_nat(u as nat),
        JsonNumber::NegInt(i) => dec_int(i as int),
        JsonNumber::Float(t) => t@,
    }
}

pub fn number_to_string(n: &JsonNumber) -> (r: String)
    ensures
        r@ == number_text(*n),
{
    match n {
        JsonNumber::PosInt(u) => fmt_u64(*u),
        JsonNumber::NegInt(i) => fmt_i64(*i),
        JsonNumber::Float(t) => t.clone(),
    }
}

/// An identifier field that may arrive as a JSON string or number.
pub open spec fn spec_value_to_id_string(v: JsonValue) -> Option<Seq<char>> {
    match v {
        JsonValue::String(s) => Some(s@),
        JsonValue::Number(n) => Some(number_text(n)),
        _ => None,
    }
}

/// An identifier field that may arrive as a JSON string or number.
pub fn value_to_id_string(v: &JsonValue) -> (r: Option<String>)
    ensures
        r matches Some(s) ==> spec_value_to_id_string(*v) == Some(s@),
        r is None ==> spec_value_to_id_string(*v) is None,
{
    match v {
        JsonValue::String(s) => Some(s.clone()),
        JsonValue::Number(n) => Some(number_to_string(n)),
        _ => None,
    }
}

/// A hexadecimal digit in lower case.
pub open spec fn hex_digit(n: int) -> char {
    if n < 10 {
        digit_char(n)
    } else {
        (n - 10 + 97) as char
    }
}

/// How serde_json writes one character inside a string literal.
pub open spec fn escape_char(c: char) -> Seq<char> {
    if c == '"' {
        seq!['\\', '"']
    } else if c == '\\' {
        seq!['\\', '\\']
    } else if c == '\u{8}' {
        seq!['\\', 'b']
    } else if c == '\t' {
        seq!['\\', 't']
    } else if c == '\n' {
        seq!['\\', 'n']
    } else if c == '\u{c}' {
        seq!['\\', 'f']
    } else if c == '\r' {
        seq!['\\', 'r']
    } else if (c as int) < 32 {
        seq!['\\', 'u', '0', '0', hex_digit((c as int) / 16), hex_digit((c as int) % 16)]
    } else {
        seq![c]
    }
}

/// The escaped contents of a string literal.
pub open spec fn escape_str(s: Seq<char>) -> Seq<char>
    decreases s.len(),
{
    if s.len() == 0 {
        Seq::empty()
    } else {
        escape_str(s.drop_last()) + escape_char(s.last())
    }
}

/// A JSON string literal.
pub open spec fn quoted(s: Seq<char>) -> Seq<char> {
    seq!['"'] + escape_str(s) + seq!['"']
}

fn hex(n: u32) -> (c: char)
    requires
        n < 16,
    ensures
        c == hex_digit(n as int),
{
    if n < 10 {
        ((n + 48) as u8) as char
    } else {
        ((n - 10 + 97) as u8) as char
    }
}

fn push_escaped_char(out: &mut String, c: char)
    ensures
        final(out)@ == old(out)@ + escape_char(c),
{
    let ghost o = out@;
    if c == '"' {
        push_char(out, '\\');
        push_char(out, '"');
    } else if c == '\\' {
        push_char(out, '\\');
        push_char(out, '\\');
    } else if c == '\u{8}' {
        push_char(out, '\\');
        push_char(out, 'b');
    } else if c == '\t' {
        push_char(out, '\\');
        push_char(out, 't');
    } else if c == '\n' {
        push_char(out, '\\');
        push_char(out, 'n');
    } else if c == '\u{c}' {
        push_char(out, '\\');
        push_char(out, 'f');
    } else if c == '\r' {
        push_char(out, '\\');
        push_char(out, 'r');
    } else if (c as u32) < 32 {
        let v = c as u32;
        push_char(out, '\\');
        push_char(out, 'u');
        push_char(out, '0');
        push_char(out, '0');
        push_char(out, hex(v / 16));
        push_char(out, hex(v % 16));
    } else {
        push_char(out, c);
    }
    assert(out@ =~= o + escape_char(c));
}

/// Appends a JSON string literal for `s`.
pub fn push_quoted(out: &mut String, s: &str)
    ensures
        final(out)@ == old(out)@ + quoted(s@),
{
    let cs = chars_of(s);
    let ghost start = out@;
    push_char(out, '"');
    let mut i: usize = 0;
    while i < cs.len()
        invariant
            cs@ == s@,
            i <= cs@.len(),
            out@ == start + seq!['"'] + escape_str(cs@.take(i as int)),
        decreases cs@.len() - i,
    {
        assert(cs@.take(i + 1).drop_last() =~= cs@.take(i as int));
        push_escaped_char(out, cs[i]);
        i += 1;
        assert(out@ =~= start + seq!['"'] + escape_str(cs@.take(i as int)));
    }
    assert(cs@.take(cs@.len() as int) =~= s@);
    push_char(out, '"');
    assert(out@ =~= start + quoted(s@));
}

/// What serde_json prints for a value (`Value::to_string`, the compact form)
/// once it is held as serde_json's `Value`: members of an object in key order,
/// a repeated key kept once with its last value.
pub uninterp spec fn serde_json_compact(v: JsonValue) -> Seq<char>;

/// serde_json's value type, carried through the wrappers below.
#[verifier::external_type_specification]
#[verifier::external_body]
pub struct ExSerdeValue(Value);

/// A value of this model as serde_json's `Value`, one for one; a floating-point
/// number is read back with serde_json from the text it printed for it.
#[verifier::external_body]
fn serde_value_of(v: &JsonValue) -> Value {
    match v {
        JsonValue::Null => Value::Null,
        JsonValue::Bool(b) => Value::Bool(*b),
        JsonValue::Number(JsonNumber::PosInt(n)) => Value::from(*n),
        JsonValue::Number(JsonNumber::NegInt(n)) => Value::from(*n),
        JsonValue::Number(JsonNumber::Float(t)) => serde_json::from_str(t).unwrap_or(Value::Null),
        JsonValue::String(t) => Value::String(t.clone()),
        JsonValue::Array(a) => Value::Array(a.iter().map(serde_value_of).collect()),
        JsonValue::Object(es) => Value::Object(es.iter().map(|(k, x)| (k.clone(), serde_value_of(x))).collect()),
    }
}

/// The compact JSON text of a value: serde_json's `Value::to_string` of it.
#[verifier::external_body]
fn compact_json(v: &JsonValue) -> (r: String)
    ensures
        r@ == serde_json_compact(*v),
{
    serde_value_of(v).to_string()
}

/// The compact JSON text of a value, as serde_json prints it.
pub fn to_json_string(v: &JsonValue) -> (r: String)
    ensures
        r@ == serde_json_compact(*v),
{
    compact_json(v)
}

/// `s` with every leading `c` removed.
pub open spec fn strip_leading(s: Seq<char>, c: char) -> Seq<char>
    decreases s.len(),
{
    if s.len() > 0 && s[0] == c {
        strip_leading(s.drop_first(), c)
    } else {
        s
    }
}

/// `s` with every trailing `c` removed.
pub open spec fn strip_trailing(s: Seq<char>, c: char) -> Seq<char>
    decreases s.len(),
{
    if s.len() > 0 && s.last() == c {
        strip_trailing(s.drop_last(), c)
    } else {
        s
    }
}

/// std's `trim_matches(c)` for one character.
pub open spec fn trim_char(s: Seq<char>, c: char) -> Seq<char> {
    strip_trailing(strip_leading(s, c), c)
}

/// std's `trim_matches(c)` for one character.
pub fn trim_matches_char(s: &str, c: char) -> (r: String)
    ensures
        r@ == trim_char(s@, c),
{
    let cs = chars_of(s);
    let mut a: usize = 0;
    assert(s@.skip(0) =~= s@);
    while a < cs.len() && cs[a] == c
        invariant
            cs@ == s@,
            a <= cs@.len(),
            strip_leading(s@, c) == strip_leading(s@.skip(a as int), c),
        decreases cs@.len() - a,
    {
        assert(s@.skip(a as int).drop_first() =~= s@.skip(a + 1));
        a += 1;
    }
    let mut b: usize = cs.len();
    let ghost lead = s@.skip(a as int);
    assert(strip_leading(lead, c) == lead);
    while b > a && cs[b - 1] == c
        invariant
            cs@ == s@,
            a <= b <= cs@.len(),
            lead == s@.skip(a as int),
            strip_trailing(lead, c) == strip_trailing(s@.subrange(a as int, b as int), c),
        decreases b,
    {
        assert(s@.subrange(a as int, b as int).drop_last() =~= s@.subrange(a as int, b - 1));
        b -= 1;
    }
    if b == cs.len() {
        assert(s@.subrange(a as int, b as int) =~= lead);
    }
    let r = string_of(&cs.as_slice()[a..b]);
    assert(r@ =~= s@.subrange(a as int, b as int));
    r
}

/// An identifier as the platforms' clients read it: the value's JSON text with
/// the surrounding quotes of a string removed (`v.to_string().trim_matches('"')`).
pub open spec fn spec_id_text(v: JsonValue) -> Seq<char> {
    trim_char(serde_json_compact(v), '"')
}

/// An identifier as the platforms' clients read it.
pub fn id_text(v: &JsonValue) -> (r: String)
    ensures
        r@ == spec_id_text(*v),
{
    let t = to_json_string(v);
    trim_matches_char(t.as_str(), '"')
}

} // verus!
