use vstd::prelude::*;
use crate::text::{chars_of, parse_u64, parsed_u64, str_eq};

verus! {

broadcast use vstd::std_specs::vec::group_vec_axioms;

/// A JSON number as `serde_json` reports it: its value as `u64` and as `i64`
/// where it is an integer in range, and its decimal text.
#[derive(Debug, Clone)]
pub struct JsonNumber {
    pub as_u64: Option<u64>,
    pub as_i64: Option<i64>,
    pub text: String,
}

/// A JSON value. Object members keep the order in which the parser yields them.
#[derive(Debug)]
pub enum JsonValue {
    Null,
    Bool(bool),
    Number(JsonNumber),
    Text(String),
    Array(Vec<JsonValue>),
    Object(Vec<(String, JsonValue)>),
}

/// The first member of `members` named `key`.
pub open spec fn member(members: Seq<(String, JsonValue)>, key: Seq<char>) -> Option<JsonValue>
    decreases members.len(),
{
    if members.len() == 0 {
        None
    } else if members[0].0@ == key {
        Some(members[0].1)
    } else {
        member(members.drop_first(), key)
    }
}

/// `value[key]` when `value` is an object holding `key`.
pub open spec fn get_spec(value: JsonValue, key: Seq<char>) -> Option<JsonValue> {
    match value {
        JsonValue::Object(members) => member(members@, key),
        _ => None,
    }
}

/// The text of a JSON string.
pub open spec fn str_spec(value: JsonValue) -> Option<Seq<char>> {
    match value {
        JsonValue::Text(s) => Some(s@),
        _ => None,
    }
}

/// The value of a JSON boolean.
pub open spec fn bool_spec(value: JsonValue) -> Option<bool> {
    match value {
        JsonValue::Bool(b) => Some(b),
        _ => None,
    }
}

/// The value of a JSON number that is an `i64`.
pub open spec fn i64_spec(value: JsonValue) -> Option<i64> {
    match value {
        JsonValue::Number(n) => n.as_i64,
        _ => None,
    }
}

/// The value of a JSON number that is a `u64`.
pub open spec fn u64_spec(value: JsonValue) -> Option<u64> {
    match value {
        JsonValue::Number(n) => n.as_u64,
        _ => None,
    }
}

impl JsonValue {
    /// `value.get(key)`: the member `key` of an object.
    pub fn get(&self, key: &str) -> (r: Option<&JsonValue>)
        ensures
            match r {
                Some(v) => get_spec(*self, key@) == Some(*v),
                None => get_spec(*self, key@) is None,
            },
    {
        match self {
            JsonValue::Object(members) => {
                let mut i: usize = 0;
                assert(members@.skip(0) == members@);
                while i < members.len()
                    invariant
                        i <= members.len(),
                        get_spec(*self, key@) == member(members@, key@),
                        member(members@, key@) == member(members@.skip(i as int), key@),
                    decreases members.len() - i,
                {
                    assert(members@.skip(i as int).drop_first() == members@.skip(i + 1));
                    assert(members@.skip(i as int)[0] == members@[i as int]);
                    let pair = &members[i];
                    if str_eq(pair.0.as_str(), key) {
                        assert(member(members@.skip(i as int), key@) == Some(pair.1));
                        return Some(&pair.1);
                    }
                    i = i + 1;
                }
                None
            },
            _ => None,
        }
    }

    /// The text of a JSON string.
    pub fn as_str(&self) -> (r: Option<&str>)
        ensures
            match r {
                Some(s) => str_spec(*self) == Some(s@),
                None => str_spec(*self) is None,
            },
    {
        match self {
            JsonValue::Text(s) => Some(s.as_str()),
            _ => None,
        }
    }

    /// The value of a JSON boolean.
    pub fn as_bool(&self) -> (r: Option<bool>)
        ensures
            r == bool_spec(*self),
    {
        match self {
            JsonValue::Bool(b) => Some(*b),
            _ => None,
        }
    }

    /// The value of an integer that fits in `i64`.
    pub fn as_i64(&self) -> (r: Option<i64>)
        ensures
            r == i64_spec(*self),
    {
        match self {
            JsonValue::Number(n) => n.as_i64,
            _ => None,
        }
    }

    /// The value of a non-negative integer that fits in `u64`.
    pub fn as_u64(&self) -> (r: Option<u64>)
        ensures
            r == u64_spec(*self),
    {
        match self {
            JsonValue::Number(n) => n.as_u64,
            _ => None,
        }
    }
}

/// The first of `keys` under which `members` holds a non-empty string.
pub open spec fn direct_string(members: Seq<(String, JsonValue)>, keys: Seq<Seq<char>>) -> Option<Seq<char>>
    decreases keys.len(),
{
    if keys.len() == 0 {
        None
    } else {
        match member(members, keys[0]) {
            Some(JsonValue::Text(s)) => if s@.len() > 0 {
                Some(s@)
            } else {
                direct_string(members, keys.drop_first())
            },
            _ => direct_string(members, keys.drop_first()),
        }
    }
}

/// Depth-first search for a non-empty string under one of `keys`: an object's
/// own keys are tried first (in the order of `keys`), then its members' values
/// in order; an array's items in order.
pub open spec fn deep_string(v: JsonValue, keys: Seq<Seq<char>>) -> Option<Seq<char>>
    decreases v,
{
    match v {
        JsonValue::Object(members) => {
            let direct = direct_string(members@, keys);
            if direct is Some {
                direct
            } else {
                deep_string_members(members@, keys)
            }
        },
        JsonValue::Array(items) => deep_string_items(items@, keys),
        _ => None,
    }
}

/// The first match of `deep_string` among the values of `members`.
pub open spec fn deep_string_members(members: Seq<(String, JsonValue)>, keys: Seq<Seq<char>>) -> Option<Seq<char>>
    decreases members,
{
    if members.len() == 0 {
        None
    } else {
        let found = deep_string(members[0].1, keys);
        if found is Some {
            found
        } else {
            deep_string_members(members.drop_first(), keys)
        }
    }
}

/// The first match of `deep_string` among `items`.
pub open spec fn deep_string_items(items: Seq<JsonValue>, keys: Seq<Seq<char>>) -> Option<Seq<char>>
    decreases items,
{
    if items.len() == 0 {
        None
    } else {
        let found = deep_string(items[0], keys);
        if found is Some {
            found
        } else {
            deep_string_items(items.drop_first(), keys)
        }
    }
}

/// The texts behind a list of keys.
pub open spec fn key_views(keys: Seq<&str>) -> Seq<Seq<char>> {
    keys.map_values(|k: &str| k@)
}

/// The text behind an optional `String`.
pub open spec fn opt_text(o: Option<String>) -> Option<Seq<char>> {
    match o {
        Some(s) => Some(s@),
        None => None,
    }
}

/// The first member of `members` named `key`.
fn lookup<'a>(members: &'a Vec<(String, JsonValue)>, key: &str) -> (r: Option<&'a JsonValue>)
    ensures
        match r {
            Some(v) => member(members@, key@) == Some(*v),
            None => member(members@, key@) is None,
        },
{
    let mut i: usize = 0;
    assert(members@.skip(0) == members@);
    while i < members.len()
        invariant
            i <= members.len(),
            member(members@, key@) == member(members@.skip(i as int), key@),
        decreases members.len() - i,
    {
        assert(members@.skip(i as int).drop_first() == members@.skip(i + 1));
        assert(members@.skip(i as int)[0] == members@[i as int]);
        let pair = &members[i];
        if str_eq(pair.0.as_str(), key) {
            assert(member(members@.skip(i as int), key@) == Some(pair.1));
            return Some(&pair.1);
        }
        i = i + 1;
    }
    None
}

fn direct_string_exec(members: &Vec<(String, JsonValue)>, keys: &[&str]) -> (r: Option<String>)
    ensures
        opt_text(r) == direct_string(members@, key_views(keys@)),
{
    let ghost all = key_views(keys@);
    let mut k: usize = 0;
    assert(all.skip(0) == all);
    while k < keys.len()
        invariant
            k <= keys.len(),
            all == key_views(keys@),
            direct_string(members@, all) == direct_string(members@, all.skip(k as int)),
        decreases keys.len() - k,
    {
        let ghost rest = all.skip(k as int);
        assert(rest.drop_first() == all.skip(k + 1));
        assert(rest[0] == keys@[k as int]@);
        match lookup(members, keys[k]) {
            Some(JsonValue::Text(candidate)) => {
                if !candidate.as_str().is_empty() {
                    return Some(candidate.clone());
                }
            },
            _ => {},
        }
        k = k + 1;
    }
    None
}

/// `find_deep_string`: depth-first search for a non-empty string stored
/// under one of `keys`.
pub fn find_deep_string(value: Option<&JsonValue>, keys: &[&str]) -> (r: Option<String>)
    ensures
        opt_text(r) == match value {
            Some(v) => deep_string(*v, key_views(keys@)),
            None => None,
        },
{
    match value {
        Some(v) => deep_string_exec(v, keys),
        None => None,
    }
}

fn deep_string_exec(value: &JsonValue, keys: &[&str]) -> (r: Option<String>)
    ensures
        opt_text(r) == deep_string(*value, key_views(keys@)),
    decreases value,
{
    match value {
        JsonValue::Object(members) => {
            let direct = direct_string_exec(members, keys);
            if direct.is_some() {
                return direct;
            }
            let mut i: usize = 0;
            assert(members@.skip(0) == members@);
            while i < members.len()
                invariant
                    i <= members.len(),
                    *value == JsonValue::Object(*members),
                    direct_string(members@, key_views(keys@)) is None,
                    deep_string_members(members@, key_views(keys@)) == deep_string_members(
                        members@.skip(i as int),
                        key_views(keys@),
                    ),
                decreases members.len() - i,
            {
                assert(members@.skip(i as int).drop_first() == members@.skip(i + 1));
                assert(members@.skip(i as int)[0] == members@[i as int]);
                assert(decreases_to!(*value => members@[i as int].1)) by {
                    assert(decreases_to!(*value => *members));
                    assert(decreases_to!(*members => members@[i as int]));
                    assert(decreases_to!(members@[i as int] => members@[i as int].1));
                }
                let found = deep_string_exec(&members[i].1, keys);
                if found.is_some() {
                    return found;
                }
                i = i + 1;
            }
            None
        },
        JsonValue::Array(items) => {
            let mut i: usize = 0;
            assert(items@.skip(0) == items@);
            while i < items.len()
                invariant
                    i <= items.len(),
                    *value == JsonValue::Array(*items),
                    deep_string_items(items@, key_views(keys@)) == deep_string_items(
                        items@.skip(i as int),
                        key_views(keys@),
                    ),
                decreases items.len() - i,
            {
                assert(items@.skip(i as int).drop_first() == items@.skip(i + 1));
                assert(items@.skip(i as int)[0] == items@[i as int]);
                assert(decreases_to!(*value => items@[i as int])) by {
                    assert(*value == JsonValue::Array(*items));
                    assert((*value)->Array_0 == *items);
                    assert(decreases_to!(*value => (*value)->Array_0));
                    assert(decreases_to!(*items => items@[i as int]));
                }
                let found = deep_string_exec(&items[i], keys);
                if found.is_some() {
                    return found;
                }
                i = i + 1;
            }
            None
        },
        _ => None,
    }
}

/// The number a candidate value stands for: a `u64` number, or a string that parses as one.
pub open spec fn number_of(c: JsonValue) -> Option<u64> {
    if u64_spec(c) is Some {
        u64_spec(c)
    } else if str_spec(c) is Some {
        parsed_u64(str_spec(c)->0)
    } else {
        None
    }
}

/// The first of `keys` under which `members` holds a number (or numeric string).
pub open spec fn direct_number(members: Seq<(String, JsonValue)>, keys: Seq<Seq<char>>) -> Option<u64>
    decreases keys.len(),
{
    if keys.len() == 0 {
        None
    } else {
        match member(members, keys[0]) {
            Some(c) => if number_of(c) is Some {
                number_of(c)
            } else {
                direct_number(members, keys.drop_first())
            },
            None => direct_number(members, keys.drop_first()),
        }
    }
}

/// Depth-first search for a number under one of `keys`, in the order of `deep_string`.
pub open spec fn deep_number(v: JsonValue, keys: Seq<Seq<char>>) -> Option<u64>
    decreases v,
{
    match v {
        JsonValue::Object(members) => {
            let direct = direct_number(members@, keys);
            if direct is Some {
                direct
            } else {
                deep_number_members(members@, keys)
            }
        },
        JsonValue::Array(items) => deep_number_items(items@, keys),
        _ => None,
    }
}

/// The first match of `deep_number` among the values of `members`.
pub open spec fn deep_number_members(members: Seq<(String, JsonValue)>, keys: Seq<Seq<char>>) -> Option<u64>
    decreases members,
{
    if members.len() == 0 {
        None
    } else {
        let found = deep_number(members[0].1, keys);
        if found is Some {
            found
        } else {
            deep_number_members(members.drop_first(), keys)
        }
    }
}

/// The first match of `deep_number` among `items`.
pub open spec fn deep_number_items(items: Seq<JsonValue>, keys: Seq<Seq<char>>) -> Option<u64>
    decreases items,
{
    if items.len() == 0 {
        None
    } else {
        let found = deep_number(items[0], keys);
        if found is Some {
            found
        } else {
            deep_number_items(items.drop_first(), keys)
        }
    }
}

fn number_of_exec(c: &JsonValue) -> (r: Option<u64>)
    ensures
        r == number_of(*c),
{
    if let Some(v) = c.as_u64() {
        return Some(v);
    }
    match c.as_str() {
        Some(text) => parse_u64(text),
        None => None,
    }
}

fn direct_number_exec(members: &Vec<(String, JsonValue)>, keys: &[&str]) -> (r: Option<u64>)
    ensures
        r == direct_number(members@, key_views(keys@)),
{
    let ghost all = key_views(keys@);
    let mut k: usize = 0;
    assert(all.skip(0) == all);
    while k < keys.len()
        invariant
            k <= keys.len(),
            all == key_views(keys@),
            direct_number(members@, all) == direct_number(members@, all.skip(k as int)),
        decreases keys.len() - k,
    {
        let ghost rest = all.skip(k as int);
        assert(rest.drop_first() == all.skip(k + 1));
        assert(rest[0] == keys@[k as int]@);
        match lookup(members, keys[k]) {
            Some(candidate) => {
                let n = number_of_exec(candidate);
                if n.is_some() {
                    return n;
                }
            },
            None => {},
        }
        k = k + 1;
    }
    None
}

/// `find_deep_number`: depth-first search for a number (or numeric string)
/// stored under one of `keys`.
pub fn find_deep_number(value: Option<&JsonValue>, keys: &[&str]) -> (r: Option<u64>)
    ensures
        r == match value {
            Some(v) => deep_number(*v, key_views(keys@)),
            None => None,
        },
{
    match value {
        Some(v) => deep_number_exec(v, keys),
        None => None,
    }
}

fn deep_number_exec(value: &JsonValue, keys: &[&str]) -> (r: Option<u64>)
    ensures
        r == deep_number(*value, key_views(keys@)),
    decreases value,
{
    match value {
        JsonValue::Object(members) => {
            let direct = direct_number_exec(members, keys);
            if direct.is_some() {
                return direct;
            }
            let mut i: usize = 0;
            assert(members@.skip(0) == members@);
            while i < members.len()
                invariant
                    i <= members.len(),
                    *value == JsonValue::Object(*members),
                    direct_number(members@, key_views(keys@)) is None,
                    deep_number_members(members@, key_views(keys@)) == deep_number_members(
                        members@.skip(i as int),
                        key_views(keys@),
                    ),
                decreases members.len() - i,
            {
                assert(members@.skip(i as int).drop_first() == members@.skip(i + 1));
                assert(members@.skip(i as int)[0] == members@[i as int]);
                assert(decreases_to!(*value => members@[i as int].1)) by {
                    assert(decreases_to!(*value => *members));
                    assert(decreases_to!(*members => members@[i as int]));
                    assert(decreases_to!(members@[i as int] => members@[i as int].1));
                }
                let found = deep_number_exec(&members[i].1, keys);
                if found.is_some() {
                    return found;
                }
                i = i + 1;
            }
            None
        },
        JsonValue::Array(items) => {
            let mut i: usize = 0;
            assert(items@.skip(0) == items@);
            while i < items.len()
                invariant
                    i <= items.len(),
                    *value == JsonValue::Array(*items),
                    deep_number_items(items@, key_views(keys@)) == deep_number_items(
                        items@.skip(i as int),
                        key_views(keys@),
                    ),
                decreases items.len() - i,
            {
                assert(items@.skip(i as int).drop_first() == items@.skip(i + 1));
                assert(items@.skip(i as int)[0] == items@[i as int]);
                assert(decreases_to!(*value => items@[i as int])) by {
                    assert(*value == JsonValue::Array(*items));
                    assert((*value)->Array_0 == *items);
                    assert(decreases_to!(*value => (*value)->Array_0));
                    assert(decreases_to!(*items => items@[i as int]));
                }
                let found = deep_number_exec(&items[i], keys);
                if found.is_some() {
                    return found;
                }
                i = i + 1;
            }
            None
        },
        _ => None,
    }
}


// ------------------------------------------------------------------
// Compact JSON text
// ------------------------------------------------------------------

/// A lower-case hexadecimal digit.
pub open spec fn hex_char(n: u32) -> char {
    if n < 10 { ((n + 48) as u32) as char } else { ((n + 87) as u32) as char }
}

/// How a character is written inside a JSON string: `"` and `\` and the
/// control characters are escaped, the short forms where JSON has them.
pub open spec fn escaped_char(c: char) -> Seq<char> {
    if c == '"' {
        seq!['\\', '"']
    } else if c == '\\' {
        seq!['\\', '\\']
    } else if c == '\u{08}' {
        seq!['\\', 'b']
    } else if c == '\u{0C}' {
        seq!['\\', 'f']
    } else if c == '\n' {
        seq!['\\', 'n']
    } else if c == '\r' {
        seq!['\\', 'r']
    } else if c == '\t' {
        seq!['\\', 't']
    } else if (c as u32) < 32 {
        seq!['\\', 'u', '0', '0', hex_char((c as u32) / 16), hex_char((c as u32) % 16)]
    } else {
        seq![c]
    }
}

/// The characters of `s`, each written as inside a JSON string.
pub open spec fn escaped(s: Seq<char>) -> Seq<char>
    decreases s.len(),
{
    if s.len() == 0 { s } else { escaped(s.drop_last()) + escaped_char(s.last()) }
}

/// `s` as a JSON string literal.
pub open spec fn quoted(s: Seq<char>) -> Seq<char> {
    seq!['"'] + escaped(s) + seq!['"']
}

/// The compact JSON text of a value (no white space; numbers as parsed).
pub open spec fn compact_text(v: JsonValue) -> Seq<char>
    decreases v,
{
    match v {
        JsonValue::Null => "null"@,
        JsonValue::Bool(b) => if b { "true"@ } else { "false"@ },
        JsonValue::Number(n) => n.text@,
        JsonValue::Text(s) => quoted(s@),
        JsonValue::Array(items) => seq!['['] + items_text(items@) + seq![']'],
        JsonValue::Object(members) => seq!['{'] + members_text(members@) + seq!['}'],
    }
}

/// The compact texts of `items`, separated by commas.
pub open spec fn items_text(items: Seq<JsonValue>) -> Seq<char>
    decreases items,
{
    if items.len() == 0 {
        Seq::empty()
    } else if items.len() == 1 {
        compact_text(items[0])
    } else {
        items_text(items.drop_last()) + seq![','] + compact_text(items.last())
    }
}

/// The compact text of one object member.
pub open spec fn member_text(m: (String, JsonValue)) -> Seq<char>
    decreases m,
{
    quoted(m.0@) + seq![':'] + compact_text(m.1)
}

/// The compact texts of `members`, separated by commas.
pub open spec fn members_text(members: Seq<(String, JsonValue)>) -> Seq<char>
    decreases members,
{
    if members.len() == 0 {
        Seq::empty()
    } else if members.len() == 1 {
        member_text(members[0])
    } else {
        members_text(members.drop_last()) + seq![','] + member_text(members.last())
    }
}

fn hex_digit_of(n: u32) -> (r: char)
    requires
        n < 16,
    ensures
        r == hex_char(n),
{
    if n < 10 {
        ((n + 48) as u8) as char
    } else {
        ((n + 87) as u8) as char
    }
}

/// Appends `text` to `out`.
fn append(out: &mut String, text: &str)
    ensures
        final(out)@ == old(out)@ + text@,
{
    let cs = chars_of(text);
    let mut i: usize = 0;
    while i < cs.len()
        invariant
            i <= cs.len(),
            cs@ == text@,
            out@ == old(out)@ + text@.take(i as int),
        decreases cs.len() - i,
    {
        out.push(cs[i]);
        i = i + 1;
        assert(text@.take(i as int) == text@.take(i - 1).push(text@[i - 1]));
    }
    assert(text@.take(cs.len() as int) == text@);
}

/// Appends `c` as written inside a JSON string.
fn push_escaped(out: &mut String, c: char)
    ensures
        final(out)@ == old(out)@ + escaped_char(c),
{
    let ghost before = out@;
    if c == '"' {
        out.push('\\');
        out.push('"');
    } else if c == '\\' {
        out.push('\\');
        out.push('\\');
    } else if c == '\u{08}' {
        out.push('\\');
        out.push('b');
    } else if c == '\u{0C}' {
        out.push('\\');
        out.push('f');
    } else if c == '\n' {
        out.push('\\');
        out.push('n');
    } else if c == '\r' {
        out.push('\\');
        out.push('r');
    } else if c == '\t' {
        out.push('\\');
        out.push('t');
    } else if (c as u32) < 32 {
        out.push('\\');
        out.push('u');
        out.push('0');
        out.push('0');
        out.push(hex_digit_of((c as u32) / 16));
        out.push(hex_digit_of((c as u32) % 16));
    } else {
        out.push(c);
    }
    assert(out@ =~= before + escaped_char(c));
}

/// Appends `s` as a JSON string literal.
fn push_quoted(out: &mut String, s: &str)
    ensures
        final(out)@ == old(out)@ + quoted(s@),
{
    let ghost before = out@;
    out.push('"');
    let cs = chars_of(s);
    let mut i: usize = 0;
    while i < cs.len()
        invariant
            i <= cs.len(),
            cs@ == s@,
            out@ == before + seq!['"'] + escaped(s@.take(i as int)),
        decreases cs.len() - i,
    {
        assert(s@.take(i + 1).drop_last() == s@.take(i as int));
        push_escaped(out, cs[i]);
        i = i + 1;
        assert(out@ =~= before + seq!['"'] + escaped(s@.take(i as int)));
    }
    assert(s@.take(cs.len() as int) == s@);
    out.push('"');
    assert(out@ =~= before + quoted(s@));
}

/// Appends the compact JSON text of `value`.
fn push_compact(out: &mut String, value: &JsonValue)
    ensures
        final(out)@ == old(out)@ + compact_text(*value),
    decreases value,
{
    let ghost before = out@;
    match value {
        JsonValue::Null => append(out, "null"),
        JsonValue::Bool(b) => if *b { append(out, "true") } else { append(out, "false") },
        JsonValue::Number(n) => append(out, n.text.as_str()),
        JsonValue::Text(s) => push_quoted(out, s.as_str()),
        JsonValue::Array(items) => {
            out.push('[');
            let mut i: usize = 0;
            while i < items.len()
                invariant
                    i <= items.len(),
                    *value == JsonValue::Array(*items),
                    out@ == before + seq!['['] + items_text(items@.take(i as int)),
                decreases items.len() - i,
            {
                let ghost t = items@.take(i + 1);
                assert(t.drop_last() == items@.take(i as int));
                assert(t.last() == items@[i as int]);
                if i == 1 {
                    assert(items@.take(1) =~= seq![items@[0]]);
                }
                if i > 0 {
                    out.push(',');
                }
                assert(decreases_to!(*value => items@[i as int])) by {
                    assert(*value == JsonValue::Array(*items));
                    assert((*value)->Array_0 == *items);
                    assert(decreases_to!(*value => (*value)->Array_0));
                    assert(decreases_to!(*items => items@[i as int]));
                }
                push_compact(out, &items[i]);
                i = i + 1;
                assert(out@ =~= before + seq!['['] + items_text(items@.take(i as int)));
            }
            assert(items@.take(items.len() as int) == items@);
            out.push(']');
        },
        JsonValue::Object(members) => {
            out.push('{');
            let mut i: usize = 0;
            while i < members.len()
                invariant
                    i <= members.len(),
                    *value == JsonValue::Object(*members),
                    out@ == before + seq!['{'] + members_text(members@.take(i as int)),
                decreases members.len() - i,
            {
                let ghost t = members@.take(i + 1);
                assert(t.drop_last() == members@.take(i as int));
                assert(t.last() == members@[i as int]);
                if i == 1 {
                    assert(members@.take(1) =~= seq![members@[0]]);
                }
                let ghost prev = out@;
                if i > 0 {
                    out.push(',');
                }
                let ghost sep = out@;
                push_quoted(out, members[i].0.as_str());
                out.push(':');
                assert(decreases_to!(*value => members@[i as int].1)) by {
                    assert(*value == JsonValue::Object(*members));
                    assert((*value)->Object_0 == *members);
                    assert(decreases_to!(*value => (*value)->Object_0));
                    assert(decreases_to!(*members => members@[i as int]));
                    assert(decreases_to!(members@[i as int] => members@[i as int].1));
                }
                push_compact(out, &members[i].1);
                let ghost m = members@[i as int];
                assert(member_text(m) == quoted(m.0@) + seq![':'] + compact_text(m.1));
                assert(out@ =~= sep + member_text(m));
                i = i + 1;
                assert(out@ =~= before + seq!['{'] + members_text(members@.take(i as int)));
            }
            assert(members@.take(members.len() as int) == members@);
            out.push('}');
        },
    }
    assert(out@ =~= before + compact_text(*value));
}

/// The compact JSON text of a value.
pub fn to_compact_text(value: &JsonValue) -> (r: String)
    ensures
        r@ == compact_text(*value),
{
    let mut out = String::new();
    push_compact(&mut out, value);
    assert(out@ =~= compact_text(*value));
    out
}

} // verus!
