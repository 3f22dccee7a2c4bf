//! The JSON bodies of masked-prefs edits.
//!
//! `tailscaled` edits its preferences from a "masked prefs" object: each
//! changed field plus a `<Field>Set: true` marker. The objects here are small
//! and fixed in shape, so they are written out directly, with their keys in
//! sorted order as `serde_json` emits a `json!` object; the quoting of a
//! string value is left to `serde_json`.

use vstd::prelude::*;
use vstd::string::*;
use vstd::utf8::*;
use crate::http::hex_digit_char;
use crate::text::{join, push_str};

verus! {

/// How `serde_json` writes the character `c` inside a string literal: `"`
/// and `\` behind a backslash; backspace, tab, newline, form feed and
/// carriage return as `\b`, `\t`, `\n`, `\f`, `\r`; the other characters
/// below U+0020 as `\u00` and two lower-case hexadecimal digits; every other
/// character as itself.
pub open spec fn json_escape_char(c: char) -> Seq<char> {
    let u = c as u32;
    if c == '"' {
        seq!['\\', '"']
    } else if c == '\\' {
        seq!['\\', '\\']
    } else if u == 8 {
        seq!['\\', 'b']
    } else if u == 9 {
        seq!['\\', 't']
    } else if u == 10 {
        seq!['\\', 'n']
    } else if u == 12 {
        seq!['\\', 'f']
    } else if u == 13 {
        seq!['\\', 'r']
    } else if u < 0x20 {
        seq!['\\', 'u', '0', '0', hex_digit_char((u / 16) as nat), hex_digit_char((u % 16) as nat)]
    } else {
        seq![c]
    }
}

/// The characters of `s`, each written as inside a JSON string literal.
pub open spec fn json_escaped(s: Seq<char>) -> Seq<char>
    decreases s.len(),
{
    if s.len() == 0 {
        Seq::empty()
    } else {
        json_escaped(s.drop_last()) + json_escape_char(s.last())
    }
}

/// The JSON literal that `serde_json` writes for the string `s`.
pub open spec fn json_string_text(s: Seq<char>) -> Seq<char> {
    seq!['"'] + json_escaped(s) + seq!['"']
}

/// `serde_json::to_string` on a `&str`: the JSON literal for the string,
/// quoted and escaped as `json_escape_char` says (serde_json's
/// `format_escaped_str` with the compact formatter). Serializing a string
/// into serde_json's in-memory buffer does not fail, so the error arm never
/// runs.
#[verifier::external_body]
fn json_string(s: &str) -> (r: String)
    ensures
        r@ == json_string_text(s@),
{
    match serde_json::to_string(s) {
        Ok(t) => t,
        Err(_) => String::new(),
    }
}

/// The JSON literal for a boolean.
pub open spec fn bool_text(b: bool) -> Seq<char> {
    if b {
        "true"@
    } else {
        "false"@
    }
}

/// A masked edit of one boolean field: `{"F":v,"FSet":true}`.
pub open spec fn masked_bool_text(field: Seq<char>, value: bool) -> Seq<char> {
    "{\""@ + field + "\":"@ + bool_text(value) + ",\""@ + field + "Set\":true}"@
}

/// A masked edit that selects the exit node `id`, or clears the exit node
/// (by ID and by IP) when `id` is empty.
pub open spec fn exit_node_text(id: Seq<char>) -> Seq<char> {
    if id.len() == 0 {
        "{\"ExitNodeID\":\"\",\"ExitNodeIDSet\":true,\"ExitNodeIP\":\"\",\"ExitNodeIPSet\":true}"@
    } else {
        "{\"ExitNodeID\":"@ + json_string_text(id) + ",\"ExitNodeIDSet\":true}"@
    }
}

/// The JSON array of the strings `items`.
pub open spec fn string_array_text(items: Seq<Seq<char>>) -> Seq<char> {
    "["@ + join(items.map_values(|s: Seq<char>| json_string_text(s)), ","@) + "]"@
}

/// A masked edit that sets the advertised routes.
pub open spec fn advertise_routes_text(routes: Seq<Seq<char>>) -> Seq<char> {
    "{\"AdvertiseRoutes\":"@ + string_array_text(routes) + ",\"AdvertiseRoutesSet\":true}"@
}

/// The UTF-8 bytes of `s`.
pub fn bytes_of(s: &String) -> (b: Vec<u8>)
    ensures
        b@ == encode_utf8(s@),
{
    s.as_str().as_bytes_vec()
}

/// The body of a masked edit of one boolean field.
pub fn masked_bool(field: &str, value: bool) -> (b: Vec<u8>)
    ensures
        b@ == encode_utf8(masked_bool_text(field@, value)),
{
    let mut t = String::new();
    push_str(&mut t, "{\"");
    push_str(&mut t, field);
    push_str(&mut t, "\":");
    if value {
        push_str(&mut t, "true");
    } else {
        push_str(&mut t, "false");
    }
    push_str(&mut t, ",\"");
    push_str(&mut t, field);
    push_str(&mut t, "Set\":true}");
    bytes_of(&t)
}

/// The body that selects (or, for an empty `id`, clears) the exit node.
pub fn exit_node_body(id: &str) -> (b: Vec<u8>)
    ensures
        b@ == encode_utf8(exit_node_text(id@)),
{
    let mut t = String::new();
    if id.unicode_len() == 0 {
        push_str(
            &mut t,
            "{\"ExitNodeID\":\"\",\"ExitNodeIDSet\":true,\"ExitNodeIP\":\"\",\"ExitNodeIPSet\":true}",
        );
    } else {
        push_str(&mut t, "{\"ExitNodeID\":");
        let q = json_string(id);
        push_str(&mut t, q.as_str());
        push_str(&mut t, ",\"ExitNodeIDSet\":true}");
    }
    bytes_of(&t)
}

/// The body that sets the advertised routes to `routes`.
pub fn advertise_routes_body(routes: &Vec<String>) -> (b: Vec<u8>)
    ensures
        b@ == encode_utf8(advertise_routes_text(routes.deep_view())),
{
    let ghost items = routes.deep_view().map_values(|s: Seq<char>| json_string_text(s));
    let mut t = String::new();
    push_str(&mut t, "{\"AdvertiseRoutes\":");
    push_str(&mut t, "[");
    let ghost head = t@;
    let mut i: usize = 0;
    while i < routes.len()
        invariant
            i <= routes@.len(),
            items == routes.deep_view().map_values(|s: Seq<char>| json_string_text(s)),
            t@ == head + join(items.subrange(0, i as int), ","@),
        decreases routes@.len() - i,
    {
        let ghost before = t@;
        if i > 0 {
            push_str(&mut t, ",");
        }
        let q = json_string(routes[i].as_str());
        push_str(&mut t, q.as_str());
        proof {
            let sub = items.subrange(0, i + 1);
            assert(sub.drop_last() =~= items.subrange(0, i as int));
            assert(sub.last() == items[i as int]);
            assert(items[i as int] == json_string_text(routes@[i as int]@));
            if i == 0 {
                assert(sub.len() == 1);
                assert(t@ =~= head + sub[0]);
            } else {
                assert(t@ =~= head + (join(items.subrange(0, i as int), ","@) + ","@ + sub.last()));
            }
        }
        i = i + 1;
    }
    assert(items.subrange(0, routes@.len() as int) == items);
    push_str(&mut t, "]");
    push_str(&mut t, ",\"AdvertiseRoutesSet\":true}");
    assert(t@ =~= advertise_routes_text(routes.deep_view()));
    bytes_of(&t)
}

} // verus!
