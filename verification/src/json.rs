//! The wire format of query replies: a JSON value tree, a parser from
//! reply text, and a printer. The compositor's replies are decoded through
//! this tree; nothing else interprets reply bytes.

use crate::digits::dec_seq;
use crate::digits::u64_string;
use vstd::prelude::*;

pub mod inverse;

verus! {

broadcast use
    vstd::seq::axiom_seq_index_decreases,
    vstd::std_specs::vec::axiom_vec_index_decreases,
    vstd::std_specs::vec::axiom_vec_decreases_to_view,
;

/// The mathematical JSON tree: what contracts and laws speak of.
pub enum JsonV {
    Null,
    Bool(bool),
    /// An integer literal: a sign and a magnitude that fits 64 unsigned
    /// bits.
    Int { neg: bool, mag: int },
    /// Any other numeric literal (with a fraction, an exponent, or a
    /// magnitude beyond 64 bits), kept as its raw text.
    NumText(Seq<char>),
    Str(Seq<char>),
    Arr(Seq<JsonV>),
    Obj(Seq<(Seq<char>, JsonV)>),
}

/// One parsed JSON value.
#[derive(Debug, PartialEq, Eq)]
pub enum Json {
    Null,
    Bool(bool),
    Int { neg: bool, mag: u64 },
    NumText(String),
    Str(String),
    Arr(Vec<Json>),
    Obj(Vec<(String, Json)>),
}

/// The tree a value stands for.
pub open spec fn json_view(j: Json) -> JsonV
    decreases j, 0int, 0int,
{
    match j {
        Json::Null => JsonV::Null,
        Json::Bool(b) => JsonV::Bool(b),
        Json::Int { neg, mag } => JsonV::Int { neg, mag: mag as int },
        Json::NumText(t) => JsonV::NumText(t@),
        Json::Str(s) => JsonV::Str(s@),
        Json::Arr(items) => JsonV::Arr(json_view_seq(items@, 0)),
        Json::Obj(fields) => JsonV::Obj(json_view_fields(fields@, 0)),
    }
}

/// The trees the items from index `i` on stand for.
pub open spec fn json_view_seq(items: Seq<Json>, i: int) -> Seq<JsonV>
    decreases items, items.len() - i, 1int,
{
    if i < 0 || i >= items.len() {
        Seq::empty()
    } else {
        seq![json_view(items[i])] + json_view_seq(items, i + 1)
    }
}

/// The key/tree pairs the members from index `i` on stand for.
pub open spec fn json_view_fields(fields: Seq<(String, Json)>, i: int) -> Seq<(Seq<char>, JsonV)>
    decreases fields, fields.len() - i, 1int,
{
    if i < 0 || i >= fields.len() {
        Seq::empty()
    } else {
        seq![(fields[i].0@, json_view(fields[i].1))] + json_view_fields(fields, i + 1)
    }
}

impl View for Json {
    type V = JsonV;

    open spec fn view(&self) -> JsonV {
        json_view(*self)
    }
}

/// `json_view_seq` is the item-wise view of the suffix.
pub proof fn lemma_view_seq_index(items: Seq<Json>, i: int)
    requires
        0 <= i <= items.len(),
    ensures
        json_view_seq(items, i).len() == items.len() - i,
        forall|k: int|
            0 <= k < items.len() - i ==> json_view_seq(items, i)[k] == json_view(items[i + k]),
    decreases items.len() - i,
{
    if i < items.len() {
        lemma_view_seq_index(items, i + 1);
    }
}

/// `json_view_fields` is the member-wise view of the suffix.
pub proof fn lemma_view_fields_index(fields: Seq<(String, Json)>, i: int)
    requires
        0 <= i <= fields.len(),
    ensures
        json_view_fields(fields, i).len() == fields.len() - i,
        forall|k: int|
            0 <= k < fields.len() - i ==> json_view_fields(fields, i)[k] == (
                fields[i + k].0@,
                json_view(fields[i + k].1),
            ),
    decreases fields.len() - i,
{
    if i < fields.len() {
        lemma_view_fields_index(fields, i + 1);
    }
}

/// Relies on `String::push` from std: appends exactly the one character.
#[verifier::external_body]
fn push_char(out: &mut String, c: char)
    ensures
        final(out)@ == old(out)@ + seq![c],
{
    out.push(c);
}

/// Relies on `char::from_u32` from std: every value that is not a
/// surrogate and not beyond the last code point names a character, and the
/// character's code point is that value.
#[verifier::external_body]
fn char_from_code(u: u32) -> (c: char)
    requires
        u < 0xD800 || (0xE000 <= u && u <= 0x10FFFF),
    ensures
        c == (u as char),
{
    char::from_u32(u).unwrap()
}

/// The character for one hexadecimal digit, lower case.
pub open spec fn hex_char(d: int) -> char {
    if d == 10 {
        'a'
    } else if d == 11 {
        'b'
    } else if d == 12 {
        'c'
    } else if d == 13 {
        'd'
    } else if d == 14 {
        'e'
    } else if d == 15 {
        'f'
    } else {
        crate::digits::digit_char(d)
    }
}

/// How one character is written inside a JSON string literal: the quote,
/// the backslash and the named control characters get two-character
/// escapes, the remaining control characters a four-digit hexadecimal
/// escape, and everything else stands for itself.
pub open spec fn esc_char(c: char) -> Seq<char> {
    if c == '"' {
        seq!['\\', '"']
    } else if c == '\\' {
        seq!['\\', '\\']
    } else if c == '\n' {
        seq!['\\', 'n']
    } else if c == '\r' {
        seq!['\\', 'r']
    } else if c == '\t' {
        seq!['\\', 't']
    } else if c == '\u{8}' {
        seq!['\\', 'b']
    } else if c == '\u{c}' {
        seq!['\\', 'f']
    } else if (c as int) < 32 {
        seq!['\\', 'u', '0', '0', hex_char((c as int) / 16), hex_char((c as int) % 16)]
    } else {
        seq![c]
    }
}

/// The escaped body of a string literal, from index `i` on.
pub open spec fn escape_str(s: Seq<char>, i: int) -> Seq<char>
    decreases s.len() - i,
{
    if i < 0 || i >= s.len() {
        Seq::empty()
    } else {
        esc_char(s[i]) + escape_str(s, i + 1)
    }
}

/// The text of a JSON tree: compact, no whitespace, object members in
/// their stored order.
pub open spec fn spec_print(v: JsonV) -> Seq<char>
    decreases v, 0int, 0int,
{
    match v {
        JsonV::Null => "null"@,
        JsonV::Bool(b) => if b {
            "true"@
        } else {
            "false"@
        },
        JsonV::Int { neg, mag } => (if neg && mag > 0 {
            seq!['-']
        } else {
            Seq::empty()
        }) + dec_seq(mag),
        JsonV::NumText(t) => t,
        JsonV::Str(s) => seq!['"'] + escape_str(s, 0) + seq!['"'],
        JsonV::Arr(items) => seq!['['] + spec_print_arr(items, 0) + seq![']'],
        JsonV::Obj(fields) => seq!['{'] + spec_print_obj(fields, 0) + seq!['}'],
    }
}

/// The printed items from index `i` on, comma-separated.
pub open spec fn spec_print_arr(items: Seq<JsonV>, i: int) -> Seq<char>
    decreases items, items.len() - i, 1int,
{
    if i < 0 || i >= items.len() {
        Seq::empty()
    } else {
        (if i > 0 {
            seq![',']
        } else {
            Seq::empty()
        }) + spec_print(items[i]) + spec_print_arr(items, i + 1)
    }
}

/// The printed members from index `i` on, comma-separated.
pub open spec fn spec_print_obj(fields: Seq<(Seq<char>, JsonV)>, i: int) -> Seq<char>
    decreases fields, fields.len() - i, 1int,
{
    if i < 0 || i >= fields.len() {
        Seq::empty()
    } else {
        (if i > 0 {
            seq![',']
        } else {
            Seq::empty()
        }) + seq!['"'] + escape_str(fields[i].0, 0) + seq!['"', ':'] + spec_print(fields[i].1)
            + spec_print_obj(fields, i + 1)
    }
}

/// The whitespace JSON allows between tokens.
pub open spec fn ws_char(c: char) -> bool {
    c == ' ' || c == '\n' || c == '\r' || c == '\t'
}

/// A decimal digit.
pub open spec fn is_digit(c: char) -> bool {
    48 <= (c as int) <= 57
}

/// The first index at or after `i` that does not hold whitespace.
pub open spec fn spec_skip_ws(s: Seq<char>, i: int) -> int
    decreases s.len() - i,
{
    if 0 <= i < s.len() && ws_char(s[i]) {
        spec_skip_ws(s, i + 1)
    } else {
        i
    }
}

/// The later of two positions; the parser's way of writing down that a
/// sub-parse only ever moves forward.
pub open spec fn pos_max(a: int, b: int) -> int {
    if a < b {
        b
    } else {
        a
    }
}

/// The position a sub-parse continues from: at least `lo`, at most the
/// end of the input.
pub open spec fn next_pos(s: Seq<char>, m: int, lo: int) -> int {
    if pos_max(m, lo) > s.len() {
        s.len() as int
    } else {
        pos_max(m, lo)
    }
}

/// Whether position `j` holds character `c`.
pub open spec fn at(s: Seq<char>, j: int, c: char) -> bool {
    0 <= j < s.len() && s[j] == c
}

/// The value of one hexadecimal digit, either case.
pub open spec fn hex_val(c: char) -> Option<int> {
    if 48 <= (c as int) <= 57 {
        Some((c as int) - 48)
    } else if 97 <= (c as int) <= 102 {
        Some((c as int) - 87)
    } else if 65 <= (c as int) <= 70 {
        Some((c as int) - 55)
    } else {
        None
    }
}

/// The value of the four hexadecimal digits at `i`.
pub open spec fn hex4(s: Seq<char>, i: int) -> Option<int> {
    if i < 0 || i + 4 > s.len() {
        None
    } else {
        match (hex_val(s[i]), hex_val(s[i + 1]), hex_val(s[i + 2]), hex_val(s[i + 3])) {
            (Some(a), Some(b), Some(c), Some(d)) => Some(a * 4096 + b * 256 + c * 16 + d),
            _ => None,
        }
    }
}

/// The body of a string literal, from just after the opening quote to its
/// closing quote: the decoded characters and the position after the
/// closing quote. Escapes are those of JSON, including four-digit
/// hexadecimal escapes and surrogate pairs; a raw control character or a
/// malformed escape fails.
pub open spec fn spec_parse_string(s: Seq<char>, i: int) -> Option<(Seq<char>, int)>
    decreases s.len() - i,
{
    if i < 0 || i >= s.len() {
        None
    } else if s[i] == '"' {
        Some((Seq::empty(), i + 1))
    } else if s[i] == '\\' {
        if i + 1 >= s.len() {
            None
        } else if s[i + 1] == 'u' {
            match hex4(s, i + 2) {
                Some(u) => if u < 0xD800 || u >= 0xE000 {
                    match spec_parse_string(s, i + 6) {
                        Some((rest, e)) => Some((seq![((u as u32) as char)] + rest, e)),
                        None => None,
                    }
                } else if u < 0xDC00 {
                    if at(s, i + 6, '\\') && at(s, i + 7, 'u') {
                        match hex4(s, i + 8) {
                            Some(u2) => if 0xDC00 <= u2 < 0xE000 {
                                let cp = 0x10000 + (u - 0xD800) * 0x400 + (u2 - 0xDC00);
                                match spec_parse_string(s, i + 12) {
                                    Some((rest, e)) => Some(
                                        (seq![((cp as u32) as char)] + rest, e),
                                    ),
                                    None => None,
                                }
                            } else {
                                None
                            },
                            None => None,
                        }
                    } else {
                        None
                    }
                } else {
                    None
                },
                None => None,
            }
        } else {
            let e = s[i + 1];
            let ok = e == '"' || e == '\\' || e == '/' || e == 'n' || e == 'r' || e == 't' || e
                == 'b' || e == 'f';
            let c = if e == '"' {
                '"'
            } else if e == '\\' {
                '\\'
            } else if e == '/' {
                '/'
            } else if e == 'n' {
                '\n'
            } else if e == 'r' {
                '\r'
            } else if e == 't' {
                '\t'
            } else if e == 'b' {
                '\u{8}'
            } else {
                '\u{c}'
            };
            if ok {
                match spec_parse_string(s, i + 2) {
                    Some((rest, e2)) => Some((seq![c] + rest, e2)),
                    None => None,
                }
            } else {
                None
            }
        }
    } else if (s[i] as int) < 32 {
        None
    } else {
        match spec_parse_string(s, i + 1) {
            Some((rest, e)) => Some((seq![s[i]] + rest, e)),
            None => None,
        }
    }
}

/// The first index at or after `i` that does not hold a digit.
pub open spec fn spec_digit_run(s: Seq<char>, i: int) -> int
    decreases s.len() - i,
{
    if 0 <= i < s.len() && is_digit(s[i]) {
        spec_digit_run(s, i + 1)
    } else {
        i
    }
}

/// The number the digits in `[a, b)` spell, most significant first.
pub open spec fn digits_val(s: Seq<char>, a: int, b: int) -> int
    decreases b - a,
{
    if b <= a {
        0
    } else {
        digits_val(s, a, b - 1) * 10 + ((s[b - 1] as int) - 48)
    }
}

/// A numeric literal starting at `i`: an optional minus, an integer part
/// without leading zeroes, and an optional fraction and exponent. A plain
/// integer whose magnitude fits 64 unsigned bits becomes `Int`; everything
/// else keeps its raw text.
pub open spec fn spec_parse_number(s: Seq<char>, i: int) -> Option<(JsonV, int)> {
    if i < 0 || i >= s.len() {
        None
    } else {
        let neg = s[i] == '-';
        let d0 = if neg {
            i + 1
        } else {
            i
        };
        let e0 = spec_digit_run(s, d0);
        if e0 == d0 {
            None
        } else if s[d0] == '0' && e0 > d0 + 1 {
            None
        } else {
            let has_frac = at(s, e0, '.');
            let e1 = if has_frac {
                spec_digit_run(s, e0 + 1)
            } else {
                e0
            };
            if has_frac && e1 == e0 + 1 {
                None
            } else {
                let has_exp = at(s, e1, 'e') || at(s, e1, 'E');
                let x0 = if has_exp {
                    if at(s, e1 + 1, '+') || at(s, e1 + 1, '-') {
                        e1 + 2
                    } else {
                        e1 + 1
                    }
                } else {
                    e1
                };
                let e2 = if has_exp {
                    spec_digit_run(s, x0)
                } else {
                    e1
                };
                if has_exp && e2 == x0 {
                    None
                } else {
                    if has_frac || has_exp {
                        Some((JsonV::NumText(s.subrange(i, e2)), e2))
                    } else {
                        let m = digits_val(s, d0, e0);
                        if m <= 0xFFFF_FFFF_FFFF_FFFFint {
                            Some((JsonV::Int { neg, mag: m }, e2))
                        } else {
                            Some((JsonV::NumText(s.subrange(i, e2)), e2))
                        }
                    }
                }
            }
        }
    }
}

/// One JSON value starting at or after `i`, leading whitespace allowed:
/// the tree and the position just after the value.
pub open spec fn spec_parse_value(s: Seq<char>, i: int) -> Option<(JsonV, int)>
    decreases s.len() - i, 1int,
{
    let j = pos_max(spec_skip_ws(s, i), i);
    if j >= s.len() {
        None
    } else if s[j] == 'n' {
        if at(s, j + 1, 'u') && at(s, j + 2, 'l') && at(s, j + 3, 'l') {
            Some((JsonV::Null, j + 4))
        } else {
            None
        }
    } else if s[j] == 't' {
        if at(s, j + 1, 'r') && at(s, j + 2, 'u') && at(s, j + 3, 'e') {
            Some((JsonV::Bool(true), j + 4))
        } else {
            None
        }
    } else if s[j] == 'f' {
        if at(s, j + 1, 'a') && at(s, j + 2, 'l') && at(s, j + 3, 's') && at(s, j + 4, 'e') {
            Some((JsonV::Bool(false), j + 5))
        } else {
            None
        }
    } else if s[j] == '"' {
        match spec_parse_string(s, j + 1) {
            Some((body, m)) => Some((JsonV::Str(body), m)),
            None => None,
        }
    } else if s[j] == '[' {
        match spec_parse_arr(s, j + 1) {
            Some((items, m)) => Some((JsonV::Arr(items), m)),
            None => None,
        }
    } else if s[j] == '{' {
        match spec_parse_obj(s, j + 1) {
            Some((fields, m)) => Some((JsonV::Obj(fields), m)),
            None => None,
        }
    } else if s[j] == '-' || is_digit(s[j]) {
        spec_parse_number(s, j)
    } else {
        None
    }
}

/// The items of an array, from just after the `[`.
pub open spec fn spec_parse_arr(s: Seq<char>, i: int) -> Option<(Seq<JsonV>, int)>
    decreases s.len() - i, 2int,
{
    let j = pos_max(spec_skip_ws(s, i), i);
    if j >= s.len() {
        None
    } else if at(s, j, ']') {
        Some((Seq::empty(), j + 1))
    } else {
        match spec_parse_value(s, j) {
            Some((v, m)) => match spec_parse_arr_tail(s, next_pos(s, m, j + 1)) {
                Some((rest, e)) => Some((seq![v] + rest, e)),
                None => None,
            },
            None => None,
        }
    }
}

/// The remainder of an array after a complete item: either the closing
/// bracket, or a comma and more items.
pub open spec fn spec_parse_arr_tail(s: Seq<char>, i: int) -> Option<(Seq<JsonV>, int)>
    decreases s.len() - i, 0int,
{
    let j = pos_max(spec_skip_ws(s, i), i);
    if j >= s.len() {
        None
    } else if at(s, j, ']') {
        Some((Seq::empty(), j + 1))
    } else if at(s, j, ',') {
        match spec_parse_value(s, j + 1) {
            Some((v, m)) => match spec_parse_arr_tail(s, next_pos(s, m, j + 2)) {
                Some((rest, e)) => Some((seq![v] + rest, e)),
                None => None,
            },
            None => None,
        }
    } else {
        None
    }
}

/// One `"key": value` member, leading whitespace allowed.
pub open spec fn spec_parse_member(s: Seq<char>, i: int) -> Option<((Seq<char>, JsonV), int)>
    decreases s.len() - i, 1int,
{
    let j = pos_max(spec_skip_ws(s, i), i);
    if !at(s, j, '"') {
        None
    } else {
        match spec_parse_string(s, j + 1) {
            Some((key, m)) => {
                let p = next_pos(s, pos_max(spec_skip_ws(s, m), m), j + 2);
                if at(s, p, ':') {
                    match spec_parse_value(s, p + 1) {
                        Some((v, e)) => Some(((key, v), e)),
                        None => None,
                    }
                } else {
                    None
                }
            },
            None => None,
        }
    }
}

/// The members of an object, from just after the `{`.
pub open spec fn spec_parse_obj(s: Seq<char>, i: int) -> Option<(Seq<(Seq<char>, JsonV)>, int)>
    decreases s.len() - i, 2int,
{
    let j = pos_max(spec_skip_ws(s, i), i);
    if j >= s.len() {
        None
    } else if at(s, j, '}') {
        Some((Seq::empty(), j + 1))
    } else {
        match spec_parse_member(s, j) {
            Some(((k, v), m)) => match spec_parse_obj_tail(s, next_pos(s, m, j + 1)) {
                Some((rest, e)) => Some((seq![(k, v)] + rest, e)),
                None => None,
            },
            None => None,
        }
    }
}

/// The remainder of an object after a complete member: either the closing
/// brace, or a comma and more members.
pub open spec fn spec_parse_obj_tail(s: Seq<char>, i: int) -> Option<(Seq<(Seq<char>, JsonV)>, int)>
    decreases s.len() - i, 0int,
{
    let j = pos_max(spec_skip_ws(s, i), i);
    if j >= s.len() {
        None
    } else if at(s, j, '}') {
        Some((Seq::empty(), j + 1))
    } else if at(s, j, ',') {
        match spec_parse_member(s, j + 1) {
            Some(((k, v), m)) => match spec_parse_obj_tail(s, next_pos(s, m, j + 2)) {
                Some((rest, e)) => Some((seq![(k, v)] + rest, e)),
                None => None,
            },
            None => None,
        }
    } else {
        None
    }
}

/// A whole reply: one JSON value with nothing but whitespace around it.
pub open spec fn spec_parse_json(s: Seq<char>) -> Option<JsonV> {
    match spec_parse_value(s, 0) {
        Some((v, m)) => if spec_skip_ws(s, m) == s.len() {
            Some(v)
        } else {
            None
        },
        None => None,
    }
}

/// The character for one hexadecimal digit, executable.
fn hex_char_of(d: u32) -> (r: char)
    requires
        d < 16,
    ensures
        r == hex_char(d as int),
{
    match d {
        0 => '0',
        1 => '1',
        2 => '2',
        3 => '3',
        4 => '4',
        5 => '5',
        6 => '6',
        7 => '7',
        8 => '8',
        9 => '9',
        10 => 'a',
        11 => 'b',
        12 => 'c',
        13 => 'd',
        14 => 'e',
        _ => 'f',
    }
}

/// Writes one character of a string literal body, escaped as `esc_char`
/// says.
fn push_escaped(out: &mut String, c: char)
    ensures
        final(out)@ == old(out)@ + esc_char(c),
{
    if c == '"' {
        proof {
            reveal_strlit("\\\"");
        }
        out.append("\\\"");
        proof {
            assert(out@ =~= old(out)@ + esc_char(c));
        }
    } else if c == '\\' {
        proof {
            reveal_strlit("\\\\");
        }
        out.append("\\\\");
        proof {
            assert(out@ =~= old(out)@ + esc_char(c));
        }
    } else if c == '\n' {
        proof {
            reveal_strlit("\\n");
        }
        out.append("\\n");
        proof {
            assert(out@ =~= old(out)@ + esc_char(c));
        }
    } else if c == '\r' {
        proof {
            reveal_strlit("\\r");
        }
        out.append("\\r");
        proof {
            assert(out@ =~= old(out)@ + esc_char(c));
        }
    } else if c == '\t' {
        proof {
            reveal_strlit("\\t");
        }
        out.append("\\t");
        proof {
            assert(out@ =~= old(out)@ + esc_char(c));
        }
    } else if c == '\u{8}' {
        proof {
            reveal_strlit("\\b");
        }
        out.append("\\b");
        proof {
            assert(out@ =~= old(out)@ + esc_char(c));
        }
    } else if c == '\u{c}' {
        proof {
            reveal_strlit("\\f");
        }
        out.append("\\f");
        proof {
            assert(out@ =~= old(out)@ + esc_char(c));
        }
    } else if (c as u32) < 32 {
        proof {
            reveal_strlit("\\u00");
        }
        out.append("\\u00");
        push_char(out, hex_char_of((c as u32) / 16));
        push_char(out, hex_char_of((c as u32) % 16));
        proof {
            assert(out@ =~= old(out)@ + esc_char(c));
        }
    } else {
        push_char(out, c);
        proof {
            assert(out@ =~= old(out)@ + esc_char(c));
        }
    }
}

/// Writes the escaped body of `s` onto `out`.
fn append_escaped(out: &mut String, s: &String)
    ensures
        final(out)@ == old(out)@ + escape_str(s@, 0),
{
    let n = s.as_str().unicode_len();
    let mut i: usize = 0;
    while i < n
        invariant
            n == s@.len(),
            i <= n,
            old(out)@ + escape_str(s@, 0) == out@ + escape_str(s@, i as int),
        decreases n - i,
    {
        let c = s.as_str().get_char(i);
        push_escaped(out, c);
        i = i + 1;
        proof {
            assert(old(out)@ + escape_str(s@, 0) =~= out@ + escape_str(s@, i as int));
        }
    }
    proof {
        assert(out@ =~= old(out)@ + escape_str(s@, 0));
    }
}

/// Renders a JSON tree as text, as `spec_print` says.
pub fn print_json(v: &Json) -> (r: String)
    ensures
        r@ == spec_print(v@),
    decreases *v, 0int, 0int,
{
    match v {
        Json::Null => String::from_str("null"),
        Json::Bool(b) => if *b {
            String::from_str("true")
        } else {
            String::from_str("false")
        },
        Json::Int { neg, mag } => {
            let mut out = String::new();
            if *neg && *mag > 0 {
                proof {
                    reveal_strlit("-");
                }
                out.append("-");
            }
            let digits = u64_string(*mag);
            out.append(digits.as_str());
            proof {
                assert(out@ =~= spec_print(v@));
            }
            out
        },
        Json::NumText(t) => t.clone(),
        Json::Str(s) => {
            proof {
                reveal_strlit("\"");
            }
            let mut out = String::from_str("\"");
            append_escaped(&mut out, s);
            out.append("\"");
            proof {
                assert(out@ =~= spec_print(v@));
            }
            out
        },
        Json::Arr(items) => {
            proof {
                reveal_strlit("[");
                reveal_strlit("]");
            }
            let mut out = String::from_str("[");
            print_items(items, 0, &mut out);
            out.append("]");
            proof {
                assert(out@ =~= spec_print(v@));
            }
            out
        },
        Json::Obj(fields) => {
            proof {
                reveal_strlit("{");
                reveal_strlit("}");
            }
            let mut out = String::from_str("{");
            print_members(fields, 0, &mut out);
            out.append("}");
            proof {
                assert(out@ =~= spec_print(v@));
            }
            out
        },
    }
}

/// Writes the items from index `i` on, as `spec_print_arr` says.
fn print_items(items: &Vec<Json>, i: usize, out: &mut String)
    requires
        i <= items@.len(),
    ensures
        final(out)@ == old(out)@ + spec_print_arr(json_view_seq(items@, 0), i as int),
    decreases *items, items@.len() - i, 1int,
{
    proof {
        lemma_view_seq_index(items@, 0);
    }
    if i < items.len() {
        if i > 0 {
            proof {
                reveal_strlit(",");
            }
            out.append(",");
        }
        let piece = print_json(&items[i]);
        out.append(piece.as_str());
        print_items(items, i + 1, out);
        proof {
            assert(final(out)@ =~= old(out)@ + spec_print_arr(
                json_view_seq(items@, 0),
                i as int,
            ));
        }
    } else {
        proof {
            assert(out@ =~= old(out)@ + spec_print_arr(json_view_seq(items@, 0), i as int));
        }
    }
}

/// Writes the members from index `i` on, as `spec_print_obj` says.
fn print_members(fields: &Vec<(String, Json)>, i: usize, out: &mut String)
    requires
        i <= fields@.len(),
    ensures
        final(out)@ == old(out)@ + spec_print_obj(json_view_fields(fields@, 0), i as int),
    decreases *fields, fields@.len() - i, 1int,
{
    proof {
        lemma_view_fields_index(fields@, 0);
    }
    if i < fields.len() {
        if i > 0 {
            proof {
                reveal_strlit(",");
            }
            out.append(",");
        }
        proof {
            reveal_strlit("\"");
            reveal_strlit("\":");
        }
        out.append("\"");
        append_escaped(out, &fields[i].0);
        out.append("\":");
        let piece = print_json(&fields[i].1);
        out.append(piece.as_str());
        print_members(fields, i + 1, out);
        proof {
            assert(final(out)@ =~= old(out)@ + spec_print_obj(
                json_view_fields(fields@, 0),
                i as int,
            ));
        }
    } else {
        proof {
            assert(out@ =~= old(out)@ + spec_print_obj(json_view_fields(fields@, 0), i as int));
        }
    }
}


/// Whether `c` is JSON whitespace, executable.
fn is_ws(c: char) -> (r: bool)
    ensures
        r == ws_char(c),
{
    c == ' ' || c == '\n' || c == '\r' || c == '\t'
}

/// Whether `c` is a decimal digit, executable.
fn is_digit_char(c: char) -> (r: bool)
    ensures
        r == is_digit(c),
{
    let u = c as u32;
    48 <= u && u <= 57
}

/// The first non-whitespace position at or after `i`.
fn skip_ws(s: &str, i: usize) -> (r: usize)
    requires
        i <= s@.len(),
    ensures
        r as int == spec_skip_ws(s@, i as int),
        i <= r <= s@.len(),
{
    let n = s.unicode_len();
    let mut j = i;
    while j < n
        invariant
            i <= j <= n,
            n == s@.len(),
            spec_skip_ws(s@, i as int) == spec_skip_ws(s@, j as int),
        decreases n - j,
    {
        let c = s.get_char(j);
        if !is_ws(c) {
            return j;
        }
        j = j + 1;
    }
    j
}

/// The first non-digit position at or after `i`.
fn digit_run(s: &str, i: usize) -> (r: usize)
    requires
        i <= s@.len(),
    ensures
        r as int == spec_digit_run(s@, i as int),
        i <= r <= s@.len(),
        forall|k: int| i as int <= k < r as int ==> is_digit(s@[k]),
{
    let n = s.unicode_len();
    let mut j = i;
    while j < n
        invariant
            i <= j <= n,
            n == s@.len(),
            spec_digit_run(s@, i as int) == spec_digit_run(s@, j as int),
            forall|k: int| i as int <= k < j as int ==> is_digit(s@[k]),
        decreases n - j,
    {
        let c = s.get_char(j);
        if !is_digit_char(c) {
            return j;
        }
        j = j + 1;
    }
    j
}

/// The value of one hexadecimal digit, executable.
fn hex_val_of(c: char) -> (r: Option<u32>)
    ensures
        match hex_val(c) {
            Some(h) => r == Some(h as u32),
            None => r is None,
        },
{
    let u = c as u32;
    if 48 <= u && u <= 57 {
        Some(u - 48)
    } else if 97 <= u && u <= 102 {
        Some(u - 87)
    } else if 65 <= u && u <= 70 {
        Some(u - 55)
    } else {
        None
    }
}

/// The value of the four hexadecimal digits at `i`, executable.
fn hex4_at(s: &str, i: usize) -> (r: Option<u32>)
    requires
        i <= s@.len(),
    ensures
        match r {
            Some(u) => hex4(s@, i as int) == Some(u as int) && i + 4 <= s@.len() && u < 0x10000,
            None => hex4(s@, i as int) is None,
        },
{
    let n = s.unicode_len();
    if n < 4 || i > n - 4 {
        return None;
    }
    let a = hex_val_of(s.get_char(i));
    let b = hex_val_of(s.get_char(i + 1));
    let c = hex_val_of(s.get_char(i + 2));
    let d = hex_val_of(s.get_char(i + 3));
    match (a, b, c, d) {
        (Some(a), Some(b), Some(c), Some(d)) => Some(a * 4096 + b * 256 + c * 16 + d),
        _ => None,
    }
}

/// The body of a string literal from just after the opening quote, as
/// `spec_parse_string` says.
fn parse_string_body(s: &str, i: usize) -> (r: Option<(String, usize)>)
    requires
        i <= s@.len(),
    ensures
        match r {
            Some(p) => spec_parse_string(s@, i as int) == Some((p.0@, p.1 as int)) && i < p.1
                <= s@.len(),
            None => spec_parse_string(s@, i as int) is None,
        },
{
    let n = s.unicode_len();
    let mut cur = i;
    let mut out = String::new();
    loop
        invariant
            i <= cur <= n,
            n == s@.len(),
            spec_parse_string(s@, i as int) == (match spec_parse_string(s@, cur as int) {
                Some((rest, e)) => Some((out@ + rest, e)),
                None => None::<(Seq<char>, int)>,
            }),
        decreases n - cur,
    {
        if cur >= n {
            return None;
        }
        let c = s.get_char(cur);
        if c == '"' {
            proof {
                assert(out@ + Seq::<char>::empty() =~= out@);
            }
            return Some((out, cur + 1));
        } else if c == '\\' {
            if cur + 1 >= n {
                return None;
            }
            let e = s.get_char(cur + 1);
            if e == 'u' {
                let u = match hex4_at(s, cur + 2) {
                    Some(u) => u,
                    None => {
                        return None;
                    },
                };
                if u < 0xD800 || u >= 0xE000 {
                    let ch = char_from_code(u);
                    let ghost prev = out@;
                    push_char(&mut out, ch);
                    cur = cur + 6;
                    proof {
                        match spec_parse_string(s@, cur as int) {
                            Some((rest, _e)) => {
                                assert((prev + seq![ch]) + rest =~= prev + (seq![ch] + rest));
                            },
                            None => {},
                        }
                    }
                } else if u < 0xDC00 {
                    if n - cur < 8 || s.get_char(cur + 6) != '\\' || s.get_char(cur + 7) != 'u' {
                        return None;
                    }
                    let u2 = match hex4_at(s, cur + 8) {
                        Some(u2) => u2,
                        None => {
                            return None;
                        },
                    };
                    if 0xDC00 <= u2 && u2 < 0xE000 {
                        let cp = 0x10000 + (u - 0xD800) * 0x400 + (u2 - 0xDC00);
                        let ch = char_from_code(cp);
                        let ghost prev = out@;
                        push_char(&mut out, ch);
                        cur = cur + 12;
                        proof {
                            match spec_parse_string(s@, cur as int) {
                                Some((rest, _e)) => {
                                    assert((prev + seq![ch]) + rest =~= prev + (seq![ch] + rest));
                                },
                                None => {},
                            }
                        }
                    } else {
                        return None;
                    }
                } else {
                    return None;
                }
            } else {
                let ok = e == '"' || e == '\\' || e == '/' || e == 'n' || e == 'r' || e == 't' || e
                    == 'b' || e == 'f';
                if !ok {
                    return None;
                }
                let c2 = if e == '"' {
                    '"'
                } else if e == '\\' {
                    '\\'
                } else if e == '/' {
                    '/'
                } else if e == 'n' {
                    '\n'
                } else if e == 'r' {
                    '\r'
                } else if e == 't' {
                    '\t'
                } else if e == 'b' {
                    '\u{8}'
                } else {
                    '\u{c}'
                };
                let ghost prev = out@;
                push_char(&mut out, c2);
                cur = cur + 2;
                proof {
                    match spec_parse_string(s@, cur as int) {
                        Some((rest, _e)) => {
                            assert((prev + seq![c2]) + rest =~= prev + (seq![c2] + rest));
                        },
                        None => {},
                    }
                }
            }
        } else if (c as u32) < 32 {
            return None;
        } else {
            let ghost prev = out@;
            push_char(&mut out, c);
            cur = cur + 1;
            proof {
                match spec_parse_string(s@, cur as int) {
                    Some((rest, _e)) => {
                        assert((prev + seq![c]) + rest =~= prev + (seq![c] + rest));
                    },
                    None => {},
                }
            }
        }
    }
}

/// Every digit string names a value of at least zero.
proof fn lemma_digits_val_nonneg(s: Seq<char>, a: int, b: int)
    requires
        forall|k: int| a <= k < b ==> is_digit(s[k]),
    ensures
        digits_val(s, a, b) >= 0,
    decreases b - a,
{
    if b > a {
        lemma_digits_val_nonneg(s, a, b - 1);
    }
}

/// The value of the digits in `[a, b)`, or nothing when it exceeds 64
/// unsigned bits.
fn digits_to_u64(s: &str, a: usize, b: usize) -> (r: Option<u64>)
    requires
        a <= b <= s@.len(),
        forall|k: int| a as int <= k < b as int ==> is_digit(s@[k]),
    ensures
        match r {
            Some(v) => v as int == digits_val(s@, a as int, b as int),
            None => digits_val(s@, a as int, b as int) > u64::MAX,
        },
{
    let mut val: u64 = 0;
    let mut overflow = false;
    let mut k = a;
    while k < b
        invariant
            a <= k <= b <= s@.len(),
            forall|j: int| a as int <= j < b as int ==> is_digit(s@[j]),
            !overflow ==> val as int == digits_val(s@, a as int, k as int),
            overflow ==> digits_val(s@, a as int, k as int) > u64::MAX,
        decreases b - k,
    {
        let c = s.get_char(k);
        let d = (c as u32) as u64 - 48;
        proof {
            assert(is_digit(s@[k as int]));
            lemma_digits_val_nonneg(s@, a as int, k as int);
        }
        if !overflow {
            if val <= (u64::MAX - d) / 10 {
                proof {
                    assert((val as int) * 10 + d as int <= u64::MAX as int) by {
                        assert(val as int <= ((u64::MAX - d) as int) / 10);
                        assert((((u64::MAX - d) as int) / 10) * 10 <= (u64::MAX - d) as int);
                    };
                }
                val = val * 10 + d;
            } else {
                proof {
                    assert((val as int) * 10 + d as int > u64::MAX as int) by {
                        assert(val as int >= ((u64::MAX - d) as int) / 10 + 1);
                        assert((((u64::MAX - d) as int) / 10) * 10 + 10 > (u64::MAX - d) as int);
                    };
                }
                overflow = true;
            }
        } else {
            proof {
                assert(digits_val(s@, a as int, k as int) * 10 + ((s@[k as int] as int) - 48)
                    > u64::MAX as int);
            }
        }
        k = k + 1;
    }
    if overflow {
        None
    } else {
        Some(val)
    }
}

/// A numeric literal at `i`, as `spec_parse_number` says.
fn parse_number(s: &str, i: usize) -> (r: Option<(Json, usize)>)
    requires
        i <= s@.len(),
    ensures
        match r {
            Some(p) => spec_parse_number(s@, i as int) == Some((p.0@, p.1 as int)) && i < p.1
                <= s@.len(),
            None => spec_parse_number(s@, i as int) is None,
        },
{
    let n = s.unicode_len();
    if i >= n {
        return None;
    }
    let neg = s.get_char(i) == '-';
    let d0 = if neg {
        i + 1
    } else {
        i
    };
    let e0 = digit_run(s, d0);
    if e0 == d0 {
        return None;
    }
    if s.get_char(d0) == '0' && e0 > d0 + 1 {
        return None;
    }
    let has_frac = e0 < n && s.get_char(e0) == '.';
    let e1 = if has_frac {
        digit_run(s, e0 + 1)
    } else {
        e0
    };
    if has_frac && e1 == e0 + 1 {
        return None;
    }
    let has_exp = e1 < n && (s.get_char(e1) == 'e' || s.get_char(e1) == 'E');
    let x0 = if has_exp {
        if e1 + 1 < n && (s.get_char(e1 + 1) == '+' || s.get_char(e1 + 1) == '-') {
            e1 + 2
        } else {
            e1 + 1
        }
    } else {
        e1
    };
    let e2 = if has_exp {
        digit_run(s, x0)
    } else {
        e1
    };
    if has_exp && e2 == x0 {
        return None;
    }
    if has_frac || has_exp {
        let t = s.substring_char(i, e2).to_owned();
        Some((Json::NumText(t), e2))
    } else {
        match digits_to_u64(s, d0, e0) {
            Some(mag) => Some((Json::Int { neg, mag }, e0)),
            None => {
                let t = s.substring_char(i, e0).to_owned();
                Some((Json::NumText(t), e0))
            },
        }
    }
}

/// Prepending an item prepends its view.
proof fn lemma_view_seq_cons(items: Seq<Json>, v: Json)
    ensures
        json_view_seq(items.insert(0, v), 0) =~= seq![json_view(v)] + json_view_seq(items, 0),
{
    lemma_view_seq_index(items.insert(0, v), 0);
    lemma_view_seq_index(items, 0);
    assert forall|k: int| 0 <= k < items.len() + 1 implies json_view_seq(items.insert(0, v), 0)[k]
        == (seq![json_view(v)] + json_view_seq(items, 0))[k] by {
        if k > 0 {
            assert(items.insert(0, v)[k] == items[k - 1]);
        }
    }
}

/// Prepending a member prepends its view.
proof fn lemma_view_fields_cons(fields: Seq<(String, Json)>, kv: (String, Json))
    ensures
        json_view_fields(fields.insert(0, kv), 0) =~= seq![(kv.0@, json_view(kv.1))]
            + json_view_fields(fields, 0),
{
    lemma_view_fields_index(fields.insert(0, kv), 0);
    lemma_view_fields_index(fields, 0);
    assert forall|k: int| 0 <= k < fields.len() + 1 implies json_view_fields(
        fields.insert(0, kv),
        0,
    )[k] == (seq![(kv.0@, json_view(kv.1))] + json_view_fields(fields, 0))[k] by {
        if k > 0 {
            assert(fields.insert(0, kv)[k] == fields[k - 1]);
        }
    }
}

/// One JSON value at or after `i`, as `spec_parse_value` says.
fn parse_value(s: &str, i: usize) -> (r: Option<(Json, usize)>)
    requires
        i <= s@.len(),
    ensures
        match r {
            Some(p) => spec_parse_value(s@, i as int) == Some((p.0@, p.1 as int)) && i < p.1
                <= s@.len(),
            None => spec_parse_value(s@, i as int) is None,
        },
    decreases s@.len() - i, 1int,
{
    let n = s.unicode_len();
    let j = skip_ws(s, i);
    if j >= n {
        return None;
    }
    let c = s.get_char(j);
    if c == 'n' {
        if n - j >= 4 && s.get_char(j + 1) == 'u' && s.get_char(j + 2) == 'l' && s.get_char(j + 3)
            == 'l' {
            Some((Json::Null, j + 4))
        } else {
            None
        }
    } else if c == 't' {
        if n - j >= 4 && s.get_char(j + 1) == 'r' && s.get_char(j + 2) == 'u' && s.get_char(j + 3)
            == 'e' {
            Some((Json::Bool(true), j + 4))
        } else {
            None
        }
    } else if c == 'f' {
        if n - j >= 5 && s.get_char(j + 1) == 'a' && s.get_char(j + 2) == 'l' && s.get_char(j + 3)
            == 's' && s.get_char(j + 4) == 'e' {
            Some((Json::Bool(false), j + 5))
        } else {
            None
        }
    } else if c == '"' {
        match parse_string_body(s, j + 1) {
            Some((body, m)) => Some((Json::Str(body), m)),
            None => None,
        }
    } else if c == '[' {
        match parse_arr(s, j + 1) {
            Some((items, m)) => Some((Json::Arr(items), m)),
            None => None,
        }
    } else if c == '{' {
        match parse_obj(s, j + 1) {
            Some((fields, m)) => Some((Json::Obj(fields), m)),
            None => None,
        }
    } else if c == '-' || is_digit_char(c) {
        parse_number(s, j)
    } else {
        None
    }
}

/// The items of an array from just after the `[`, as `spec_parse_arr`
/// says.
fn parse_arr(s: &str, i: usize) -> (r: Option<(Vec<Json>, usize)>)
    requires
        i <= s@.len(),
    ensures
        match r {
            Some(p) => spec_parse_arr(s@, i as int) == Some((json_view_seq(p.0@, 0), p.1 as int))
                && i < p.1 <= s@.len(),
            None => spec_parse_arr(s@, i as int) is None,
        },
    decreases s@.len() - i, 2int,
{
    let n = s.unicode_len();
    let j = skip_ws(s, i);
    if j >= n {
        return None;
    }
    if s.get_char(j) == ']' {
        let empty: Vec<Json> = Vec::new();
        return Some((empty, j + 1));
    }
    match parse_value(s, j) {
        Some((v, m)) => match parse_arr_tail(s, m) {
            Some((rest, e)) => {
                let mut rest = rest;
                let ghost prev = rest@;
                rest.insert(0, v);
                proof {
                    lemma_view_seq_cons(prev, v);
                }
                Some((rest, e))
            },
            None => None,
        },
        None => None,
    }
}

/// The remainder of an array after an item, as `spec_parse_arr_tail` says.
fn parse_arr_tail(s: &str, i: usize) -> (r: Option<(Vec<Json>, usize)>)
    requires
        i <= s@.len(),
    ensures
        match r {
            Some(p) => spec_parse_arr_tail(s@, i as int) == Some(
                (json_view_seq(p.0@, 0), p.1 as int),
            ) && i < p.1 <= s@.len(),
            None => spec_parse_arr_tail(s@, i as int) is None,
        },
    decreases s@.len() - i, 0int,
{
    let n = s.unicode_len();
    let j = skip_ws(s, i);
    if j >= n {
        return None;
    }
    if s.get_char(j) == ']' {
        let empty: Vec<Json> = Vec::new();
        return Some((empty, j + 1));
    }
    if s.get_char(j) != ',' {
        return None;
    }
    match parse_value(s, j + 1) {
        Some((v, m)) => match parse_arr_tail(s, m) {
            Some((rest, e)) => {
                let mut rest = rest;
                let ghost prev = rest@;
                rest.insert(0, v);
                proof {
                    lemma_view_seq_cons(prev, v);
                }
                Some((rest, e))
            },
            None => None,
        },
        None => None,
    }
}

/// One object member at or after `i`, as `spec_parse_member` says.
fn parse_member(s: &str, i: usize) -> (r: Option<((String, Json), usize)>)
    requires
        i <= s@.len(),
    ensures
        match r {
            Some(p) => spec_parse_member(s@, i as int) == Some(
                (((p.0).0@, json_view((p.0).1)), p.1 as int),
            ) && i < p.1 <= s@.len(),
            None => spec_parse_member(s@, i as int) is None,
        },
    decreases s@.len() - i, 1int,
{
    let n = s.unicode_len();
    let j = skip_ws(s, i);
    if j >= n || s.get_char(j) != '"' {
        return None;
    }
    match parse_string_body(s, j + 1) {
        Some((key, m)) => {
            let p = skip_ws(s, m);
            if p >= n || s.get_char(p) != ':' {
                return None;
            }
            match parse_value(s, p + 1) {
                Some((v, e)) => Some(((key, v), e)),
                None => None,
            }
        },
        None => None,
    }
}

/// The members of an object from just after the `{`, as `spec_parse_obj`
/// says.
fn parse_obj(s: &str, i: usize) -> (r: Option<(Vec<(String, Json)>, usize)>)
    requires
        i <= s@.len(),
    ensures
        match r {
            Some(p) => spec_parse_obj(s@, i as int) == Some(
                (json_view_fields(p.0@, 0), p.1 as int),
            ) && i < p.1 <= s@.len(),
            None => spec_parse_obj(s@, i as int) is None,
        },
    decreases s@.len() - i, 2int,
{
    let n = s.unicode_len();
    let j = skip_ws(s, i);
    if j >= n {
        return None;
    }
    if s.get_char(j) == '}' {
        let empty: Vec<(String, Json)> = Vec::new();
        return Some((empty, j + 1));
    }
    match parse_member(s, j) {
        Some((kv, m)) => match parse_obj_tail(s, m) {
            Some((rest, e)) => {
                let mut rest = rest;
                let ghost prev = rest@;
                rest.insert(0, kv);
                proof {
                    lemma_view_fields_cons(prev, kv);
                }
                Some((rest, e))
            },
            None => None,
        },
        None => None,
    }
}

/// The remainder of an object after a member, as `spec_parse_obj_tail`
/// says.
fn parse_obj_tail(s: &str, i: usize) -> (r: Option<(Vec<(String, Json)>, usize)>)
    requires
        i <= s@.len(),
    ensures
        match r {
            Some(p) => spec_parse_obj_tail(s@, i as int) == Some(
                (json_view_fields(p.0@, 0), p.1 as int),
            ) && i < p.1 <= s@.len(),
            None => spec_parse_obj_tail(s@, i as int) is None,
        },
    decreases s@.len() - i, 0int,
{
    let n = s.unicode_len();
    let j = skip_ws(s, i);
    if j >= n {
        return None;
    }
    if s.get_char(j) == '}' {
        let empty: Vec<(String, Json)> = Vec::new();
        return Some((empty, j + 1));
    }
    if s.get_char(j) != ',' {
        return None;
    }
    match parse_member(s, j + 1) {
        Some((kv, m)) => match parse_obj_tail(s, m) {
            Some((rest, e)) => {
                let mut rest = rest;
                let ghost prev = rest@;
                rest.insert(0, kv);
                proof {
                    lemma_view_fields_cons(prev, kv);
                }
                Some((rest, e))
            },
            None => None,
        },
        None => None,
    }
}

/// Parses a whole reply, as `spec_parse_json` says: one value with nothing
/// but whitespace around it, or nothing at all for malformed text.
pub fn parse_json(s: &str) -> (r: Option<Json>)
    ensures
        match r {
            Some(j) => spec_parse_json(s@) == Some(j@),
            None => spec_parse_json(s@) is None,
        },
{
    let n = s.unicode_len();
    match parse_value(s, 0) {
        Some((v, m)) => {
            let t = skip_ws(s, m);
            if t == n {
                Some(v)
            } else {
                None
            }
        },
        None => None,
    }
}

} // verus!
