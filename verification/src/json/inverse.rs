//! The printer inverts into the parser: parsing the printed text of a tree
//! returns that tree. Proved for every tree the printer can faithfully
//! write, which is every tree the record encoders produce.

use crate::digits::dec_seq;
use crate::digits::digit_char;
use crate::json::digits_val;
use crate::json::is_digit;
use crate::json::spec_digit_run;
use crate::json::spec_parse_number;
use crate::json::spec_print;
use crate::json::ws_char;
use crate::json::JsonV;
use vstd::prelude::*;

verus! {

/// A character that cannot extend a numeric literal to its left.
pub open spec fn num_boundary(c: char) -> bool {
    !is_digit(c) && c != '.' && c != 'e' && c != 'E'
}

/// Each decimal digit's character carries its value and nothing else.
proof fn lemma_digit_char_val(d: int)
    requires
        0 <= d <= 9,
    ensures
        is_digit(digit_char(d)),
        (digit_char(d) as int) - 48 == d,
        d >= 1 ==> digit_char(d) != '0',
{
}

/// The decimal numeral of `n`: at least one character, all digits, a
/// leading zero only for zero itself, which is a single digit.
proof fn lemma_dec_seq_props(n: int)
    requires
        n >= 0,
    ensures
        dec_seq(n).len() >= 1,
        forall|k: int| 0 <= k < dec_seq(n).len() ==> is_digit(#[trigger] dec_seq(n)[k]),
        n >= 1 ==> dec_seq(n)[0] != '0',
        n == 0 ==> dec_seq(n).len() == 1,
    decreases n,
{
    if n <= 9 {
        lemma_digit_char_val(n);
    } else {
        lemma_dec_seq_props(n / 10);
        lemma_digit_char_val(n % 10);
        assert(dec_seq(n) == dec_seq(n / 10) + seq![digit_char(n % 10)]);
        assert(dec_seq(n)[0] == dec_seq(n / 10)[0]);
        assert forall|k: int| 0 <= k < dec_seq(n).len() implies is_digit(
            #[trigger] dec_seq(n)[k],
        ) by {
            if k < dec_seq(n / 10).len() {
                assert(dec_seq(n)[k] == dec_seq(n / 10)[k]);
            } else {
                assert(dec_seq(n)[k] == digit_char(n % 10));
            }
        }
    }
}

/// Reading the digits of `n`'s numeral back gives `n`.
proof fn lemma_digits_val_of_dec(n: int, s: Seq<char>, a: int)
    requires
        n >= 0,
        0 <= a,
        a + dec_seq(n).len() <= s.len(),
        s.subrange(a, a + dec_seq(n).len()) =~= dec_seq(n),
    ensures
        digits_val(s, a, a + dec_seq(n).len()) == n,
    decreases n,
{
    lemma_dec_seq_props(n);
    let len = dec_seq(n).len() as int;
    if n <= 9 {
        assert(s[a] == dec_seq(n)[0]);
        lemma_digit_char_val(n);
        assert(digits_val(s, a, a) == 0);
        assert(digits_val(s, a, a + 1) == (s[a] as int) - 48);
    } else {
        assert(dec_seq(n) == dec_seq(n / 10) + seq![digit_char(n % 10)]);
        let plen = dec_seq(n / 10).len() as int;
        assert forall|k: int| 0 <= k < plen implies #[trigger] s.subrange(a, a + plen)[k]
            == dec_seq(n / 10)[k] by {
            assert(s[a + k] == s.subrange(a, a + len)[k]);
            assert(dec_seq(n)[k] == dec_seq(n / 10)[k]);
        }
        assert(s.subrange(a, a + plen) =~= dec_seq(n / 10));
        lemma_digits_val_of_dec(n / 10, s, a);
        lemma_digit_char_val(n % 10);
        assert(s[a + len - 1] == dec_seq(n)[len - 1]);
        assert(dec_seq(n)[len - 1] == digit_char(n % 10));
        assert(digits_val(s, a, a + len) == digits_val(s, a, a + len - 1) * 10 + ((s[a + len - 1]
            as int) - 48));
    }
}

/// A digit run ends exactly where the digits end.
proof fn lemma_digit_run_exact(s: Seq<char>, a: int, b: int)
    requires
        0 <= a <= b <= s.len(),
        forall|k: int| a <= k < b ==> is_digit(#[trigger] s[k]),
        b == s.len() || !is_digit(s[b]),
    ensures
        spec_digit_run(s, a) == b,
    decreases b - a,
{
    if a < b {
        lemma_digit_run_exact(s, a + 1, b);
    }
}

/// Parsing the printed text of an integer returns that integer and stops
/// at its end, provided the next character cannot extend a number.
proof fn lemma_parse_printed_int(neg: bool, mag: int, s: Seq<char>, i: int)
    requires
        0 <= mag <= u64::MAX,
        neg ==> mag > 0,
        0 <= i,
        i + spec_print(JsonV::Int { neg, mag }).len() <= s.len(),
        s.subrange(i, i + spec_print(JsonV::Int { neg, mag }).len()) =~= spec_print(
            JsonV::Int { neg, mag },
        ),
        i + spec_print(JsonV::Int { neg, mag }).len() == s.len() || num_boundary(
            s[i + spec_print(JsonV::Int { neg, mag }).len()],
        ),
    ensures
        spec_parse_number(s, i) == Some(
            (JsonV::Int { neg, mag }, i + spec_print(JsonV::Int { neg, mag }).len()),
        ),
{
    let text = spec_print(JsonV::Int { neg, mag });
    let len = text.len() as int;
    lemma_dec_seq_props(mag);
    let d0 = if neg {
        i + 1
    } else {
        i
    };
    let dlen = dec_seq(mag).len() as int;
    if neg {
        assert(s[i] == text[0]);
        assert(text[0] == '-');
    } else {
        assert(s[i] == text[0]);
        assert(text[0] == dec_seq(mag)[0]);
        assert(is_digit(s[i]));
        assert(s[i] != '-');
    }
    assert(s.subrange(d0, d0 + dlen) =~= dec_seq(mag)) by {
        assert forall|k: int| 0 <= k < dlen implies s.subrange(d0, d0 + dlen)[k] == dec_seq(
            mag,
        )[k] by {
            assert(s[d0 + k] == s.subrange(i, i + len)[d0 - i + k]);
            if neg {
                assert(text[1 + k] == dec_seq(mag)[k]);
            } else {
                assert(text[k] == dec_seq(mag)[k]);
            }
        }
    }
    assert forall|k: int| d0 <= k < d0 + dlen implies is_digit(#[trigger] s[k]) by {
        assert(s[k] == s.subrange(d0, d0 + dlen)[k - d0]);
        assert(is_digit(dec_seq(mag)[k - d0]));
    }
    lemma_digit_run_exact(s, d0, d0 + dlen);
    let e0 = d0 + dlen;
    assert(e0 == i + len);
    assert(s[d0] == dec_seq(mag)[0]);
    if mag == 0 {
        assert(dlen == 1);
    } else {
        assert(s[d0] != '0');
    }
    assert(!(e0 < s.len() && s[e0] == '.'));
    assert(!(e0 < s.len() && (s[e0] == 'e' || s[e0] == 'E')));
    lemma_digits_val_of_dec(mag, s, d0);
}

/// A character's code point, read as an integer, equals its unsigned
/// 32-bit value.
proof fn lemma_char_code(c: char)
    ensures
        0 <= c as int <= 0x10FFFF,
        c as int == (c as u32) as int,
{
}

/// Each hexadecimal digit's character carries its value.
proof fn lemma_hex_char_val(d: int)
    requires
        0 <= d <= 15,
    ensures
        crate::json::hex_val(crate::json::hex_char(d)) == Some(d),
{
}

/// Parsing an escaped string body followed by its closing quote returns
/// the remaining characters and stops just after the quote.
proof fn lemma_parse_escaped(body: Seq<char>, k: int, s: Seq<char>, i: int)
    requires
        0 <= k <= body.len(),
        0 <= i,
        i + crate::json::escape_str(body, k).len() + 1 <= s.len(),
        s.subrange(i, i + crate::json::escape_str(body, k).len() + 1) =~= crate::json::escape_str(
            body,
            k,
        ) + seq!['"'],
    ensures
        crate::json::spec_parse_string(s, i) == Some(
            (body.subrange(k, body.len() as int), i + crate::json::escape_str(body, k).len() + 1),
        ),
    decreases body.len() - k,
{
    let etext = crate::json::escape_str(body, k);
    let elen = etext.len() as int;
    assert forall|t: int| 0 <= t < elen + 1 implies #[trigger] s[i + t] == (etext + seq!['"'])[
        t
    ] by {
        assert(s[i + t] == s.subrange(i, i + elen + 1)[t]);
    }
    if k == body.len() {
        assert(s[i + 0] == '"');
        assert(body.subrange(k, body.len() as int) =~= Seq::<char>::empty());
    } else {
        let c = body[k];
        let e1 = crate::json::esc_char(c);
        let rest = crate::json::escape_str(body, k + 1);
        let rlen = rest.len() as int;
        assert(etext == e1 + rest);
        let i2 = i + e1.len() as int;
        assert forall|t: int| 0 <= t < rlen + 1 implies #[trigger] s.subrange(
            i2,
            i2 + rlen + 1,
        )[t] == (rest + seq!['"'])[t] by {
            assert(s[i2 + t] == s.subrange(i, i + elen + 1)[e1.len() + t]);
            assert((etext + seq!['"'])[e1.len() + t] == (rest + seq!['"'])[t]);
        }
        assert(s.subrange(i2, i2 + rlen + 1) =~= rest + seq!['"']);
        lemma_parse_escaped(body, k + 1, s, i2);
        assert(seq![c] + body.subrange(k + 1, body.len() as int) =~= body.subrange(
            k,
            body.len() as int,
        ));
        if c == '"' {
            assert(s[i + 0] == '\\' && s[i + 1] == '"');
        } else if c == '\\' {
            assert(s[i + 0] == '\\' && s[i + 1] == '\\');
        } else if c == '\n' {
            assert(s[i + 0] == '\\' && s[i + 1] == 'n');
        } else if c == '\r' {
            assert(s[i + 0] == '\\' && s[i + 1] == 'r');
        } else if c == '\t' {
            assert(s[i + 0] == '\\' && s[i + 1] == 't');
        } else if c == '\u{8}' {
            assert(s[i + 0] == '\\' && s[i + 1] == 'b');
        } else if c == '\u{c}' {
            assert(s[i + 0] == '\\' && s[i + 1] == 'f');
        } else if (c as int) < 32 {
            assert(s[i + 0] == '\\' && s[i + 1] == 'u' && s[i + 2] == '0' && s[i + 3] == '0' && s[
                i + 4
            ] == crate::json::hex_char((c as int) / 16) && s[i + 5] == crate::json::hex_char(
                (c as int) % 16,
            ));
            lemma_char_code(c);
            assert(0 <= (c as int) && (c as int) < 32);
            lemma_hex_char_val((c as int) / 16);
            lemma_hex_char_val((c as int) % 16);
            assert(crate::json::hex_val(s[i + 2]) == Some(0int));
            assert(crate::json::hex_val(s[i + 3]) == Some(0int));
            assert(crate::json::hex4(s, i + 2) == Some(
                0 * 4096 + 0 * 256 + ((c as int) / 16) * 16 + (c as int) % 16,
            ));
            let u = ((c as int) / 16) * 16 + (c as int) % 16;
            assert(u == c as int);
            assert((u as u32) == c as u32);
            vstd::utf8::char_u32_cast(c, u as u32);
            assert(((u as u32) as char) == c);
        } else {
            assert(s[i + 0] == c);
            assert(c != '"' && c != '\\' && !((c as int) < 32));
        }
    }
}

/// A chunk of a known stretch of text, seen through the enclosing text.
proof fn lemma_sub_chunk(s: Seq<char>, i: int, text: Seq<char>, a: int, b: int)
    requires
        0 <= i,
        i + text.len() <= s.len(),
        s.subrange(i, i + text.len()) =~= text,
        0 <= a <= b <= text.len(),
    ensures
        s.subrange(i + a, i + b) =~= text.subrange(a, b),
{
    assert forall|t: int| 0 <= t < b - a implies #[trigger] s.subrange(i + a, i + b)[t]
        == text.subrange(a, b)[t] by {
        assert(s[i + a + t] == s.subrange(i, i + text.len())[a + t]);
    }
}

/// One character of a known stretch of text.
proof fn lemma_sub_at(s: Seq<char>, i: int, text: Seq<char>, t: int)
    requires
        0 <= i,
        i + text.len() <= s.len(),
        s.subrange(i, i + text.len()) =~= text,
        0 <= t < text.len(),
    ensures
        s[i + t] == text[t],
{
    assert(s[i + t] == s.subrange(i, i + text.len())[t]);
}

/// A tree the printer writes faithfully: integers fit 64 unsigned bits and
/// carry a minus sign only when they are negative, and no raw numeric text
/// occurs. Every tree the record encoders produce is of this kind.
pub open spec fn printable(v: JsonV) -> bool
    decreases v, 0int, 0int,
{
    match v {
        JsonV::Null => true,
        JsonV::Bool(_) => true,
        JsonV::Int { neg, mag } => 0 <= mag <= u64::MAX && (neg ==> mag > 0),
        JsonV::NumText(_) => false,
        JsonV::Str(_) => true,
        JsonV::Arr(items) => printable_arr(items, 0),
        JsonV::Obj(fields) => printable_obj(fields, 0),
    }
}

/// Every item from index `i` on is printable.
pub open spec fn printable_arr(items: Seq<JsonV>, i: int) -> bool
    decreases items, items.len() - i, 1int,
{
    if i < 0 || i >= items.len() {
        true
    } else {
        printable(items[i]) && printable_arr(items, i + 1)
    }
}

/// Every member value from index `i` on is printable.
pub open spec fn printable_obj(fields: Seq<(Seq<char>, JsonV)>, i: int) -> bool
    decreases fields, fields.len() - i, 1int,
{
    if i < 0 || i >= fields.len() {
        true
    } else {
        printable(fields[i].1) && printable_obj(fields, i + 1)
    }
}

/// The first character a printed value can start with.
pub open spec fn value_first(c: char) -> bool {
    c == 'n' || c == 't' || c == 'f' || c == '"' || c == '[' || c == '{' || c == '-' || is_digit(
        c,
    )
}

/// Printed values are never empty and start with a value opener, which is
/// no whitespace and no delimiter.
proof fn lemma_print_first(v: JsonV)
    requires
        printable(v),
    ensures
        spec_print(v).len() >= 1,
        value_first(spec_print(v)[0]),
{
    reveal_strlit("null");
    reveal_strlit("true");
    reveal_strlit("false");
    match v {
        JsonV::Int { neg, mag } => {
            lemma_dec_seq_props(mag);
            if neg && mag > 0 {
                assert(spec_print(v)[0] == '-');
            } else {
                assert(spec_print(v)[0] == dec_seq(mag)[0]);
            }
        },
        _ => {},
    }
}

/// Parsing the printed text of a printable tree returns that tree and
/// stops at its end, provided the next character cannot extend a number.
proof fn lemma_parse_printed_value(v: JsonV, s: Seq<char>, i: int)
    requires
        printable(v),
        0 <= i,
        i + spec_print(v).len() <= s.len(),
        s.subrange(i, i + spec_print(v).len()) =~= spec_print(v),
        i + spec_print(v).len() == s.len() || num_boundary(s[i + spec_print(v).len()]),
    ensures
        crate::json::spec_parse_value(s, i) == Some((v, i + spec_print(v).len())),
    decreases v, 0int, 0int,
{
    let text = spec_print(v);
    let len = text.len() as int;
    lemma_print_first(v);
    lemma_sub_at(s, i, text, 0);
    assert(!ws_char(s[i]));
    reveal_strlit("null");
    reveal_strlit("true");
    reveal_strlit("false");
    match v {
        JsonV::Null => {
            lemma_sub_at(s, i, text, 1);
            lemma_sub_at(s, i, text, 2);
            lemma_sub_at(s, i, text, 3);
        },
        JsonV::Bool(b) => {
            lemma_sub_at(s, i, text, 1);
            lemma_sub_at(s, i, text, 2);
            lemma_sub_at(s, i, text, 3);
            if !b {
                lemma_sub_at(s, i, text, 4);
            }
        },
        JsonV::Int { neg, mag } => {
            lemma_parse_printed_int(neg, mag, s, i);
        },
        JsonV::NumText(_) => {
            assert(false);
        },
        JsonV::Str(body) => {
            let esc = crate::json::escape_str(body, 0);
            assert(text == seq!['"'] + esc + seq!['"']);
            lemma_sub_chunk(s, i, text, 1, len);
            assert(text.subrange(1, len) =~= esc + seq!['"']);
            lemma_parse_escaped(body, 0, s, i + 1);
            assert(body.subrange(0, body.len() as int) =~= body);
        },
        JsonV::Arr(items) => {
            let atext = crate::json::spec_print_arr(items, 0);
            assert(text == seq!['['] + atext + seq![']']);
            lemma_sub_chunk(s, i, text, 1, len);
            assert(text.subrange(1, len) =~= atext + seq![']']);
            lemma_parse_printed_arr(items, s, i + 1);
            assert(items.subrange(0, items.len() as int) =~= items);
        },
        JsonV::Obj(fields) => {
            let otext = crate::json::spec_print_obj(fields, 0);
            assert(text == seq!['{'] + otext + seq!['}']);
            lemma_sub_chunk(s, i, text, 1, len);
            assert(text.subrange(1, len) =~= otext + seq!['}']);
            lemma_parse_printed_obj(fields, s, i + 1);
            assert(fields.subrange(0, fields.len() as int) =~= fields);
        },
    }
}

/// Parsing the printed items of an array, from just after the bracket,
/// returns them all and stops after the closing bracket.
proof fn lemma_parse_printed_arr(items: Seq<JsonV>, s: Seq<char>, i: int)
    requires
        printable_arr(items, 0),
        0 <= i,
        i + crate::json::spec_print_arr(items, 0).len() + 1 <= s.len(),
        s.subrange(i, i + crate::json::spec_print_arr(items, 0).len() + 1)
            =~= crate::json::spec_print_arr(items, 0) + seq![']'],
    ensures
        crate::json::spec_parse_arr(s, i) == Some(
            (items, i + crate::json::spec_print_arr(items, 0).len() + 1),
        ),
    decreases items, items.len() + 1, 0int,
{
    let atext = crate::json::spec_print_arr(items, 0);
    let whole = atext + seq![']'];
    if items.len() == 0 {
        lemma_sub_at(s, i, whole, 0);
        assert(s[i] == ']');
        assert(items =~= Seq::<JsonV>::empty());
    } else {
        let vtext = spec_print(items[0]);
        let rest = crate::json::spec_print_arr(items, 1);
        assert(atext == vtext + rest);
        lemma_print_first(items[0]);
        lemma_sub_at(s, i, whole, 0);
        assert(s[i] == vtext[0]);
        assert(!ws_char(s[i]) && s[i] != ']');
        lemma_sub_chunk(s, i, whole, 0, vtext.len() as int);
        assert(whole.subrange(0, vtext.len() as int) =~= vtext);
        let m = i + vtext.len() as int;
        lemma_sub_at(s, i, whole, vtext.len() as int);
        if items.len() > 1 {
            lemma_print_arr_first(items, 1);
            assert(s[m] == ',');
        } else {
            assert(s[m] == ']');
        }
        assert(num_boundary(s[m]));
        lemma_parse_printed_value(items[0], s, i);
        lemma_sub_chunk(s, i, whole, vtext.len() as int, whole.len() as int);
        assert(whole.subrange(vtext.len() as int, whole.len() as int) =~= rest + seq![']']);
        lemma_parse_printed_arr_tail(items, 1, s, m);
        assert(seq![items[0]] + items.subrange(1, items.len() as int) =~= items);
    }
}

/// A printed array continuation from index `k` of at least one more item
/// starts with its separating comma.
proof fn lemma_print_arr_first(items: Seq<JsonV>, k: int)
    requires
        1 <= k < items.len(),
    ensures
        crate::json::spec_print_arr(items, k).len() >= 1,
        crate::json::spec_print_arr(items, k)[0] == ',',
{
}

/// Parsing the printed remainder of an array after a complete item returns
/// the remaining items and stops after the closing bracket.
proof fn lemma_parse_printed_arr_tail(items: Seq<JsonV>, k: int, s: Seq<char>, i: int)
    requires
        1 <= k <= items.len(),
        printable_arr(items, k),
        0 <= i,
        i + crate::json::spec_print_arr(items, k).len() + 1 <= s.len(),
        s.subrange(i, i + crate::json::spec_print_arr(items, k).len() + 1)
            =~= crate::json::spec_print_arr(items, k) + seq![']'],
    ensures
        crate::json::spec_parse_arr_tail(s, i) == Some(
            (
                items.subrange(k, items.len() as int),
                i + crate::json::spec_print_arr(items, k).len() + 1,
            ),
        ),
    decreases items, items.len() - k, 0int,
{
    let ttext = crate::json::spec_print_arr(items, k);
    let whole = ttext + seq![']'];
    if k == items.len() {
        lemma_sub_at(s, i, whole, 0);
        assert(s[i] == ']');
        assert(items.subrange(k, items.len() as int) =~= Seq::<JsonV>::empty());
    } else {
        let vtext = spec_print(items[k]);
        let rest = crate::json::spec_print_arr(items, k + 1);
        assert(ttext == seq![','] + vtext + rest);
        lemma_sub_at(s, i, whole, 0);
        assert(s[i] == ',');
        lemma_print_first(items[k]);
        lemma_sub_chunk(s, i, whole, 1, 1 + vtext.len() as int);
        assert(whole.subrange(1, 1 + vtext.len() as int) =~= vtext);
        let m = i + 1 + vtext.len() as int;
        lemma_sub_at(s, i, whole, 1 + vtext.len() as int);
        if k + 1 < items.len() {
            lemma_print_arr_first(items, k + 1);
            assert(s[m] == ',');
        } else {
            assert(s[m] == ']');
        }
        assert(num_boundary(s[m]));
        lemma_parse_printed_value(items[k], s, i + 1);
        lemma_sub_chunk(s, i, whole, 1 + vtext.len() as int, whole.len() as int);
        assert(whole.subrange(1 + vtext.len() as int, whole.len() as int) =~= rest + seq![']']);
        lemma_parse_printed_arr_tail(items, k + 1, s, m);
        assert(seq![items[k]] + items.subrange(k + 1, items.len() as int) =~= items.subrange(
            k,
            items.len() as int,
        ));
    }
}

/// A printed object continuation from index `k` of at least one more
/// member starts with its separating comma.
proof fn lemma_print_obj_first(fields: Seq<(Seq<char>, JsonV)>, k: int)
    requires
        1 <= k < fields.len(),
    ensures
        crate::json::spec_print_obj(fields, k).len() >= 1,
        crate::json::spec_print_obj(fields, k)[0] == ',',
{
}

/// Parsing one printed member at `i` (the key, the colon, the value)
/// returns it and stops at the end of its value.
proof fn lemma_parse_printed_member(fields: Seq<(Seq<char>, JsonV)>, k: int, s: Seq<char>, i: int)
    requires
        0 <= k < fields.len(),
        printable(fields[k].1),
        0 <= i,
        ({
            let key = fields[k].0;
            let esc = crate::json::escape_str(key, 0);
            let vtext = spec_print(fields[k].1);
            let mlen = 1 + esc.len() + 2 + vtext.len();
            &&& i + mlen <= s.len()
            &&& s.subrange(i, i + mlen as int) =~= seq!['"'] + esc + seq!['"', ':'] + vtext
            &&& (i + mlen == s.len() || num_boundary(s[i + mlen]))
        }),
    ensures
        ({
            let key = fields[k].0;
            let esc = crate::json::escape_str(key, 0);
            let vtext = spec_print(fields[k].1);
            let mlen = 1 + esc.len() + 2 + vtext.len();
            crate::json::spec_parse_member(s, i) == Some(
                ((key, fields[k].1), i + mlen as int),
            )
        }),
    decreases fields, fields.len() - k, 0int,
{
    let key = fields[k].0;
    let esc = crate::json::escape_str(key, 0);
    let vtext = spec_print(fields[k].1);
    let mtext = seq!['"'] + esc + seq!['"', ':'] + vtext;
    let mlen = mtext.len() as int;
    lemma_sub_at(s, i, mtext, 0);
    assert(s[i] == '"');
    let q = i + 1 + esc.len() as int;
    lemma_sub_chunk(s, i, mtext, 1, q - i + 1);
    assert(mtext.subrange(1, q - i + 1) =~= esc + seq!['"']);
    lemma_parse_escaped(key, 0, s, i + 1);
    assert(key.subrange(0, key.len() as int) =~= key);
    let m = q + 1;
    lemma_sub_at(s, i, mtext, m - i);
    assert(s[m] == ':');
    assert(!ws_char(s[m]));
    lemma_print_first(fields[k].1);
    lemma_sub_chunk(s, i, mtext, m - i + 1, mlen);
    assert(mtext.subrange(m - i + 1, mlen) =~= vtext);
    lemma_parse_printed_value(fields[k].1, s, m + 1);
    assert((key, fields[k].1) == fields[k]);
}

/// Parsing the printed members of an object, from just after the brace,
/// returns them all and stops after the closing brace.
proof fn lemma_parse_printed_obj(fields: Seq<(Seq<char>, JsonV)>, s: Seq<char>, i: int)
    requires
        printable_obj(fields, 0),
        0 <= i,
        i + crate::json::spec_print_obj(fields, 0).len() + 1 <= s.len(),
        s.subrange(i, i + crate::json::spec_print_obj(fields, 0).len() + 1)
            =~= crate::json::spec_print_obj(fields, 0) + seq!['}'],
    ensures
        crate::json::spec_parse_obj(s, i) == Some(
            (fields, i + crate::json::spec_print_obj(fields, 0).len() + 1),
        ),
    decreases fields, fields.len() + 1, 1int,
{
    let otext = crate::json::spec_print_obj(fields, 0);
    let whole = otext + seq!['}'];
    if fields.len() == 0 {
        lemma_sub_at(s, i, whole, 0);
        assert(s[i] == '}');
        assert(fields =~= Seq::<(Seq<char>, JsonV)>::empty());
    } else {
        let key = fields[0].0;
        let esc = crate::json::escape_str(key, 0);
        let vtext = spec_print(fields[0].1);
        let mtext = seq!['"'] + esc + seq!['"', ':'] + vtext;
        let mlen = mtext.len() as int;
        let rest = crate::json::spec_print_obj(fields, 1);
        assert(otext == seq!['"'] + esc + seq!['"', ':'] + vtext + rest);
        assert(otext.subrange(0, mlen) =~= mtext);
        lemma_sub_at(s, i, whole, 0);
        assert(s[i] == '"');
        lemma_sub_chunk(s, i, whole, 0, mlen);
        assert(whole.subrange(0, mlen) =~= mtext);
        let m = i + mlen;
        lemma_sub_at(s, i, whole, mlen);
        if fields.len() > 1 {
            lemma_print_obj_first(fields, 1);
            assert(s[m] == ',');
        } else {
            assert(s[m] == '}');
        }
        assert(num_boundary(s[m]));
        lemma_parse_printed_member(fields, 0, s, i);
        lemma_sub_chunk(s, i, whole, mlen, whole.len() as int);
        assert(whole.subrange(mlen, whole.len() as int) =~= rest + seq!['}']);
        lemma_parse_printed_obj_tail(fields, 1, s, m);
        assert(seq![fields[0]] + fields.subrange(1, fields.len() as int) =~= fields);
    }
}

/// Parsing the printed remainder of an object after a complete member
/// returns the remaining members and stops after the closing brace.
proof fn lemma_parse_printed_obj_tail(
    fields: Seq<(Seq<char>, JsonV)>,
    k: int,
    s: Seq<char>,
    i: int,
)
    requires
        1 <= k <= fields.len(),
        printable_obj(fields, k),
        0 <= i,
        i + crate::json::spec_print_obj(fields, k).len() + 1 <= s.len(),
        s.subrange(i, i + crate::json::spec_print_obj(fields, k).len() + 1)
            =~= crate::json::spec_print_obj(fields, k) + seq!['}'],
    ensures
        crate::json::spec_parse_obj_tail(s, i) == Some(
            (
                fields.subrange(k, fields.len() as int),
                i + crate::json::spec_print_obj(fields, k).len() + 1,
            ),
        ),
    decreases fields, fields.len() - k, 1int,
{
    let ttext = crate::json::spec_print_obj(fields, k);
    let whole = ttext + seq!['}'];
    if k == fields.len() {
        lemma_sub_at(s, i, whole, 0);
        assert(s[i] == '}');
        assert(fields.subrange(k, fields.len() as int) =~= Seq::<(Seq<char>, JsonV)>::empty());
    } else {
        let key = fields[k].0;
        let esc = crate::json::escape_str(key, 0);
        let vtext = spec_print(fields[k].1);
        let mtext = seq!['"'] + esc + seq!['"', ':'] + vtext;
        let mlen = mtext.len() as int;
        let rest = crate::json::spec_print_obj(fields, k + 1);
        assert(ttext == seq![','] + seq!['"'] + esc + seq!['"', ':'] + vtext + rest);
        lemma_sub_at(s, i, whole, 0);
        assert(s[i] == ',');
        lemma_sub_chunk(s, i, whole, 1, 1 + mlen);
        assert(whole.subrange(1, 1 + mlen) =~= mtext);
        let m = i + 1 + mlen;
        lemma_sub_at(s, i, whole, 1 + mlen);
        if k + 1 < fields.len() {
            lemma_print_obj_first(fields, k + 1);
            assert(s[m] == ',');
        } else {
            assert(s[m] == '}');
        }
        assert(num_boundary(s[m]));
        lemma_parse_printed_member(fields, k, s, i + 1);
        lemma_sub_chunk(s, i, whole, 1 + mlen, whole.len() as int);
        assert(whole.subrange(1 + mlen, whole.len() as int) =~= rest + seq!['}']);
        lemma_parse_printed_obj_tail(fields, k + 1, s, m);
        assert(seq![fields[k]] + fields.subrange(k + 1, fields.len() as int) =~= fields.subrange(
            k,
            fields.len() as int,
        ));
    }
}

/// The law that the wire text is faithful: parsing the printed text of any
/// printable tree returns exactly that tree.
pub proof fn lemma_print_parse_roundtrip(v: JsonV)
    requires
        printable(v),
    ensures
        crate::json::spec_parse_json(spec_print(v)) == Some(v),
{
    let s = spec_print(v);
    assert(s.subrange(0, s.len() as int) =~= s);
    lemma_parse_printed_value(v, s, 0);
}

} // verus!
