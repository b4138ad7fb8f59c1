//! The engine wire protocol: line-delimited JSON, one single-key
//! envelope object per line.  Outgoing lines (`ChangeLayer`,
//! `RequestLayerNames`, `ActOnFakeKey`) are built here; incoming lines
//! (`LayerChange`, `LayerNames`) are parsed here, in the canonical form
//! the engine's serializer emits.  Anything else on the wire is
//! protocol-unexpected and parses to [`EngineMsg::Other`], which
//! callers drop.
//!
//! Strings on the wire carry the canonical JSON escapes: `\"`, `\\`,
//! the short control forms `\b`, `\t`, `\n`, `\f`, `\r`, and lowercase
//! `\u00XX` for the remaining control characters.

use vstd::prelude::*;
use vstd::utf8::char_is_scalar;
use vstd::utf8::char_u32_cast;
use crate::strings::chars_to_string;
use crate::strings::str_to_chars;
use crate::window::strs_view;

verus! {

/// The canonical escape of one character inside a JSON string.
pub open spec fn esc_char(c: char) -> Seq<char> {
    if c == '"' {
        seq!['\\', '"']
    } else if c == '\\' {
        seq!['\\', '\\']
    } else if c == '\u{8}' {
        seq!['\\', 'b']
    } else if c == '\t' {
        seq!['\\', 't']
    } else if c == '\n' {
        seq!['\\', 'n']
    } else if c == '\u{c}' {
        seq!['\\', 'f']
    } else if c == '\r' {
        seq!['\\', 'r']
    } else if (c as u32) < 0x20 {
        seq!['\\', 'u', '0', '0', hex_digit((c as u32) as int / 16), hex_digit((c as u32) as int % 16)]
    } else {
        seq![c]
    }
}

/// Lowercase hexadecimal digit for a value below 16.
pub open spec fn hex_digit(v: int) -> char {
    if 0 <= v < 10 {
        (('0' as u32) + v) as char
    } else {
        (('a' as u32) + v - 10) as char
    }
}

/// The canonical escape of a whole string.
pub open spec fn json_escape(s: Seq<char>) -> Seq<char>
    decreases s.len(),
{
    if s.len() == 0 {
        Seq::empty()
    } else {
        esc_char(s[0]) + json_escape(s.drop_first())
    }
}

/// The outgoing `ChangeLayer` line, without the trailing newline.
pub open spec fn change_layer_line(n: Seq<char>) -> Seq<char> {
    "{\"ChangeLayer\":{\"new\":\""@ + json_escape(n) + "\"}}"@
}

/// The outgoing `RequestLayerNames` line.
pub open spec fn request_layer_names_line() -> Seq<char> {
    "{\"RequestLayerNames\":{}}"@
}

/// The outgoing `ActOnFakeKey` line.
pub open spec fn act_on_fake_key_line(n: Seq<char>, a: Seq<char>) -> Seq<char> {
    "{\"ActOnFakeKey\":{\"name\":\""@ + json_escape(n) + "\",\"action\":\""@ + json_escape(a)
        + "\"}}"@
}

/// The incoming `LayerChange` line.
pub open spec fn layer_change_line(n: Seq<char>) -> Seq<char> {
    "{\"LayerChange\":{\"new\":\""@ + json_escape(n) + "\"}}"@
}

/// The body of the incoming `LayerNames` array: quoted names joined by
/// commas.
pub open spec fn names_array(names: Seq<Seq<char>>) -> Seq<char>
    decreases names.len(),
{
    if names.len() == 0 {
        Seq::empty()
    } else if names.len() == 1 {
        quoted(names[0])
    } else {
        quoted(names[0]) + seq![','] + names_array(names.drop_first())
    }
}

/// A name in its quotes.
pub open spec fn quoted(n: Seq<char>) -> Seq<char> {
    seq!['"'] + json_escape(n) + seq!['"']
}

/// The incoming `LayerNames` line.
pub open spec fn layer_names_line(names: Seq<Seq<char>>) -> Seq<char> {
    "{\"LayerNames\":{\"names\":["@ + names_array(names) + "]}}"@
}

/// Lowercase hexadecimal digit for a nibble.
fn hex_digit_char(v: u32) -> (c: char)
    requires
        v < 16,
    ensures
        c == hex_digit(v as int),
{
    if v < 10 {
        (48 + v as u8) as char
    } else {
        (87 + v as u8) as char
    }
}

/// Appends the canonical escape of one character.
fn push_escaped_char(out: &mut Vec<char>, c: char)
    ensures
        final(out)@ == old(out)@ + esc_char(c),
{
    let ghost pre = out@;
    if c == '"' {
        out.push('\\');
        out.push('"');
    } else if c == '\\' {
        out.push('\\');
        out.push('\\');
    } else if c == '\u{8}' {
        out.push('\\');
        out.push('b');
    } else if c == '\t' {
        out.push('\\');
        out.push('t');
    } else if c == '\n' {
        out.push('\\');
        out.push('n');
    } else if c == '\u{c}' {
        out.push('\\');
        out.push('f');
    } else if c == '\r' {
        out.push('\\');
        out.push('r');
    } else if (c as u32) < 0x20 {
        let v = c as u32;
        out.push('\\');
        out.push('u');
        out.push('0');
        out.push('0');
        out.push(hex_digit_char(v / 16));
        out.push(hex_digit_char(v % 16));
    } else {
        out.push(c);
    }
    proof {
        assert(out@ =~= pre + esc_char(c));
    }
}

/// Appends the canonical escape of a whole string.
fn append_escaped(out: &mut Vec<char>, s: &Vec<char>)
    ensures
        final(out)@ == old(out)@ + json_escape(s@),
{
    let ghost base = out@;
    let mut i: usize = 0;
    proof {
        assert(s@.skip(0) =~= s@);
    }
    while i < s.len()
        invariant
            i <= s@.len(),
            base + json_escape(s@) == out@ + json_escape(s@.skip(i as int)),
        decreases s@.len() - i,
    {
        let ghost rest = s@.skip(i as int);
        proof {
            assert(rest[0] == s@[i as int]);
            assert(rest.drop_first() =~= s@.skip(i as int + 1));
            assert(json_escape(rest) == esc_char(s@[i as int]) + json_escape(
                s@.skip(i as int + 1),
            ));
        }
        let ghost pre = out@;
        push_escaped_char(out, s[i]);
        proof {
            assert(pre + json_escape(rest) =~= out@ + json_escape(s@.skip(i as int + 1)));
        }
        i = i + 1;
    }
    proof {
        assert(s@.skip(i as int) =~= Seq::<char>::empty());
        assert(out@ + json_escape(s@.skip(i as int)) =~= out@);
    }
}

/// Appends a vector of characters.
fn append_chars(out: &mut Vec<char>, s: &Vec<char>)
    ensures
        final(out)@ == old(out)@ + s@,
{
    let ghost base = out@;
    let mut i: usize = 0;
    while i < s.len()
        invariant
            i <= s@.len(),
            out@ == base + s@.subrange(0, i as int),
        decreases s@.len() - i,
    {
        out.push(s[i]);
        i = i + 1;
        proof {
            assert(out@ =~= base + s@.subrange(0, i as int));
        }
    }
    proof {
        assert(base + s@.subrange(0, i as int) =~= base + s@);
    }
}

/// Builds the `ChangeLayer` line for a layer name.
pub fn encode_change_layer(name: &str) -> (r: String)
    ensures
        r@ == change_layer_line(name@),
{
    let mut out: Vec<char> = str_to_chars("{\"ChangeLayer\":{\"new\":\"");
    let nm = str_to_chars(name);
    append_escaped(&mut out, &nm);
    let tail = str_to_chars("\"}}");
    append_chars(&mut out, &tail);
    chars_to_string(&out)
}

/// Builds the `RequestLayerNames` line.
pub fn encode_request_layer_names() -> (r: String)
    ensures
        r@ == request_layer_names_line(),
{
    String::from_str("{\"RequestLayerNames\":{}}")
}

/// Builds the `ActOnFakeKey` line for a virtual-key name and action.
pub fn encode_act_on_fake_key(name: &str, action: &str) -> (r: String)
    ensures
        r@ == act_on_fake_key_line(name@, action@),
{
    let mut out: Vec<char> = str_to_chars("{\"ActOnFakeKey\":{\"name\":\"");
    let nm = str_to_chars(name);
    append_escaped(&mut out, &nm);
    let mid = str_to_chars("\",\"action\":\"");
    append_chars(&mut out, &mid);
    let ac = str_to_chars(action);
    append_escaped(&mut out, &ac);
    let tail = str_to_chars("\"}}");
    append_chars(&mut out, &tail);
    chars_to_string(&out)
}

/// Whether a character is a lowercase hexadecimal digit.
pub open spec fn is_hex_lower(c: char) -> bool {
    (48 <= (c as u32) && (c as u32) <= 57) || (97 <= (c as u32) && (c as u32) <= 102)
}

/// Value of a lowercase hexadecimal digit.
pub open spec fn hex_val(c: char) -> int {
    if 48 <= (c as u32) && (c as u32) <= 57 {
        (c as u32) - 48
    } else {
        (c as u32) - 87
    }
}

/// Undoes the canonical escaping, rejecting anything the canonical
/// escaper would not have produced: a trailing backslash, an unknown
/// escape, a `\u` form outside `\u00XX` with a value that has a short
/// form or is not a control character, and any raw quote, backslash or
/// control character.
pub open spec fn spec_unescape(s: Seq<char>) -> Option<Seq<char>>
    decreases s.len(),
{
    if s.len() == 0 {
        Some(Seq::empty())
    } else if s[0] == '\\' {
        if s.len() < 2 {
            None
        } else {
            let e = s[1];
            if e == '"' {
                cons_unescaped('"', spec_unescape(s.skip(2)))
            } else if e == '\\' {
                cons_unescaped('\\', spec_unescape(s.skip(2)))
            } else if e == 'b' {
                cons_unescaped('\u{8}', spec_unescape(s.skip(2)))
            } else if e == 't' {
                cons_unescaped('\t', spec_unescape(s.skip(2)))
            } else if e == 'n' {
                cons_unescaped('\n', spec_unescape(s.skip(2)))
            } else if e == 'f' {
                cons_unescaped('\u{c}', spec_unescape(s.skip(2)))
            } else if e == 'r' {
                cons_unescaped('\r', spec_unescape(s.skip(2)))
            } else if e == 'u' {
                if s.len() < 6 {
                    None
                } else if s[2] == '0' && s[3] == '0' && is_hex_lower(s[4]) && is_hex_lower(s[5]) {
                    let v = 16 * hex_val(s[4]) + hex_val(s[5]);
                    if v < 0x20 && v != 8 && v != 9 && v != 10 && v != 12 && v != 13 {
                        cons_unescaped(v as char, spec_unescape(s.skip(6)))
                    } else {
                        None
                    }
                } else {
                    None
                }
            } else {
                None
            }
        }
    } else if s[0] == '"' || (s[0] as u32) < 0x20 {
        None
    } else {
        cons_unescaped(s[0], spec_unescape(s.skip(1)))
    }
}

/// Prepends a character to an optional unescaped tail.
pub open spec fn cons_unescaped(c: char, rest: Option<Seq<char>>) -> Option<Seq<char>> {
    match rest {
        Some(r) => Some(seq![c] + r),
        None => None,
    }
}

/// Index of the quote that closes a JSON string scanned from `i`,
/// skipping over backslash escapes.
pub open spec fn find_str_end(s: Seq<char>, i: int) -> Option<int>
    decreases s.len() - i,
{
    if i < 0 || i >= s.len() {
        None
    } else if s[i] == '\\' {
        if i + 2 > s.len() {
            None
        } else {
            find_str_end(s, i + 2)
        }
    } else if s[i] == '"' {
        Some(i)
    } else {
        find_str_end(s, i + 1)
    }
}

/// The closing quote lies at or after the scan start and inside the
/// text.
pub proof fn lemma_find_str_end_bounds(s: Seq<char>, i: int)
    ensures
        match find_str_end(s, i) {
            Some(p) => i <= p < s.len() && s[p] == '"',
            None => true,
        },
    decreases s.len() - i,
{
    if i < 0 || i >= s.len() {
    } else if s[i] == '\\' {
        if i + 2 <= s.len() {
            lemma_find_str_end_bounds(s, i + 2);
        }
    } else if s[i] == '"' {
    } else {
        lemma_find_str_end_bounds(s, i + 1);
    }
}

/// `s` starts with `p`.
pub open spec fn has_prefix(s: Seq<char>, p: Seq<char>) -> bool {
    s.len() >= p.len() && s.subrange(0, p.len() as int) == p
}

/// The names of a canonical `LayerNames` array read from position `i`,
/// which must sit on the opening quote of the first name; the array is
/// followed by the closing `]}}` of the line.
pub open spec fn parse_names_from(s: Seq<char>, i: int) -> Option<Seq<Seq<char>>>
    decreases s.len() - i,
    when 0 <= i
    via parse_names_from_decreases
{
    if i >= s.len() || s[i] != '"' {
        None
    } else {
        match find_str_end(s, i + 1) {
            None => None,
            Some(p) => match spec_unescape(s.subrange(i + 1, p)) {
                None => None,
                Some(t) => if p + 1 < s.len() && s[p + 1] == ',' {
                    match parse_names_from(s, p + 2) {
                        Some(r) => Some(seq![t] + r),
                        None => None,
                    }
                } else if s.subrange(p + 1, s.len() as int) == "]}}"@ {
                    Some(seq![t])
                } else {
                    None
                },
            },
        }
    }
}

#[via_fn]
proof fn parse_names_from_decreases(s: Seq<char>, i: int) {
    lemma_find_str_end_bounds(s, i + 1);
}

/// Canonical unescaping undoes canonical escaping.
#[verifier::rlimit(60)]
pub proof fn lemma_unescape_escape(n: Seq<char>)
    ensures
        spec_unescape(json_escape(n)) == Some(n),
    decreases n.len(),
{
    if n.len() == 0 {
        assert(n =~= Seq::<char>::empty());
    } else {
        let c = n[0];
        let e = esc_char(c);
        let r = json_escape(n.drop_first());
        let s = e + r;
        assert(json_escape(n) == s);
        lemma_unescape_escape(n.drop_first());
        if c == '"' || c == '\\' || c == '\u{8}' || c == '\t' || c == '\n' || c == '\u{c}' || c
            == '\r' {
            assert(s[0] == '\\');
            assert(s.len() >= 2);
            assert(s.skip(2) =~= r);
            assert(seq![c] + n.drop_first() =~= n);
        } else if (c as u32) < 0x20 {
            char_is_scalar(c);
            char_u32_cast(c, c as u32);
            let v = (c as u32) as int;
            let h1 = hex_digit(v / 16);
            let h0 = hex_digit(v % 16);
            assert(s[0] == '\\');
            assert(s[1] == 'u');
            assert(s[2] == '0');
            assert(s[3] == '0');
            assert(s[4] == h1);
            assert(s[5] == h0);
            assert(s.len() >= 6);
            assert(v / 16 < 2);
            assert(is_hex_lower(h1));
            assert(is_hex_lower(h0));
            assert(hex_val(h1) == v / 16);
            assert(hex_val(h0) == v % 16);
            assert(16 * (v / 16) + v % 16 == v);
            assert((v as char) == c);
            assert(v != 8 && v != 9 && v != 10 && v != 12 && v != 13);
            assert(s.skip(6) =~= r);
            assert(seq![c] + n.drop_first() =~= n);
        } else {
            assert(s[0] == c);
            assert(s.skip(1) =~= r);
            assert(seq![c] + n.drop_first() =~= n);
        }
    }
}

/// Scanning for a closing quote behind a fixed prefix lands where the
/// scan of the tail alone lands, shifted by the prefix.
pub proof fn lemma_find_shift(a: Seq<char>, b: Seq<char>, j: int)
    requires
        0 <= j,
    ensures
        match find_str_end(b, j) {
            Some(p) => find_str_end(a + b, a.len() + j) == Some(a.len() + p),
            None => find_str_end(a + b, a.len() + j) == None::<int>,
        },
    decreases b.len() - j,
{
    let s = a + b;
    if j >= b.len() {
    } else {
        assert(s[a.len() + j] == b[j]);
        if b[j] == '\\' {
            if j + 2 <= b.len() {
                lemma_find_shift(a, b, j + 2);
            }
        } else if b[j] == '"' {
        } else {
            lemma_find_shift(a, b, j + 1);
        }
    }
}

/// The scan over an escaped name followed by its closing quote finds
/// exactly that quote.
pub proof fn lemma_find_end_over_escaped(n: Seq<char>, rest: Seq<char>)
    requires
        rest.len() > 0,
        rest[0] == '"',
    ensures
        find_str_end(json_escape(n) + rest, 0) == Some(json_escape(n).len() as int),
    decreases n.len(),
{
    if n.len() == 0 {
        assert(json_escape(n) + rest =~= rest);
    } else {
        let c = n[0];
        let e = esc_char(c);
        let r = json_escape(n.drop_first());
        let b = r + rest;
        let s = json_escape(n) + rest;
        assert(s =~= e + b);
        lemma_find_end_over_escaped(n.drop_first(), rest);
        lemma_find_shift(e, b, 0);
        if c == '"' || c == '\\' || c == '\u{8}' || c == '\t' || c == '\n' || c == '\u{c}' || c
            == '\r' {
            assert(s[0] == '\\');
            assert(find_str_end(s, 0) == find_str_end(s, 2));
            assert(find_str_end(s, 2) == Some(e.len() + find_str_end(b, 0)->Some_0));
        } else if (c as u32) < 0x20 {
            let v = (c as u32) as int;
            assert(s[0] == '\\');
            assert(s[1] == 'u');
            assert(s[2] == '0');
            assert(s[3] == '0');
            assert(s[4] == hex_digit(v / 16));
            assert(s[5] == hex_digit(v % 16));
            assert(v / 16 < 2);
            assert((s[2] as u32) != 34 && (s[2] as u32) != 92);
            assert((s[3] as u32) != 34 && (s[3] as u32) != 92);
            assert((s[4] as u32) != 34 && (s[4] as u32) != 92);
            assert((s[5] as u32) != 34 && (s[5] as u32) != 92);
            assert(find_str_end(s, 0) == find_str_end(s, 2));
            assert(find_str_end(s, 2) == find_str_end(s, 3));
            assert(find_str_end(s, 3) == find_str_end(s, 4));
            assert(find_str_end(s, 4) == find_str_end(s, 5));
            assert(find_str_end(s, 5) == find_str_end(s, 6));
            assert(find_str_end(s, 6) == Some(e.len() + find_str_end(b, 0)->Some_0));
        } else {
            assert(s[0] == c);
            char_is_scalar(c);
            char_u32_cast(c, c as u32);
            char_u32_cast('"', 34);
            char_u32_cast('\\', 92);
            assert((c as u32) != 34 && (c as u32) != 92);
            assert(find_str_end(s, 0) == find_str_end(s, 1));
            assert(find_str_end(s, 1) == Some(e.len() + find_str_end(b, 0)->Some_0));
        }
    }
}

/// Parsing a canonical `LayerChange` line yields exactly the layer
/// name that was encoded: the wire format round-trips.
pub proof fn lemma_parse_change_roundtrip(n: Seq<char>)
    ensures
        spec_parse_line(layer_change_line(n)) == MsgView::Change(n),
{
    let lcp = "{\"LayerChange\":{\"new\":\""@;
    let close = "\"}}"@;
    let e = json_escape(n);
    let s = layer_change_line(n);
    assert(s =~= lcp + (e + close));
    assert(s.subrange(0, lcp.len() as int) =~= lcp);
    reveal_strlit("\"}}");
    assert(close[0] == '"');
    lemma_find_end_over_escaped(n, close);
    lemma_find_shift(lcp, e + close, 0);
    let p = lcp.len() + e.len();
    assert(find_str_end(s, lcp.len() as int) == Some(p as int));
    assert(s.subrange(p as int, s.len() as int) =~= close);
    assert(s.subrange(lcp.len() as int, p as int) =~= e);
    lemma_unescape_escape(n);
}

/// Parsing the quoted names of a canonical array chunk yields exactly
/// those names.
proof fn lemma_parse_names_chunk(names: Seq<Seq<char>>, s: Seq<char>, i: int)
    requires
        names.len() > 0,
        0 <= i <= s.len(),
        s.subrange(i, s.len() as int) == names_array(names) + "]}}"@,
    ensures
        parse_names_from(s, i) == Some(names),
    decreases names.len(),
{
    reveal_strlit("]}}");
    let close = "]}}"@;
    let n0 = names[0];
    let e = json_escape(n0);
    let tail = s.subrange(i, s.len() as int);
    let rest_arr: Seq<char> = if names.len() == 1 {
        Seq::empty()
    } else {
        seq![','] + names_array(names.drop_first())
    };
    assert(names_array(names) =~= quoted(n0) + rest_arr);
    assert(tail =~= seq!['"'] + (e + (seq!['"'] + (rest_arr + close))));
    assert(s[i] == tail[0]);
    assert(s[i] == '"');
    let after_quote = e + (seq!['"'] + (rest_arr + close));
    assert forall|k: int| 0 <= k < s.len() - (i + 1) implies s.subrange(i + 1, s.len() as int)[k]
        == after_quote[k] by {
        assert(s.subrange(i + 1, s.len() as int)[k] == s[i + 1 + k]);
        assert(s[i + 1 + k] == tail[k + 1]);
    }
    assert(s.subrange(i + 1, s.len() as int) =~= after_quote);
    assert(s =~= s.subrange(0, i + 1) + after_quote);
    assert((seq!['"'] + (rest_arr + close))[0] == '"');
    lemma_find_end_over_escaped(n0, seq!['"'] + (rest_arr + close));
    lemma_find_shift(s.subrange(0, i + 1), after_quote, 0);
    let p = i + 1 + e.len();
    assert(find_str_end(s, i + 1) == Some(p as int));
    assert(s.subrange(i + 1, p as int) =~= e);
    lemma_unescape_escape(n0);
    assert(s[p] == after_quote[e.len() as int]);
    if names.len() == 1 {
        assert(s.subrange(p + 1, s.len() as int) =~= close);
        if p + 1 < s.len() && s[p + 1] == ',' {
            assert(close[0] == ']');
            assert(s[p + 1] == close[0]);
            assert(false);
        }
        assert(parse_names_from(s, i) == Some(seq![n0]));
        assert(seq![n0] =~= names);
    } else {
        assert(s[p + 1] == rest_arr[0]);
        assert(s[p + 1] == ',');
        assert(s.subrange(p + 2, s.len() as int) =~= names_array(names.drop_first()) + close);
        assert(names_array(names.drop_first()).len() + close.len() > 0);
        lemma_parse_names_chunk(names.drop_first(), s, p + 2);
        assert(parse_names_from(s, i) == Some(seq![n0] + names.drop_first()));
        assert(seq![n0] + names.drop_first() =~= names);
    }
}

/// Parsing a canonical `LayerNames` line yields exactly the names that
/// were encoded: the wire format round-trips.
pub proof fn lemma_parse_names_roundtrip(names: Seq<Seq<char>>)
    ensures
        spec_parse_line(layer_names_line(names)) == MsgView::Names(names),
{
    let lcp = "{\"LayerChange\":{\"new\":\""@;
    let lnp = "{\"LayerNames\":{\"names\":["@;
    let close = "]}}"@;
    let s = layer_names_line(names);
    reveal_strlit("{\"LayerChange\":{\"new\":\"");
    reveal_strlit("{\"LayerNames\":{\"names\":[");
    reveal_strlit("]}}");
    assert(s =~= lnp + (names_array(names) + close));
    assert(s.subrange(0, lnp.len() as int) =~= lnp);
    if has_prefix(s, lcp) {
        assert(s.subrange(0, lcp.len() as int)[7] == lcp[7]);
        assert(s[7] == lnp[7]);
        assert(false);
    }
    if names.len() == 0 {
        assert(names_array(names) =~= Seq::<char>::empty());
        assert(s.subrange(lnp.len() as int, s.len() as int) =~= close);
        assert(names =~= Seq::<Seq<char>>::empty());
    } else {
        assert(quoted(names[0]).len() >= 2);
        assert(names_array(names).len() >= 2);
        if s.subrange(lnp.len() as int, s.len() as int) == close {
            assert(s.len() - lnp.len() == close.len());
            assert(false);
        }
        assert(s.subrange(lnp.len() as int, s.len() as int) =~= names_array(names) + close);
        lemma_parse_names_chunk(names, s, lnp.len() as int);
    }
}

/// One parsed engine line.
pub ghost enum MsgView {
    Change(Seq<char>),
    Names(Seq<Seq<char>>),
    Other,
}

/// What one incoming line means: a canonical `LayerChange`, a
/// canonical `LayerNames`, or something this daemon drops.
pub open spec fn spec_parse_line(s: Seq<char>) -> MsgView {
    let lcp = "{\"LayerChange\":{\"new\":\""@;
    let lnp = "{\"LayerNames\":{\"names\":["@;
    if has_prefix(s, lcp) {
        match find_str_end(s, lcp.len() as int) {
            None => MsgView::Other,
            Some(p) => if s.subrange(p, s.len() as int) == "\"}}"@ {
                match spec_unescape(s.subrange(lcp.len() as int, p)) {
                    Some(t) => MsgView::Change(t),
                    None => MsgView::Other,
                }
            } else {
                MsgView::Other
            },
        }
    } else if has_prefix(s, lnp) {
        if s.subrange(lnp.len() as int, s.len() as int) == "]}}"@ {
            MsgView::Names(Seq::empty())
        } else {
            match parse_names_from(s, lnp.len() as int) {
                Some(names) => MsgView::Names(names),
                None => MsgView::Other,
            }
        }
    } else {
        MsgView::Other
    }
}

/// One incoming engine message.
#[derive(Debug, Clone, PartialEq, Eq)]
pub enum EngineMsg {
    /// The engine announced its current layer.
    LayerChange(String),
    /// The engine announced the set of layers it knows.
    LayerNames(Vec<String>),
    /// Anything else: dropped as protocol-unexpected.
    Other,
}

/// View of a parsed message.
pub open spec fn msg_view(m: EngineMsg) -> MsgView {
    match m {
        EngineMsg::LayerChange(s) => MsgView::Change(s@),
        EngineMsg::LayerNames(v) => MsgView::Names(strs_view(v@)),
        EngineMsg::Other => MsgView::Other,
    }
}

/// Whether `s` starts with `p`, by characters.
fn chars_has_prefix(s: &Vec<char>, p: &Vec<char>) -> (b: bool)
    ensures
        b == has_prefix(s@, p@),
{
    if s.len() < p.len() {
        return false;
    }
    let mut i: usize = 0;
    while i < p.len()
        invariant
            p@.len() <= s@.len(),
            i <= p@.len(),
            forall|k: int| 0 <= k < i ==> s@[k] == p@[k],
        decreases p@.len() - i,
    {
        if s[i] != p[i] {
            proof {
                assert(s@.subrange(0, p@.len() as int)[i as int] != p@[i as int]);
            }
            return false;
        }
        i = i + 1;
    }
    proof {
        assert(s@.subrange(0, p@.len() as int) =~= p@);
    }
    true
}

/// The characters of `s` between `a` and `b`.
fn subvec(s: &Vec<char>, a: usize, b: usize) -> (v: Vec<char>)
    requires
        a <= b <= s@.len(),
    ensures
        v@ == s@.subrange(a as int, b as int),
{
    let mut v: Vec<char> = Vec::new();
    let mut i: usize = a;
    while i < b
        invariant
            a <= i <= b <= s@.len(),
            v@ == s@.subrange(a as int, i as int),
        decreases b - i,
    {
        v.push(s[i]);
        i = i + 1;
        proof {
            assert(v@ =~= s@.subrange(a as int, i as int));
        }
    }
    v
}

/// Finds the quote that closes a JSON string, skipping escapes.
fn find_str_end_exec(s: &Vec<char>, from: usize) -> (r: Option<usize>)
    ensures
        match r {
            Some(p) => find_str_end(s@, from as int) == Some(p as int) && p < s@.len(),
            None => find_str_end(s@, from as int) == None::<int>,
        },
{
    let mut i: usize = from;
    while i < s.len()
        invariant
            from <= i,
            find_str_end(s@, from as int) == find_str_end(s@, i as int),
        decreases s@.len() - i,
    {
        if s[i] == '\\' {
            if s.len() - i < 2 {
                // The scan would jump past the end: nothing closes the string.
                return None;
            }
            i = i + 2;
        } else if s[i] == '"' {
            return Some(i);
        } else {
            i = i + 1;
        }
    }
    None
}

/// Undoes the canonical escaping of a region, or reports it as not
/// canonical.
fn unescape_chars(s: &Vec<char>) -> (r: Option<Vec<char>>)
    ensures
        match r {
            Some(t) => spec_unescape(s@) == Some(t@),
            None => spec_unescape(s@) == None::<Seq<char>>,
        },
{
    let mut acc: Vec<char> = Vec::new();
    let mut i: usize = 0;
    proof {
        assert(s@.skip(0) =~= s@);
        assert(acc@ =~= Seq::<char>::empty());
    }
    while i < s.len()
        invariant
            i <= s@.len(),
            spec_unescape(s@) == (match spec_unescape(s@.skip(i as int)) {
                Some(r) => Some(acc@ + r),
                None => None::<Seq<char>>,
            }),
        decreases s@.len() - i,
    {
        let ghost rest = s@.skip(i as int);
        let ghost pre = acc@;
        proof {
            assert(rest[0] == s@[i as int]);
        }
        let c = s[i];
        if c == '\\' {
            if s.len() - i < 2 {
                proof {
                    assert(rest.len() < 2);
                }
                return None;
            }
            let e = s[i + 1];
            proof {
                assert(rest[1] == s@[i as int + 1]);
                assert(rest.skip(2) =~= s@.skip(i as int + 2));
            }
            let decoded: char;
            if e == '"' {
                decoded = '"';
            } else if e == '\\' {
                decoded = '\\';
            } else if e == 'b' {
                decoded = '\u{8}';
            } else if e == 't' {
                decoded = '\t';
            } else if e == 'n' {
                decoded = '\n';
            } else if e == 'f' {
                decoded = '\u{c}';
            } else if e == 'r' {
                decoded = '\r';
            } else if e == 'u' {
                if s.len() - i < 6 {
                    proof {
                        assert(rest.len() < 6);
                    }
                    return None;
                }
                let d2 = s[i + 2];
                let d3 = s[i + 3];
                let d4 = s[i + 4];
                let d5 = s[i + 5];
                proof {
                    assert(rest[2] == s@[i as int + 2]);
                    assert(rest[3] == s@[i as int + 3]);
                    assert(rest[4] == s@[i as int + 4]);
                    assert(rest[5] == s@[i as int + 5]);
                    assert(rest.skip(6) =~= s@.skip(i as int + 6));
                }
                if !(d2 == '0' && d3 == '0' && is_hex_lower_exec(d4) && is_hex_lower_exec(d5)) {
                    return None;
                }
                let v: u32 = 16 * hex_val_exec(d4) + hex_val_exec(d5);
                if !(v < 0x20 && v != 8 && v != 9 && v != 10 && v != 12 && v != 13) {
                    return None;
                }
                let u = (v as u8) as char;
                acc.push(u);
                i = i + 6;
                proof {
                    assert(spec_unescape(rest) == cons_unescaped(
                        u,
                        spec_unescape(s@.skip(i as int)),
                    ));
                    assert(match spec_unescape(s@.skip(i as int)) {
                        Some(r) => pre + (seq![u] + r) =~= acc@ + r,
                        None => true,
                    });
                }
                continue;
            } else {
                return None;
            }
            acc.push(decoded);
            i = i + 2;
            proof {
                assert(spec_unescape(rest) == cons_unescaped(
                    decoded,
                    spec_unescape(s@.skip(i as int)),
                ));
                assert(match spec_unescape(s@.skip(i as int)) {
                    Some(r) => pre + (seq![decoded] + r) =~= acc@ + r,
                    None => true,
                });
            }
        } else if c == '"' || (c as u32) < 0x20 {
            return None;
        } else {
            acc.push(c);
            i = i + 1;
            proof {
                assert(rest.skip(1) =~= s@.skip(i as int));
                assert(spec_unescape(rest) == cons_unescaped(
                    c,
                    spec_unescape(s@.skip(i as int)),
                ));
                assert(match spec_unescape(s@.skip(i as int)) {
                    Some(r) => pre + (seq![c] + r) =~= acc@ + r,
                    None => true,
                });
            }
        }
    }
    proof {
        assert(s@.skip(i as int) =~= Seq::<char>::empty());
        assert(spec_unescape(s@) == Some(acc@ + Seq::<char>::empty()));
        assert(acc@ + Seq::<char>::empty() =~= acc@);
    }
    Some(acc)
}

/// Whether a character is a lowercase hexadecimal digit.
fn is_hex_lower_exec(c: char) -> (b: bool)
    ensures
        b == is_hex_lower(c),
{
    let v = c as u32;
    (48 <= v && v <= 57) || (97 <= v && v <= 102)
}

/// Value of a lowercase hexadecimal digit.
fn hex_val_exec(c: char) -> (v: u32)
    requires
        is_hex_lower(c),
    ensures
        v == hex_val(c),
        v < 16,
{
    let u = c as u32;
    if u <= 57 {
        u - 48
    } else {
        u - 87
    }
}

/// Parses one incoming line into the message it canonically encodes,
/// or [`EngineMsg::Other`] for anything this daemon drops.
pub fn parse_engine_line(line: &str) -> (m: EngineMsg)
    ensures
        msg_view(m) == spec_parse_line(line@),
{
    let s = str_to_chars(line);
    let lcp = str_to_chars("{\"LayerChange\":{\"new\":\"");
    if chars_has_prefix(&s, &lcp) {
        match find_str_end_exec(&s, lcp.len()) {
            None => EngineMsg::Other,
            Some(p) => {
                let close = str_to_chars("\"}}");
                let tail = subvec(&s, p, s.len());
                if !chars_eq(&tail, &close) {
                    return EngineMsg::Other;
                }
                proof {
                    lemma_find_str_end_bounds(s@, lcp@.len() as int);
                }
                let mid = subvec(&s, lcp.len(), p);
                match unescape_chars(&mid) {
                    Some(t) => EngineMsg::LayerChange(chars_to_string(&t)),
                    None => EngineMsg::Other,
                }
            },
        }
    } else {
        let lnp = str_to_chars("{\"LayerNames\":{\"names\":[");
        if chars_has_prefix(&s, &lnp) {
            let close = str_to_chars("]}}");
            let tail0 = subvec(&s, lnp.len(), s.len());
            if chars_eq(&tail0, &close) {
                let names: Vec<String> = Vec::new();
                proof {
                    assert(strs_view(names@) =~= Seq::<Seq<char>>::empty());
                }
                return EngineMsg::LayerNames(names);
            }
            match parse_names_exec(&s, lnp.len()) {
                Some(names) => EngineMsg::LayerNames(names),
                None => EngineMsg::Other,
            }
        } else {
            EngineMsg::Other
        }
    }
}

/// Character-wise equality of two vectors.
fn chars_eq(a: &Vec<char>, b: &Vec<char>) -> (r: bool)
    ensures
        r == (a@ == b@),
{
    if a.len() != b.len() {
        return false;
    }
    let mut i: usize = 0;
    while i < a.len()
        invariant
            a@.len() == b@.len(),
            i <= a@.len(),
            forall|k: int| 0 <= k < i ==> a@[k] == b@[k],
        decreases a@.len() - i,
    {
        if a[i] != b[i] {
            return false;
        }
        i = i + 1;
    }
    proof {
        assert(a@ =~= b@);
    }
    true
}

/// Parses the quoted, comma-separated names of a `LayerNames` array
/// starting at `from`, which must sit on the first opening quote.
fn parse_names_exec(s: &Vec<char>, from: usize) -> (r: Option<Vec<String>>)
    ensures
        match r {
            Some(v) => parse_names_from(s@, from as int) == Some(strs_view(v@)),
            None => parse_names_from(s@, from as int) == None::<Seq<Seq<char>>>,
        },
{
    let mut acc: Vec<String> = Vec::new();
    let mut i: usize = from;
    proof {
        assert(strs_view(acc@) =~= Seq::<Seq<char>>::empty());
    }
    loop
        invariant
            from <= i,
            parse_names_from(s@, from as int) == (match parse_names_from(s@, i as int) {
                Some(r) => Some(strs_view(acc@) + r),
                None => None::<Seq<Seq<char>>>,
            }),
        decreases s@.len() - i,
    {
        if i >= s.len() {
            return None;
        }
        if s[i] != '"' {
            return None;
        }
        let p = match find_str_end_exec(s, i + 1) {
            Some(p) => p,
            None => {
                return None;
            },
        };
        proof {
            lemma_find_str_end_bounds(s@, i as int + 1);
        }
        let mid = subvec(s, i + 1, p);
        let t = match unescape_chars(&mid) {
            Some(t) => t,
            None => {
                return None;
            },
        };
        let ghost pre = strs_view(acc@);
        let name = chars_to_string(&t);
        acc.push(name);
        proof {
            assert(strs_view(acc@) =~= pre.push(t@));
        }
        if p + 1 < s.len() && s[p + 1] == ',' {
            proof {
                assert(match parse_names_from(s@, p as int + 2) {
                    Some(r) => pre + (seq![t@] + r) =~= strs_view(acc@) + r,
                    None => true,
                });
            }
            let next = p + 2;
            if next <= i {
                // The scan always advances; this cannot happen.
                return None;
            }
            i = next;
        } else {
            let close = str_to_chars("]}}");
            let tail = subvec(s, p + 1, s.len());
            if chars_eq(&tail, &close) {
                proof {
                    assert(parse_names_from(s@, i as int) == Some(seq![t@]));
                    assert(pre + seq![t@] =~= strs_view(acc@));
                }
                return Some(acc);
            }
            return None;
        }
    }
}

} // verus!
