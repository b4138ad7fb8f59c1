//! Decoding of the X11 window properties the daemon reads: the active
//! window id from the root property, the class field of `WM_CLASS`,
//! and window titles — UTF-8 for `_NET_WM_NAME`, Latin-1 for the
//! `WM_NAME` fallback.  The property bytes come from the display
//! connection outside the library.

use vstd::prelude::*;
use vstd::utf8::valid_utf8;
use crate::strings::chars_to_string;

verus! {

/// The little-endian 32-bit value of four bytes.
pub open spec fn le32(b: Seq<u8>) -> int {
    b[0] + 256 * (b[1] + 256 * (b[2] + 256 * b[3]))
}

/// The active window id carried by a `_NET_ACTIVE_WINDOW` property
/// reply: absent when the property is typeless, not exactly four
/// bytes, or zero.
pub fn active_window_id_from_property(type_is_none: bool, value: &Vec<u8>) -> (r: Option<u32>)
    ensures
        type_is_none || value@.len() != 4 ==> r is None,
        !type_is_none && value@.len() == 4 ==> (if le32(value@) == 0 {
            r is None
        } else {
            r == Some(le32(value@) as u32)
        }),
{
    if type_is_none || value.len() != 4 {
        return None;
    }
    let v: u32 = value[0] as u32 + 256 * (value[1] as u32 + 256 * (value[2] as u32 + 256
        * (value[3] as u32)));
    if v == 0 {
        None
    } else {
        Some(v)
    }
}

/// Index of the first NUL byte at or after `i`.
pub open spec fn first_nul(b: Seq<u8>, i: int) -> Option<int>
    decreases b.len() - i,
{
    if i < 0 || i >= b.len() {
        None
    } else if b[i] == 0 {
        Some(i)
    } else {
        first_nul(b, i + 1)
    }
}

/// The first NUL lies at or after the scan start and inside the text.
pub proof fn lemma_first_nul_bounds(b: Seq<u8>, i: int)
    ensures
        match first_nul(b, i) {
            Some(p) => i <= p < b.len() && b[p] == 0,
            None => true,
        },
    decreases b.len() - i,
{
    if i < 0 || i >= b.len() {
    } else if b[i] == 0 {
    } else {
        lemma_first_nul_bounds(b, i + 1);
    }
}

/// The class bytes of a `WM_CLASS` property: the field after the
/// first NUL (the instance field comes first), up to the next NUL or
/// the end; a property without NULs is taken whole, an empty property
/// has no class.
pub open spec fn wm_class_bytes(b: Seq<u8>) -> Option<Seq<u8>> {
    if b.len() == 0 {
        None
    } else {
        match first_nul(b, 0) {
            None => Some(b),
            Some(p1) => match first_nul(b, p1 + 1) {
                None => Some(b.subrange(p1 + 1, b.len() as int)),
                Some(p2) => Some(b.subrange(p1 + 1, p2)),
            },
        }
    }
}

/// Relies on String::from_utf8: succeeds exactly on valid UTF-8, and
/// the returned string's characters encode back to the input bytes.
#[verifier::external_body]
pub fn utf8_to_string(bytes: &Vec<u8>) -> (r: Option<String>)
    ensures
        r is Some <==> valid_utf8(bytes@),
        r matches Some(s) ==> vstd::utf8::encode_utf8(s@) == bytes@,
{
    String::from_utf8(bytes.clone()).ok()
}

/// Finds the first NUL byte at or after `from`.
fn find_nul(b: &Vec<u8>, from: usize) -> (r: Option<usize>)
    ensures
        match r {
            Some(p) => first_nul(b@, from as int) == Some(p as int) && p < b@.len(),
            None => first_nul(b@, from as int) == None::<int>,
        },
{
    let mut i: usize = from;
    while i < b.len()
        invariant
            from <= i,
            first_nul(b@, from as int) == first_nul(b@, i as int),
        decreases b@.len() - i,
    {
        if b[i] == 0 {
            return Some(i);
        }
        i = i + 1;
    }
    None
}

/// The bytes of `b` between `a` and `c`.
fn subvec_u8(b: &Vec<u8>, a: usize, c: usize) -> (v: Vec<u8>)
    requires
        a <= c <= b@.len(),
    ensures
        v@ == b@.subrange(a as int, c as int),
{
    let mut v: Vec<u8> = Vec::new();
    let mut i: usize = a;
    while i < c
        invariant
            a <= i <= c <= b@.len(),
            v@ == b@.subrange(a as int, i as int),
        decreases c - i,
    {
        v.push(b[i]);
        i = i + 1;
        proof {
            assert(v@ =~= b@.subrange(a as int, i as int));
        }
    }
    v
}

/// Extracts the window class from a `WM_CLASS` property: the class
/// field's bytes, decoded as UTF-8.
pub fn wm_class_from_property(value: &Vec<u8>) -> (r: Option<String>)
    ensures
        match wm_class_bytes(value@) {
            None => r is None,
            Some(bytes) => (r is Some <==> valid_utf8(bytes)) && (r matches Some(s)
                ==> vstd::utf8::encode_utf8(s@) == bytes),
        },
{
    if value.len() == 0 {
        return None;
    }
    match find_nul(value, 0) {
        None => {
            let whole = subvec_u8(value, 0, value.len());
            proof {
                assert(whole@ =~= value@);
            }
            utf8_to_string(&whole)
        },
        Some(p1) => {
            proof {
                lemma_first_nul_bounds(value@, 0);
            }
            match find_nul(value, p1 + 1) {
                None => {
                    let part = subvec_u8(value, p1 + 1, value.len());
                    utf8_to_string(&part)
                },
                Some(p2) => {
                    proof {
                        lemma_first_nul_bounds(value@, p1 as int + 1);
                    }
                    let part = subvec_u8(value, p1 + 1, p2);
                    utf8_to_string(&part)
                },
            }
        },
    }
}

/// Decodes a `_NET_WM_NAME` title property as UTF-8.
pub fn window_title_from_property(value: &Vec<u8>) -> (r: Option<String>)
    ensures
        r is Some <==> valid_utf8(value@),
        r matches Some(s) ==> vstd::utf8::encode_utf8(s@) == value@,
{
    utf8_to_string(value)
}

/// The Latin-1 reading of property bytes: every byte is the character
/// of the same code.
pub open spec fn latin1_decode(b: Seq<u8>) -> Seq<char> {
    b.map_values(|x: u8| x as char)
}

/// Decodes a `WM_NAME` fallback title as Latin-1, which maps every
/// byte to the character of the same code and never fails.
pub fn window_title_from_wm_name(value: &Vec<u8>) -> (r: String)
    ensures
        r@ == latin1_decode(value@),
{
    let mut chars: Vec<char> = Vec::new();
    let mut i: usize = 0;
    while i < value.len()
        invariant
            i <= value@.len(),
            chars@.len() == i,
            forall|k: int| 0 <= k < i ==> chars@[k] == (#[trigger] value@[k]) as char,
        decreases value@.len() - i,
    {
        chars.push(value[i] as char);
        i = i + 1;
    }
    proof {
        assert(chars@ =~= latin1_decode(value@));
    }
    chars_to_string(&chars)
}

} // verus!
