//! Session-manager plumbing: recognising the "no session for PID"
//! error, the empty object path, and digging the session object path
//! out of the differently shaped replies the session manager sends
//! (a plain object path, a string, a variant, or a structure whose
//! first path-like field counts).

use vstd::prelude::*;
use crate::strings::str_eq;
use crate::strings::str_to_chars;
use crate::window::clone_string;

verus! {

/// A character allowed inside an object-path element.
pub open spec fn is_path_elem_char(c: char) -> bool {
    (65 <= (c as u32) && (c as u32) <= 90) || (97 <= (c as u32) && (c as u32) <= 122) || (48 <= (
    c as u32) && (c as u32) <= 57) || c == '_'
}

/// A well-formed bus object path: `/` alone, or `/`-separated
/// non-empty elements of word characters with no trailing slash.
pub open spec fn valid_object_path(s: Seq<char>) -> bool {
    &&& s.len() > 0
    &&& s[0] == '/'
    &&& (s.len() == 1 || (s[s.len() - 1] != '/' && forall|i: int|
        1 <= i < s.len() ==> (is_path_elem_char(#[trigger] s[i]) || (s[i] == '/' && s[i - 1]
            != '/'))))
}

/// Decides whether a string is a well-formed bus object path.
pub fn is_valid_object_path(s: &str) -> (b: bool)
    ensures
        b == valid_object_path(s@),
{
    let v = str_to_chars(s);
    if v.len() == 0 {
        return false;
    }
    if v[0] != '/' {
        return false;
    }
    if v.len() == 1 {
        return true;
    }
    if v[v.len() - 1] == '/' {
        return false;
    }
    let mut i: usize = 1;
    while i < v.len()
        invariant
            v@ == s@,
            1 <= i <= v@.len(),
            forall|k: int|
                1 <= k < i ==> (is_path_elem_char(#[trigger] v@[k]) || (v@[k] == '/' && v@[k - 1]
                    != '/')),
        decreases v@.len() - i,
    {
        let c = v[i];
        let u = c as u32;
        let word = (65 <= u && u <= 90) || (97 <= u && u <= 122) || (48 <= u && u <= 57) || c
            == '_';
        if !word {
            if !(c == '/' && v[i - 1] != '/') {
                return false;
            }
        }
        i = i + 1;
    }
    true
}

/// A bus value as far as session-path extraction reads it: an object
/// path, a string, a structure of fields, a nested variant, or
/// anything else.
#[derive(Debug)]
pub enum BusValue {
    Path(String),
    Text(String),
    Structure(Vec<BusValue>),
    Wrapped(Box<BusValue>),
    Other,
}

/// Why no object path could be extracted.
#[derive(Debug, Clone, Copy, PartialEq, Eq)]
pub enum LogindPathError {
    /// A string was found but it is not a well-formed object path.
    InvalidPathString,
    /// The value has no shape an object path can be read from.
    UnexpectedValue,
}

impl LogindPathError {
    /// One-line description for logging.
    pub fn message(&self) -> (r: &'static str)
        ensures
            *self is InvalidPathString ==> r@ == "returned invalid object path string"@,
            *self is UnexpectedValue ==> r@ == "returned unexpected value"@,
    {
        match self {
            LogindPathError::InvalidPathString => "returned invalid object path string",
            LogindPathError::UnexpectedValue => "returned unexpected value",
        }
    }
}

/// The object path a single value yields: a path directly, a string
/// when it is well-formed, a nested variant's value, nothing else.
pub open spec fn path_from_value_spec(v: BusValue) -> Option<Seq<char>>
    decreases v,
{
    match v {
        BusValue::Path(p) => Some(p@),
        BusValue::Text(t) => if valid_object_path(t@) {
            Some(t@)
        } else {
            None
        },
        BusValue::Wrapped(inner) => path_from_value_spec(*inner),
        _ => None,
    }
}

/// The object path of the first field of a structure that yields one.
pub open spec fn structure_path_spec(fields: Seq<BusValue>) -> Option<Seq<char>>
    decreases fields.len(),
{
    if fields.len() == 0 {
        None
    } else {
        match path_from_value_spec(fields[0]) {
            Some(p) => Some(p),
            None => structure_path_spec(fields.drop_first()),
        }
    }
}

/// The object path a whole reply value yields: a path, a structure's
/// first path-like field, or a well-formed path string; everything
/// else is an error, with an ill-formed string reported as such.
pub open spec fn parse_path_spec(v: BusValue) -> Result<Seq<char>, LogindPathError> {
    match v {
        BusValue::Path(p) => Ok(p@),
        BusValue::Structure(fields) => match structure_path_spec(fields@) {
            Some(p) => Ok(p),
            None => Err(LogindPathError::UnexpectedValue),
        },
        BusValue::Text(t) => if valid_object_path(t@) {
            Ok(t@)
        } else {
            Err(LogindPathError::InvalidPathString)
        },
        _ => Err(LogindPathError::UnexpectedValue),
    }
}

/// Extracts the object path one value yields, if any.
pub fn logind_object_path_from_value(value: &BusValue) -> (r: Option<String>)
    ensures
        crate::strings::opt_view(r) == path_from_value_spec(*value),
    decreases *value,
{
    match value {
        BusValue::Path(p) => Some(clone_string(p)),
        BusValue::Text(t) => {
            if is_valid_object_path(t.as_str()) {
                Some(clone_string(t))
            } else {
                None
            }
        },
        BusValue::Wrapped(inner) => logind_object_path_from_value(inner),
        _ => None,
    }
}

/// Extracts the object path of the first structure field that yields
/// one.
pub fn parse_logind_object_path_from_structure(fields: &Vec<BusValue>) -> (r: Option<String>)
    ensures
        crate::strings::opt_view(r) == structure_path_spec(fields@),
{
    let mut i: usize = 0;
    proof {
        assert(fields@.skip(0) =~= fields@);
    }
    while i < fields.len()
        invariant
            i <= fields@.len(),
            structure_path_spec(fields@) == structure_path_spec(fields@.skip(i as int)),
        decreases fields@.len() - i,
    {
        let ghost rest = fields@.skip(i as int);
        proof {
            assert(rest[0] == fields@[i as int]);
            assert(rest.drop_first() =~= fields@.skip(i as int + 1));
        }
        match logind_object_path_from_value(&fields[i]) {
            Some(p) => {
                return Some(p);
            },
            None => {},
        }
        i = i + 1;
    }
    proof {
        assert(fields@.skip(i as int) =~= Seq::<BusValue>::empty());
    }
    None
}

/// Extracts the object path a reply value yields, distinguishing an
/// ill-formed path string from a value of the wrong shape.
pub fn parse_logind_object_path(value: &BusValue) -> (r: Result<String, LogindPathError>)
    ensures
        match r {
            Ok(p) => parse_path_spec(*value) == Ok::<Seq<char>, LogindPathError>(p@),
            Err(e) => parse_path_spec(*value) == Err::<Seq<char>, LogindPathError>(e),
        },
{
    match value {
        BusValue::Path(p) => Ok(clone_string(p)),
        BusValue::Structure(fields) => match parse_logind_object_path_from_structure(fields) {
            Some(p) => Ok(p),
            None => Err(LogindPathError::UnexpectedValue),
        },
        BusValue::Text(t) => {
            if is_valid_object_path(t.as_str()) {
                Ok(clone_string(t))
            } else {
                Err(LogindPathError::InvalidPathString)
            }
        },
        _ => Err(LogindPathError::UnexpectedValue),
    }
}

/// A session-manager reply body, by its signature: an object path, a
/// string, a variant, a structure, or an unsupported signature
/// (carried for the error message).
#[derive(Debug)]
pub enum BusReplyBody {
    Path(String),
    Text(String),
    Variant(BusValue),
    Structure(Vec<BusValue>),
    Unsupported(String),
}

/// The object path a reply body yields, by its shape.
pub open spec fn decode_reply_spec(b: BusReplyBody) -> Result<Seq<char>, LogindPathError> {
    match b {
        BusReplyBody::Path(p) => Ok(p@),
        BusReplyBody::Text(t) => if valid_object_path(t@) {
            Ok(t@)
        } else {
            Err(LogindPathError::InvalidPathString)
        },
        BusReplyBody::Variant(v) => parse_path_spec(v),
        BusReplyBody::Structure(fields) => match structure_path_spec(fields@) {
            Some(p) => Ok(p),
            None => Err(LogindPathError::UnexpectedValue),
        },
        BusReplyBody::Unsupported(_) => Err(LogindPathError::UnexpectedValue),
    }
}

/// Extracts the session object path from a reply body.
pub fn decode_logind_object_path_reply(body: &BusReplyBody) -> (r: Result<
    String,
    LogindPathError,
>)
    ensures
        match r {
            Ok(p) => decode_reply_spec(*body) == Ok::<Seq<char>, LogindPathError>(p@),
            Err(e) => decode_reply_spec(*body) == Err::<Seq<char>, LogindPathError>(e),
        },
{
    match body {
        BusReplyBody::Path(p) => Ok(clone_string(p)),
        BusReplyBody::Text(t) => {
            if is_valid_object_path(t.as_str()) {
                Ok(clone_string(t))
            } else {
                Err(LogindPathError::InvalidPathString)
            }
        },
        BusReplyBody::Variant(v) => parse_logind_object_path(v),
        BusReplyBody::Structure(fields) => match parse_logind_object_path_from_structure(fields) {
            Some(p) => Ok(p),
            None => Err(LogindPathError::UnexpectedValue),
        },
        BusReplyBody::Unsupported(_) => Err(LogindPathError::UnexpectedValue),
    }
}

/// Whether a bus error name is the session manager saying the process
/// has no session.
pub fn is_logind_no_session_error(error_name: &str) -> (b: bool)
    ensures
        b == (error_name@ == "org.freedesktop.login1.NoSessionForPID"@),
{
    str_eq(error_name, "org.freedesktop.login1.NoSessionForPID")
}

/// Whether an object path is the empty path, which the session manager
/// uses for "no display session".
pub fn is_logind_empty_object_path(path: &str) -> (b: bool)
    ensures
        b == (path@ == "/"@),
{
    str_eq(path, "/")
}

} // verus!
