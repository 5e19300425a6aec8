use vstd::prelude::*;
use crate::ast::{ErrorKind, ParseError};

verus! {

pub open spec fn is_lower(b: u8) -> bool {
    0x61 <= b <= 0x7a
}

pub open spec fn is_upper(b: u8) -> bool {
    0x41 <= b <= 0x5a
}

/// What reading one byte of a class gives: the byte as a character and the rest of the
/// input, or a failure of the given kind at offset 0 when the input does not start with
/// a byte of the class.
pub open spec fn one_byte(
    s: Seq<u8>,
    in_class: bool,
    kind: ErrorKind,
    r: Result<(&[u8], char), ParseError>,
) -> bool {
    &&& in_class <==> r is Ok
    &&& r is Ok ==> r->Ok_0.1 == s[0] as char && r->Ok_0.0@ == s.subrange(1, s.len() as int)
    &&& r is Err ==> r->Err_0 == ParseError::Error(0, kind)
}

fn take_first(input: &[u8]) -> (r: (&[u8], char))
    requires
        input@.len() > 0,
    ensures
        r.1 == input@[0] as char,
        r.0@ == input@.subrange(1, input@.len() as int),
{
    (vstd::slice::slice_subrange(input, 1, input.len()), input[0] as char)
}

/// Reads one lower-case ASCII letter.
pub fn lletter(input: &[u8]) -> (r: Result<(&[u8], char), ParseError>)
    ensures
        one_byte(input@, input@.len() > 0 && is_lower(input@[0]), ErrorKind::OneOf, r),
{
    if input.len() > 0 && 0x61 <= input[0] && input[0] <= 0x7a {
        Ok(take_first(input))
    } else {
        Err(ParseError::Error(0, ErrorKind::OneOf))
    }
}

/// Reads one upper-case ASCII letter.
pub fn cletter(input: &[u8]) -> (r: Result<(&[u8], char), ParseError>)
    ensures
        one_byte(input@, input@.len() > 0 && is_upper(input@[0]), ErrorKind::OneOf, r),
{
    if input.len() > 0 && 0x41 <= input[0] && input[0] <= 0x5a {
        Ok(take_first(input))
    } else {
        Err(ParseError::Error(0, ErrorKind::OneOf))
    }
}

/// Reads one ASCII letter, lower-case first, then upper-case.
pub fn letter(input: &[u8]) -> (r: Result<(&[u8], char), ParseError>)
    ensures
        one_byte(
            input@,
            input@.len() > 0 && (is_lower(input@[0]) || is_upper(input@[0])),
            ErrorKind::Alt,
            r,
        ),
{
    match lletter(input) {
        Ok(found) => Ok(found),
        Err(_) => match cletter(input) {
            Ok(found) => Ok(found),
            Err(_) => Err(ParseError::Error(0, ErrorKind::Alt)),
        },
    }
}

} // verus!
