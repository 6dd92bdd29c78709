//! Short-link codes: a type letter followed by a payload, expanded to the
//! path of the page the code names.
//!
//! `e` codes carry a new-base-60 number: sixty times the day count since
//! 1970-01-01 plus an ordinal within the day, expanded to
//! `year/month/day/ordinal/`. `p` codes carry a project name, expanded to
//! `projects/name/`.

use crate::dates::{civil_from_days, civil_of_days, MAX_EPOCH_DAYS};
use crate::newbase60::{all_sxg_digits, sxg_num, sxg_to_num};
use crate::numfmt::{dec_str, dec_str_signed, i32_to_string, pad2, u32_to_string, u32_to_string_pad2};
use vstd::prelude::*;
use vstd::string::StringExecFns;

verus! {

#[derive(Debug, Clone, PartialEq, Eq)]
pub enum ShortCode<'a> {
    Entry(i32, u32, u32, u32),
    Project(&'a str),
}

#[derive(Debug, Clone, PartialEq, Eq)]
pub enum ShortCodeParseError {
    EmptyString,
    InvalidDate,
    SXGError,
    TooLong,
    UnsupportedType,
}

/// The error `parse` returns on `s`, or `None` where it succeeds.
///
/// A code longer than twelve bytes is refused outright; an empty one has no
/// type letter; an `e` code fails on a payload that is not a new-base-60
/// number fitting `u64`, and on a day count beyond the supported calendar
/// range; a type letter other than `e` and `p` is unknown.
pub open spec fn spec_parse_err(s: &str) -> Option<ShortCodeParseError> {
    let cs = s@;
    if s.len() > 12 {
        Some(ShortCodeParseError::TooLong)
    } else if cs.len() == 0 {
        Some(ShortCodeParseError::EmptyString)
    } else if cs[0] == 'e' {
        let rest = cs.subrange(1, cs.len() as int);
        if !(all_sxg_digits(rest) && sxg_num(rest) <= u64::MAX) {
            Some(ShortCodeParseError::SXGError)
        } else if sxg_num(rest) / 60 > MAX_EPOCH_DAYS {
            Some(ShortCodeParseError::InvalidDate)
        } else {
            None
        }
    } else if cs[0] == 'p' {
        None
    } else {
        Some(ShortCodeParseError::UnsupportedType)
    }
}

/// The path a code expands to.
pub open spec fn spec_expand(code: ShortCode) -> Seq<char> {
    match code {
        ShortCode::Entry(y, m, d, n) => dec_str_signed(y as int) + "/"@ + pad2(dec_str(m as nat))
            + "/"@ + pad2(dec_str(d as nat)) + "/"@ + dec_str(n as nat) + "/"@,
        ShortCode::Project(p) => "projects/"@ + p@ + "/"@,
    }
}

impl<'a> ShortCode<'a> {
    /// Reads a short-link code: the type letter, then its payload.
    pub fn parse(shortcode: &'a str) -> (r: Result<ShortCode<'a>, ShortCodeParseError>)
        ensures
            match spec_parse_err(shortcode) {
                Some(e) => r == Err::<ShortCode<'a>, ShortCodeParseError>(e),
                None => {
                    let cs = shortcode@;
                    let rest = cs.subrange(1, cs.len() as int);
                    if cs[0] == 'e' {
                        let v = sxg_num(rest);
                        let ymd = civil_of_days(v / 60);
                        &&& r matches Ok(ShortCode::Entry(y, m, d, n))
                        &&& (y as int, m as int, d as int) == ymd
                        &&& n as int == v % 60
                    } else {
                        r matches Ok(ShortCode::Project(p)) && p@ == rest
                    }
                },
            },
    {
        if shortcode.len() > 12 {
            return Err(ShortCodeParseError::TooLong);
        }
        let n = shortcode.unicode_len();
        if n == 0 {
            return Err(ShortCodeParseError::EmptyString);
        }
        let code_type = shortcode.get_char(0);
        if code_type == 'e' {
            let rest = shortcode.substring_char(1, n);
            let number = match sxg_to_num(rest) {
                Some(v) => v,
                None => {
                    return Err(ShortCodeParseError::SXGError);
                },
            };
            let epoch_days = number / 60;
            if epoch_days > MAX_EPOCH_DAYS {
                return Err(ShortCodeParseError::InvalidDate);
            }
            let ordinal = (number % 60) as u32;
            let (y, m, d) = civil_from_days(epoch_days);
            Ok(ShortCode::Entry(y, m, d, ordinal))
        } else if code_type == 'p' {
            Ok(ShortCode::Project(shortcode.substring_char(1, n)))
        } else {
            Err(ShortCodeParseError::UnsupportedType)
        }
    }

    /// Renders the path the code names.
    pub fn expand(&self) -> (r: String)
        ensures
            r@ == spec_expand(*self),
    {
        match self {
            ShortCode::Entry(y, m, d, n) => {
                let mut s = i32_to_string(*y);
                s.append("/");
                let ms = u32_to_string_pad2(*m);
                s.append(ms.as_str());
                s.append("/");
                let ds = u32_to_string_pad2(*d);
                s.append(ds.as_str());
                s.append("/");
                let ns = u32_to_string(*n);
                s.append(ns.as_str());
                s.append("/");
                proof {
                    assert(s@ =~= spec_expand(*self));
                }
                s
            },
            ShortCode::Project(p) => {
                let mut s = "projects/".to_owned();
                s.append(p);
                s.append("/");
                proof {
                    assert(s@ =~= spec_expand(*self));
                }
                s
            },
        }
    }
}

/// Expands a short-link code to the path it names, or says why it cannot.
pub fn expand_shortcode(shortcode: &str) -> (r: Result<String, ShortCodeParseError>)
    ensures
        match spec_parse_err(shortcode) {
            Some(e) => r == Err::<String, ShortCodeParseError>(e),
            None => {
                let cs = shortcode@;
                let rest = cs.subrange(1, cs.len() as int);
                if cs[0] == 'e' {
                    let v = sxg_num(rest);
                    let ymd = civil_of_days(v / 60);
                    &&& r matches Ok(t)
                    &&& t@ == dec_str_signed(ymd.0) + "/"@ + pad2(dec_str(ymd.1 as nat)) + "/"@
                        + pad2(dec_str(ymd.2 as nat)) + "/"@ + dec_str((v % 60) as nat) + "/"@
                } else {
                    r matches Ok(t) && t@ == "projects/"@ + rest + "/"@
                }
            },
        },
{
    let parsed = match ShortCode::parse(shortcode) {
        Ok(c) => c,
        Err(e) => {
            return Err(e);
        },
    };
    Ok(parsed.expand())
}

} // verus!
