use crate::error::CameraError;
use crate::text::{parse_u32, parse_u32_of, trim, trim_of};
use vstd::prelude::*;
use vstd::string::*;

verus! {

/// `sysexits` status: the command was used incorrectly.
pub const EX_USAGE: u8 = 64;

/// `sysexits` status: an internal software error.
pub const EX_SOFTWARE: u8 = 70;

/// `sysexits` status: a required service is unavailable.
pub const EX_UNAVAILABLE: u8 = 69;

/// `sysexits` status: a configuration error.
pub const EX_CONFIG: u8 = 78;

/// The exit status a command-line tool ends with after a failure.
pub open spec fn exit_status_of(err: CameraError) -> u8 {
    match err {
        CameraError::NoDriver => EX_UNAVAILABLE,
        CameraError::NoCamera => EX_USAGE,
        CameraError::NotConfigured => EX_CONFIG,
        CameraError::InvalidConfig(_) => EX_USAGE,
        CameraError::Unsupported(_) => EX_UNAVAILABLE,
        _ => EX_SOFTWARE,
    }
}

pub fn exit_status(err: &CameraError) -> (r: u8)
    ensures
        r == exit_status_of(*err),
{
    match err {
        CameraError::NoDriver => EX_UNAVAILABLE,
        CameraError::NoCamera => EX_USAGE,
        CameraError::NotConfigured => EX_CONFIG,
        CameraError::InvalidConfig(_) => EX_USAGE,
        CameraError::Unsupported(_) => EX_UNAVAILABLE,
        _ => EX_SOFTWARE,
    }
}

/// Accepted capture widths, in pixels.
pub const MIN_WIDTH: u32 = 160;

pub const MAX_WIDTH: u32 = 7680;

/// Accepted capture heights, in pixels.
pub const MIN_HEIGHT: u32 = 120;

pub const MAX_HEIGHT: u32 = 4320;

/// Why a `WxH` size was refused.
#[derive(Clone, Debug)]
pub enum DimensionsError {
    /// Not two non-empty parts around one separator.
    InvalidFormat,
    /// The width part is not a number.
    InvalidWidth(String),
    /// The height part is not a number.
    InvalidHeight(String),
    WidthOutOfRange(u32),
    HeightOutOfRange(u32),
}

/// `x` and the multiplication sign both separate width from height.
pub open spec fn is_separator(c: char) -> bool {
    c == 'x' || c == '\u{d7}'
}

/// Index of the only separator, if there is exactly one.
pub open spec fn sole_separator(s: Seq<char>) -> Option<nat> {
    if exists|i: int|
        0 <= i < s.len() && is_separator(#[trigger] s[i]) && forall|j: int|
            0 <= j < s.len() && j != i ==> !is_separator(#[trigger] s[j]) {
        let i = choose|i: int|
            0 <= i < s.len() && is_separator(#[trigger] s[i]) && forall|j: int|
                0 <= j < s.len() && j != i ==> !is_separator(#[trigger] s[j]);
        Some(i as nat)
    } else {
        None
    }
}

/// A capture size written `WxH` (or with a multiplication sign), white
/// space allowed around each part, each dimension within its range.
pub open spec fn dimensions_of(raw: Seq<char>) -> Result<(u32, u32), DimensionsError> {
    let s = trim_of(raw);
    match sole_separator(s) {
        None => Err(DimensionsError::InvalidFormat),
        Some(p) => {
            let w = trim_of(s.subrange(0, p as int));
            let h = trim_of(s.subrange(p + 1 as int, s.len() as int));
            if w.len() == 0 || h.len() == 0 {
                Err(DimensionsError::InvalidFormat)
            } else {
                match (parse_u32_of(w), parse_u32_of(h)) {
                    (None, _) => Err(DimensionsError::InvalidWidth(arbitrary())),
                    (Some(_), None) => Err(DimensionsError::InvalidHeight(arbitrary())),
                    (Some(width), Some(height)) => if width < MIN_WIDTH || width > MAX_WIDTH {
                        Err(DimensionsError::WidthOutOfRange(width))
                    } else if height < MIN_HEIGHT || height > MAX_HEIGHT {
                        Err(DimensionsError::HeightOutOfRange(height))
                    } else {
                        Ok((width, height))
                    },
                }
            }
        },
    }
}

/// The width and height parts of a trimmed size, as written.
pub open spec fn dimension_parts(raw: Seq<char>) -> Option<(Seq<char>, Seq<char>)> {
    let s = trim_of(raw);
    match sole_separator(s) {
        None => None,
        Some(p) => Some((trim_of(s.subrange(0, p as int)), trim_of(s.subrange(p + 1 as int, s.len() as int)))),
    }
}

fn find_sole_separator(s: &str) -> (r: Option<usize>)
    ensures
        r matches Some(p) ==> sole_separator(s@) == Some(p as nat) && p < s@.len(),
        r is None ==> sole_separator(s@) is None,
{
    let n = s.unicode_len();
    let mut found: Option<usize> = None;
    let mut i: usize = 0;
    while i < n
        invariant
            n == s@.len(),
            i <= n,
            found matches Some(p) ==> p < i && is_separator(s@[p as int]) && forall|j: int|
                0 <= j < i && j != p ==> !is_separator(#[trigger] s@[j]),
            found is None ==> forall|j: int| 0 <= j < i ==> !is_separator(#[trigger] s@[j]),
        decreases n - i,
    {
        let c = s.get_char(i);
        if c == 'x' || c == '\u{d7}' {
            if found.is_some() {
                proof {
                    let p = found->Some_0;
                    assert forall|k: int|
                        0 <= k < s@.len() && is_separator(#[trigger] s@[k]) implies exists|j: int|
                        0 <= j < s@.len() && j != k && is_separator(#[trigger] s@[j]) by {
                        if k == p as int {
                            assert(is_separator(s@[i as int]));
                        } else {
                            assert(is_separator(s@[p as int]));
                        }
                    }
                }
                return None;
            }
            found = Some(i);
        }
        i = i + 1;
    }
    match found {
        None => None,
        Some(p) => {
            proof {
                let k = choose|k: int|
                    0 <= k < s@.len() && is_separator(#[trigger] s@[k]) && forall|j: int|
                        0 <= j < s@.len() && j != k ==> !is_separator(#[trigger] s@[j]);
                if k != p as int {
                    assert(!is_separator(s@[p as int]));
                }
            }
            Some(p)
        },
    }
}

/// Parses a capture size such as `1920x1080`.
pub fn parse_dimensions(raw: &str) -> (r: Result<(u32, u32), DimensionsError>)
    ensures
        r matches Ok(v) ==> dimensions_of(raw@) == Ok::<(u32, u32), DimensionsError>(v),
        r is Err ==> dimensions_of(raw@) is Err,
        r matches Err(DimensionsError::InvalidFormat) ==> dimensions_of(raw@) matches Err(
            DimensionsError::InvalidFormat,
        ),
        r matches Err(DimensionsError::InvalidWidth(w)) ==> dimensions_of(raw@) matches Err(
            DimensionsError::InvalidWidth(_),
        ) && dimension_parts(raw@) matches Some(parts) && parts.0 == w@,
        r matches Err(DimensionsError::InvalidHeight(h)) ==> dimensions_of(raw@) matches Err(
            DimensionsError::InvalidHeight(_),
        ) && dimension_parts(raw@) matches Some(parts) && parts.1 == h@,
        r matches Err(DimensionsError::WidthOutOfRange(w)) ==> dimensions_of(raw@) == Err::<
            (u32, u32),
            DimensionsError,
        >(DimensionsError::WidthOutOfRange(w)),
        r matches Err(DimensionsError::HeightOutOfRange(h)) ==> dimensions_of(raw@) == Err::<
            (u32, u32),
            DimensionsError,
        >(DimensionsError::HeightOutOfRange(h)),
{
    let s = trim(raw);
    let n = s.unicode_len();
    let p = match find_sole_separator(s) {
        None => return Err(DimensionsError::InvalidFormat),
        Some(p) => p,
    };
    let w = trim(s.substring_char(0, p));
    let h = trim(s.substring_char(p + 1, n));
    if w.unicode_len() == 0 || h.unicode_len() == 0 {
        return Err(DimensionsError::InvalidFormat);
    }
    let width = match parse_u32(w) {
        None => return Err(DimensionsError::InvalidWidth(String::from_str(w))),
        Some(v) => v,
    };
    let height = match parse_u32(h) {
        None => return Err(DimensionsError::InvalidHeight(String::from_str(h))),
        Some(v) => v,
    };
    if width < MIN_WIDTH || width > MAX_WIDTH {
        return Err(DimensionsError::WidthOutOfRange(width));
    }
    if height < MIN_HEIGHT || height > MAX_HEIGHT {
        return Err(DimensionsError::HeightOutOfRange(height));
    }
    Ok((width, height))
}

} // verus!
