use vstd::prelude::*;

verus! {

/// One capture format a device offers: its dimensions and the highest frame
/// rate of each of its frame-rate ranges, in thousandths of a frame per
/// second.
#[derive(Clone, Debug)]
pub struct FormatInfo {
    pub width: u32,
    pub height: u32,
    pub max_rates_milli: Vec<u32>,
}

/// Whether a format has the requested size and some range reaching the
/// requested rate.
pub open spec fn format_fits(f: FormatInfo, width: u32, height: u32, fps_milli: u32) -> bool {
    &&& f.width == width
    &&& f.height == height
    &&& exists|k: int| 0 <= k < f.max_rates_milli@.len() && #[trigger] f.max_rates_milli@[k] >= fps_milli
}

/// The format to activate: none when no size is requested, else the first
/// that fits.
pub open spec fn chosen_format(formats: Seq<FormatInfo>, width: u32, height: u32, fps_milli: u32) -> Option<nat> {
    if width == 0 || height == 0 {
        None
    } else if exists|i: int| 0 <= i < formats.len() && format_fits(#[trigger] formats[i], width, height, fps_milli) {
        let i = choose|i: int|
            0 <= i < formats.len() && format_fits(#[trigger] formats[i], width, height, fps_milli)
                && forall|j: int| 0 <= j < i ==> !format_fits(#[trigger] formats[j], width, height, fps_milli);
        Some(i as nat)
    } else {
        None
    }
}

fn fits(f: &FormatInfo, width: u32, height: u32, fps_milli: u32) -> (r: bool)
    ensures
        r == format_fits(*f, width, height, fps_milli),
{
    if f.width != width || f.height != height {
        return false;
    }
    let n = f.max_rates_milli.len();
    let mut k: usize = 0;
    while k < n
        invariant
            n == f.max_rates_milli@.len(),
            f.width == width,
            f.height == height,
            k <= n,
            forall|j: int| 0 <= j < k ==> #[trigger] f.max_rates_milli@[j] < fps_milli,
        decreases n - k,
    {
        if f.max_rates_milli[k] >= fps_milli {
            assert(f.max_rates_milli@[k as int] >= fps_milli);
            return true;
        }
        k = k + 1;
    }
    false
}

/// Picks the format to activate for a requested size and rate.
pub fn choose_format(formats: &Vec<FormatInfo>, width: u32, height: u32, fps_milli: u32) -> (r: Option<usize>)
    ensures
        r matches Some(i) ==> chosen_format(formats@, width, height, fps_milli) == Some(i as nat),
        r is None ==> chosen_format(formats@, width, height, fps_milli) is None,
{
    if width == 0 || height == 0 {
        return None;
    }
    let n = formats.len();
    let mut i: usize = 0;
    while i < n
        invariant
            n == formats@.len(),
            i <= n,
            width != 0 && height != 0,
            forall|j: int| 0 <= j < i ==> !format_fits(#[trigger] formats@[j], width, height, fps_milli),
        decreases n - i,
    {
        if fits(&formats[i], width, height, fps_milli) {
            proof {
                let k = choose|k: int|
                    0 <= k < formats@.len() && format_fits(#[trigger] formats@[k], width, height, fps_milli)
                        && forall|j: int| 0 <= j < k ==> !format_fits(#[trigger] formats@[j], width, height, fps_milli);
                if k < i {
                } else if k > i {
                    assert(!format_fits(formats@[i as int], width, height, fps_milli));
                }
            }
            return Some(i);
        }
        i = i + 1;
    }
    None
}

/// The frame duration's timescale for a requested rate: the rate rounded to
/// whole frames per second, at least one; none when no rate is requested.
pub open spec fn frame_timescale_of(fps_milli: u32) -> Option<i32> {
    if fps_milli == 0 {
        None
    } else {
        let r = (fps_milli as nat + 500) / 1000;
        Some(if r < 1 { 1 } else { r as i32 })
    }
}

pub fn frame_timescale(fps_milli: u32) -> (r: Option<i32>)
    ensures
        r == frame_timescale_of(fps_milli),
{
    if fps_milli == 0 {
        return None;
    }
    let r: u64 = (fps_milli as u64 + 500) / 1000;
    Some(if r < 1 { 1 } else { r as i32 })
}

/// A media time of `value / timescale` seconds in nanoseconds; 0 for a
/// non-positive value or timescale, and at most `u64::MAX`.
pub open spec fn time_ns(value: i64, timescale: i32) -> u64 {
    if timescale <= 0 || value <= 0 {
        0
    } else {
        let ns = (value as nat) * 1_000_000_000 / (timescale as nat);
        if ns > u64::MAX {
            u64::MAX
        } else {
            ns as u64
        }
    }
}

pub fn cm_time_to_ns(value: i64, timescale: i32) -> (r: u64)
    ensures
        r == time_ns(value, timescale),
{
    if timescale <= 0 || value <= 0 {
        return 0;
    }
    let v = value as u128;
    let t = timescale as u128;
    assert(v * 1_000_000_000 <= (i64::MAX as u128) * 1_000_000_000) by (nonlinear_arith)
        requires v <= i64::MAX;
    let ns = v * 1_000_000_000u128 / t;
    if ns > u64::MAX as u128 {
        u64::MAX
    } else {
        ns as u64
    }
}

} // verus!
