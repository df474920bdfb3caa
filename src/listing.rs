use crate::device::{quoted_name, quoted_value, extract_dshow_quoted_name, extract_quoted_value, DeviceInfo};
use crate::ffmpeg::views;
use crate::text::{
    contains_str, find_char, find_str, first_index, first_occurrence, has_prefix, has_substring,
    lower_of, parse_u32, parse_u32_of, starts_with, to_lowercase, trim, trim_of,
};
use vstd::prelude::*;
use vstd::string::*;

verus! {

/// A line without the carriage return of a `\r\n` ending.
pub open spec fn strip_cr(l: Seq<char>) -> Seq<char> {
    if l.len() > 0 && l.last() == '\r' {
        l.drop_last()
    } else {
        l
    }
}

/// The lines of a text, as `str::lines` gives them: split at each `\n`,
/// a `\r` before it dropped, no empty line after a final `\n`.
pub open spec fn lines_of(s: Seq<char>) -> Seq<Seq<char>>
    decreases s.len(),
{
    if s.len() == 0 {
        Seq::empty()
    } else {
        match first_index(s, '\n') {
            Some(i) if i < s.len() => seq![strip_cr(s.subrange(0, i as int))] + lines_of(
                s.subrange(i + 1 as int, s.len() as int),
            ),
            _ => seq![s],
        }
    }
}

/// The first line of a non-empty text, and the text after it.
fn take_line<'a>(rest: &'a str) -> (r: (String, &'a str))
    requires
        rest@.len() > 0,
    ensures
        seq![r.0@] + lines_of(r.1@) == lines_of(rest@),
        r.1@.len() < rest@.len(),
{
    let n = rest.unicode_len();
    match find_char(rest, '\n') {
        None => {
            proof {
                reveal_strlit("");
                assert(lines_of(""@) =~= Seq::<Seq<char>>::empty());
                assert(seq![rest@] + Seq::<Seq<char>>::empty() =~= seq![rest@]);
            }
            (String::from_str(rest), "")
        },
        Some(i) => {
            let line = rest.substring_char(0, i);
            let cut = if i > 0 && line.get_char(i - 1) == '\r' {
                line.substring_char(0, i - 1)
            } else {
                line
            };
            assert(cut@ =~= strip_cr(rest@.subrange(0, i as int)));
            (String::from_str(cut), rest.substring_char(i + 1, n))
        },
    }
}

/// Splits a text into its lines.
pub fn split_lines(s: &str) -> (r: Vec<String>)
    ensures
        views(r@) == lines_of(s@),
{
    let mut out: Vec<String> = Vec::new();
    let mut rest: &str = s;
    assert(views(out@) + lines_of(rest@) =~= lines_of(s@));
    let mut more = rest.unicode_len() > 0;
    while more
        invariant
            views(out@) + lines_of(rest@) == lines_of(s@),
            more == (rest@.len() > 0),
        decreases rest@.len(),
    {
        let (line, next) = take_line(rest);
        let ghost before = out@;
        let ghost lv = line@;
        out.push(line);
        assert(views(out@) =~= views(before).push(lv));
        assert(views(before) + (seq![lv] + lines_of(next@)) =~= views(out@) + lines_of(next@));
        rest = next;
        more = rest.unicode_len() > 0;
    }
    assert(lines_of(rest@) =~= Seq::<Seq<char>>::empty());
    assert(views(out@) + lines_of(rest@) =~= views(out@));
    out
}

/// A video device of FFmpeg's AVFoundation listing.
#[derive(Clone, Debug)]
pub struct AvfVideoDevice {
    pub index: u32,
    pub name: String,
}

/// The entry of one listing line such as `[AVFoundation indev @ 0x1] [0] Camera`:
/// after the first `] [`, a bracketed index and a non-empty name.
pub open spec fn avf_entry(line: Seq<char>) -> Option<(u32, Seq<char>)> {
    match first_occurrence(line, "] ["@) {
        None => None,
        Some(pos) => {
            let tail = trim_of(line.subrange(pos + 2 as int, line.len() as int));
            if tail.len() == 0 || tail[0] != '[' {
                None
            } else {
                match first_index(tail, ']') {
                    None => None,
                    Some(e) => match parse_u32_of(trim_of(tail.subrange(1, e as int))) {
                        None => None,
                        Some(idx) => {
                            let name = trim_of(tail.subrange(e + 1 as int, tail.len() as int));
                            if name.len() == 0 {
                                None
                            } else {
                                Some((idx, name))
                            }
                        },
                    },
                }
            }
        },
    }
}

/// The video devices of an AVFoundation listing: the entries after the
/// video heading and before the audio heading.
pub open spec fn avf_scan(lines: Seq<Seq<char>>, in_video: bool) -> Seq<(u32, Seq<char>)>
    decreases lines.len(),
{
    if lines.len() == 0 {
        Seq::empty()
    } else {
        let l = lines[0];
        let rest = lines.drop_first();
        if has_substring(l, "AVFoundation video devices:"@) {
            avf_scan(rest, true)
        } else if has_substring(l, "AVFoundation audio devices:"@) {
            Seq::empty()
        } else if !in_video {
            avf_scan(rest, false)
        } else {
            match avf_entry(l) {
                None => avf_scan(rest, true),
                Some(e) => seq![e] + avf_scan(rest, true),
            }
        }
    }
}

pub open spec fn avf_views(v: Seq<AvfVideoDevice>) -> Seq<(u32, Seq<char>)> {
    v.map_values(|d: AvfVideoDevice| (d.index, d.name@))
}

fn parse_avf_line(line: &str) -> (r: Option<AvfVideoDevice>)
    ensures
        r matches Some(d) ==> avf_entry(line@) == Some((d.index, d.name@)),
        r is None ==> avf_entry(line@) is None,
{
    let n = line.unicode_len();
    let pos = match find_str(line, "] [") {
        None => return None,
        Some(p) => p,
    };
    proof {
        reveal_strlit("] [");
    }
    let tail = trim(line.substring_char(pos + 2, n));
    let tn = tail.unicode_len();
    if tn == 0 || tail.get_char(0) != '[' {
        return None;
    }
    let end = match find_char(tail, ']') {
        None => return None,
        Some(e) => e,
    };
    let idx = match parse_u32(trim(tail.substring_char(1, end))) {
        None => return None,
        Some(i) => i,
    };
    let name = trim(tail.substring_char(end + 1, tn));
    if name.unicode_len() == 0 {
        return None;
    }
    Some(AvfVideoDevice { index: idx, name: String::from_str(name) })
}

/// The video devices of an AVFoundation listing, given as lines; `None`
/// when there are none.
pub fn parse_avfoundation_lines(lines: &Vec<String>) -> (r: Option<Vec<AvfVideoDevice>>)
    ensures
        r matches Some(v) ==> avf_views(v@) == avf_scan(views(lines@), false) && v@.len() > 0,
        r is None ==> avf_scan(views(lines@), false).len() == 0,
{
    let ghost all = views(lines@);
    let mut out: Vec<AvfVideoDevice> = Vec::new();
    assert(all.subrange(0, lines@.len() as int) =~= all);
    assert(avf_views(out@) =~= Seq::<(u32, Seq<char>)>::empty());
    let mut in_video = false;
    let n = lines.len();
    let mut i: usize = 0;
    while i < n
        invariant
            n == lines@.len(),
            all == views(lines@),
            i <= n,
            avf_views(out@) + avf_scan(all.subrange(i as int, n as int), in_video) == avf_scan(
                all,
                false,
            ),
        decreases n - i,
    {
        let line = lines[i].as_str();
        let ghost rest = all.subrange(i + 1, n as int);
        assert(all.subrange(i as int, n as int).drop_first() =~= rest);
        assert(all.subrange(i as int, n as int)[0] == line@);
        if contains_str(line, "AVFoundation video devices:") {
            in_video = true;
        } else if contains_str(line, "AVFoundation audio devices:") {
            assert(avf_views(out@) + Seq::<(u32, Seq<char>)>::empty() =~= avf_views(out@));
            assert(all.subrange(n as int, n as int) =~= Seq::<Seq<char>>::empty());
            i = n;
            continue;
        } else if in_video {
            match parse_avf_line(line) {
                None => {},
                Some(d) => {
                    let ghost before = out@;
                    let ghost e = (d.index, d.name@);
                    out.push(d);
                    assert(avf_views(out@) =~= avf_views(before).push(e));
                    assert(avf_views(before) + (seq![e] + avf_scan(rest, true)) =~= avf_views(
                        before,
                    ).push(e) + avf_scan(rest, true));
                },
            }
        }
        i = i + 1;
    }
    assert(all.subrange(n as int, n as int) =~= Seq::<Seq<char>>::empty());
    assert(avf_views(out@) + Seq::<(u32, Seq<char>)>::empty() =~= avf_views(out@));
    if out.len() == 0 {
        None
    } else {
        Some(out)
    }
}

/// The video devices of FFmpeg's AVFoundation device listing.
pub fn parse_avfoundation_video_devices(s: &str) -> (r: Option<Vec<AvfVideoDevice>>)
    ensures
        r matches Some(v) ==> avf_views(v@) == avf_scan(lines_of(s@), false) && v@.len() > 0,
        r is None ==> avf_scan(lines_of(s@), false).len() == 0,
{
    let lines = split_lines(s);
    parse_avfoundation_lines(&lines)
}

/// Whether a device name suggests a USB camera.
pub open spec fn usb_like_name(name: Seq<char>) -> bool {
    let n = lower_of(name);
    has_substring(n, "usb"@) || has_substring(n, "webcam"@) || has_substring(n, "capture"@)
}

/// The devices of a DirectShow listing: each quoted name after the video
/// heading and before the audio heading, as (selector, name, USB-like).
pub open spec fn dshow_scan(lines: Seq<Seq<char>>, in_video: bool) -> Seq<(Seq<char>, Seq<char>, bool)>
    decreases lines.len(),
{
    if lines.len() == 0 {
        Seq::empty()
    } else {
        let l = lines[0];
        let rest = lines.drop_first();
        if has_substring(l, "DirectShow video devices"@) {
            dshow_scan(rest, true)
        } else if in_video && has_substring(l, "DirectShow audio devices"@) {
            Seq::empty()
        } else if !in_video {
            dshow_scan(rest, false)
        } else {
            match quoted_name(trim_of(l)) {
                None => dshow_scan(rest, true),
                Some(name) => seq![("dshow:video="@ + name, name, usb_like_name(name))] + dshow_scan(
                    rest,
                    true,
                ),
            }
        }
    }
}

pub open spec fn device_views(v: Seq<DeviceInfo>) -> Seq<(Seq<char>, Seq<char>, bool)> {
    v.map_values(|d: DeviceInfo| (d.id@, d.name@, d.is_usb))
}

fn dshow_device(name: String) -> (r: DeviceInfo)
    ensures
        r.id@ == "dshow:video="@ + name@,
        r.name@ == name@,
        r.is_usb == usb_like_name(name@),
{
    let lower = to_lowercase(name.as_str());
    let l = lower.as_str();
    let is_usb = contains_str(l, "usb") || contains_str(l, "webcam") || contains_str(l, "capture");
    let id = String::from_str("dshow:video=").concat(name.as_str());
    DeviceInfo { id, name, is_usb }
}

/// The devices of a DirectShow listing, given as lines.
pub fn parse_dshow_lines(lines: &Vec<String>) -> (r: Vec<DeviceInfo>)
    ensures
        device_views(r@) == dshow_scan(views(lines@), false),
{
    let ghost all = views(lines@);
    let mut out: Vec<DeviceInfo> = Vec::new();
    assert(all.subrange(0, lines@.len() as int) =~= all);
    assert(device_views(out@) =~= Seq::<(Seq<char>, Seq<char>, bool)>::empty());
    let mut in_video = false;
    let n = lines.len();
    let mut i: usize = 0;
    while i < n
        invariant
            n == lines@.len(),
            all == views(lines@),
            i <= n,
            device_views(out@) + dshow_scan(all.subrange(i as int, n as int), in_video) == dshow_scan(
                all,
                false,
            ),
        decreases n - i,
    {
        let line = lines[i].as_str();
        let ghost rest = all.subrange(i + 1, n as int);
        assert(all.subrange(i as int, n as int).drop_first() =~= rest);
        assert(all.subrange(i as int, n as int)[0] == line@);
        if contains_str(line, "DirectShow video devices") {
            in_video = true;
        } else if in_video && contains_str(line, "DirectShow audio devices") {
            assert(device_views(out@) + Seq::<(Seq<char>, Seq<char>, bool)>::empty() =~= device_views(out@));
            assert(all.subrange(n as int, n as int) =~= Seq::<Seq<char>>::empty());
            i = n;
            continue;
        } else if in_video {
            match extract_dshow_quoted_name(line) {
                None => {},
                Some(name) => {
                    let d = dshow_device(name);
                    let ghost before = out@;
                    let ghost e = (d.id@, d.name@, d.is_usb);
                    out.push(d);
                    assert(device_views(out@) =~= device_views(before).push(e));
                    assert(device_views(before) + (seq![e] + dshow_scan(rest, true)) =~= device_views(
                        before,
                    ).push(e) + dshow_scan(rest, true));
                },
            }
        }
        i = i + 1;
    }
    assert(all.subrange(n as int, n as int) =~= Seq::<Seq<char>>::empty());
    assert(device_views(out@) + Seq::<(Seq<char>, Seq<char>, bool)>::empty() =~= device_views(out@));
    out
}

/// The video devices of FFmpeg's DirectShow device listing.
pub fn parse_dshow_video_devices(s: &str) -> (r: Vec<DeviceInfo>)
    ensures
        device_views(r@) == dshow_scan(lines_of(s@), false),
{
    let lines = split_lines(s);
    parse_dshow_lines(&lines)
}

/// The USB product name a line of the USB registry dump carries, if any.
pub open spec fn usb_name_of(line: Seq<char>) -> Option<Seq<char>> {
    let l = trim_of(line);
    match quoted_value(l, "\"USB Product Name\""@) {
        Some(v) => Some(v),
        None => quoted_value(l, "\"kUSBProductString\""@),
    }
}

/// The USB product names in a registry dump, in order of appearance.
pub open spec fn usb_name_scan(lines: Seq<Seq<char>>) -> Seq<Seq<char>>
    decreases lines.len(),
{
    if lines.len() == 0 {
        Seq::empty()
    } else {
        let rest = usb_name_scan(lines.drop_last());
        match usb_name_of(lines.last()) {
            Some(v) => rest.push(v),
            None => rest,
        }
    }
}

/// The USB product names found in the lines of a registry dump, each once,
/// in order of first appearance.
pub fn usb_product_names(lines: &Vec<String>) -> (r: Vec<String>)
    ensures
        views(r@) == crate::device::dedup_seq(usb_name_scan(views(lines@))),
{
    let ghost all = views(lines@);
    let mut names: Vec<String> = Vec::new();
    let n = lines.len();
    let mut i: usize = 0;
    while i < n
        invariant
            n == lines@.len(),
            all == views(lines@),
            i <= n,
            views(names@) == usb_name_scan(all.take(i as int)),
        decreases n - i,
    {
        let l = trim(lines[i].as_str());
        let ghost t = all.take(i + 1);
        assert(t.drop_last() =~= all.take(i as int));
        assert(t.last() == lines@[i as int]@);
        let found = match extract_quoted_value(l, "\"USB Product Name\"") {
            Some(v) => Some(v),
            None => extract_quoted_value(l, "\"kUSBProductString\""),
        };
        match found {
            Some(v) => {
                let ghost before = names@;
                let ghost vv = v@;
                names.push(v);
                assert(views(names@) =~= views(before).push(vv));
            },
            None => {},
        }
        i = i + 1;
    }
    assert(all.take(n as int) =~= all);
    assert(views(names@) =~= names@.map_values(|x: String| x@));
    let r = crate::device::dedup_preserve_order(names);
    assert(views(r@) =~= r@.map_values(|x: String| x@));
    r
}

/// The index of a `videoN` entry of the video-device class directory.
pub open spec fn video_node_index_of(name: Seq<char>) -> Option<u32> {
    if has_prefix(name, "video"@) {
        parse_u32_of(name.subrange("video"@.len() as int, name.len() as int))
    } else {
        None
    }
}

pub fn video_node_index(name: &str) -> (r: Option<u32>)
    ensures
        r == video_node_index_of(name@),
{
    if !starts_with(name, "video") {
        return None;
    }
    parse_u32(name.substring_char("video".unicode_len(), name.unicode_len()))
}

/// Whether a device path or description mentions USB, in any case.
pub open spec fn mentions_usb(text: Seq<char>) -> bool {
    has_substring(lower_of(text), "usb"@)
}

pub fn is_usb_text(text: &str) -> (r: bool)
    ensures
        r == mentions_usb(text@),
{
    let lower = to_lowercase(text);
    contains_str(lower.as_str(), "usb")
}

} // verus!
