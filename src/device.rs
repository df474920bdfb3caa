use crate::camera::TargetOs;
use crate::text::{
    contains_case_insensitive, lower_of,
    all_ascii_digits, find_char, first_index, has_prefix, has_substring, contains_str,
    is_all_ascii_digits, starts_with, trim, trim_of,
};
use vstd::prelude::*;
use vstd::string::*;

verus! {

/// `s` without the prefix `p`, when it has it.
pub open spec fn strip_prefix(s: Seq<char>, p: Seq<char>) -> Seq<char> {
    if has_prefix(s, p) {
        s.subrange(p.len() as int, s.len() as int)
    } else {
        s
    }
}

/// A device selector in canonical form, for an already trimmed selector:
/// one with a backend prefix is kept; otherwise the target's own spellings
/// get their prefix (a camera index on macOS, a device node on Linux, a
/// DirectShow name on Windows, quoted or not); anything else is kept.
pub open spec fn normalized_device_id(s: Seq<char>, os: TargetOs) -> Seq<char> {
    if has_prefix(s, "avf:"@) || has_prefix(s, "file:"@) || has_prefix(s, "dshow:"@) {
        s
    } else if os == TargetOs::Macos && all_ascii_digits(s) {
        "avf:"@ + s
    } else if os == TargetOs::Linux && has_prefix(s, "/dev/video"@) {
        "file:"@ + s
    } else if os == TargetOs::Windows && has_prefix(s, "video="@) {
        "dshow:"@ + s
    } else if os == TargetOs::Windows && s.len() > 2 && s[0] == '"' && s[s.len() - 1] == '"' {
        "dshow:video="@ + s.subrange(1, s.len() - 1)
    } else {
        s
    }
}

/// Puts a trimmed device selector in canonical form.
pub fn normalize_trimmed_device_id(s: &str, os: TargetOs) -> (r: String)
    ensures
        r@ == normalized_device_id(s@, os),
{
    if starts_with(s, "avf:") || starts_with(s, "file:") || starts_with(s, "dshow:") {
        return String::from_str(s);
    }
    if os == TargetOs::Macos && is_all_ascii_digits(s) {
        return String::from_str("avf:").concat(s);
    }
    if os == TargetOs::Linux && starts_with(s, "/dev/video") {
        return String::from_str("file:").concat(s);
    }
    if os == TargetOs::Windows {
        if starts_with(s, "video=") {
            return String::from_str("dshow:").concat(s);
        }
        let n = s.unicode_len();
        if n >= 2 && s.get_char(0) == '"' && s.get_char(n - 1) == '"' {
            let inner = s.substring_char(1, n - 1);
            if inner.unicode_len() > 0 {
                return String::from_str("dshow:video=").concat(inner);
            }
        }
    }
    String::from_str(s)
}

/// Trims a device selector and puts it in canonical form.
pub fn normalize_device_id(raw: &str, os: TargetOs) -> (r: String)
    ensures
        r@ == normalized_device_id(trim_of(raw@), os),
{
    normalize_trimmed_device_id(trim(raw), os)
}

fn strip<'a>(s: &'a str, p: &str) -> (r: &'a str)
    ensures
        r@ == strip_prefix(s@, p@),
{
    if starts_with(s, p) {
        s.substring_char(p.unicode_len(), s.unicode_len())
    } else {
        s
    }
}

/// The input FFmpeg is given for a device selector: the backend prefix goes,
/// and on Linux a bare number names a video device node.
pub open spec fn input_device(d: Seq<char>, os: TargetOs) -> Seq<char> {
    if os == TargetOs::Macos {
        strip_prefix(d, "avf:"@)
    } else if os == TargetOs::Linux {
        let e = strip_prefix(d, "file:"@);
        if all_ascii_digits(e) {
            "/dev/video"@ + e
        } else {
            e
        }
    } else if os == TargetOs::Windows {
        strip_prefix(d, "dshow:"@)
    } else {
        d
    }
}

pub fn get_input_device(device: &str, os: TargetOs) -> (r: String)
    ensures
        r@ == input_device(device@, os),
{
    if os == TargetOs::Macos {
        String::from_str(strip(device, "avf:"))
    } else if os == TargetOs::Linux {
        let e = strip(device, "file:");
        if is_all_ascii_digits(e) {
            String::from_str("/dev/video").concat(e)
        } else {
            String::from_str(e)
        }
    } else if os == TargetOs::Windows {
        String::from_str(strip(device, "dshow:"))
    } else {
        String::from_str(device)
    }
}

/// The text between the first two double quotes of `rhs`.
pub open spec fn between_quotes(rhs: Seq<char>) -> Option<Seq<char>> {
    match first_index(rhs, '"') {
        None => None,
        Some(f) => {
            let rest = rhs.subrange(f + 1 as int, rhs.len() as int);
            match first_index(rest, '"') {
                None => None,
                Some(l) => Some(rest.subrange(0, l as int)),
            }
        },
    }
}

/// The quoted value of a `key = "value"` line: `None` when the line lacks
/// the key, an `=`, or two quotes after it.
pub open spec fn quoted_value(line: Seq<char>, key: Seq<char>) -> Option<Seq<char>> {
    if !has_substring(line, key) {
        None
    } else {
        match first_index(line, '=') {
            None => None,
            Some(e) => between_quotes(trim_of(line.subrange(e + 1 as int, line.len() as int))),
        }
    }
}

/// The text between the first two double quotes of an already trimmed
/// right-hand side.
pub fn extract_between_quotes(rhs: &str) -> (r: Option<String>)
    ensures
        r matches Some(v) ==> between_quotes(rhs@) == Some(v@),
        r is None ==> between_quotes(rhs@) is None,
{
    let n = rhs.unicode_len();
    let first = match find_char(rhs, '"') {
        None => return None,
        Some(f) => f,
    };
    let rest = rhs.substring_char(first + 1, n);
    let last = match find_char(rest, '"') {
        None => return None,
        Some(l) => l,
    };
    Some(String::from_str(rest.substring_char(0, last)))
}

/// The quoted value of a `key = "value"` line.
pub fn extract_quoted_value(line: &str, key: &str) -> (r: Option<String>)
    ensures
        r matches Some(v) ==> quoted_value(line@, key@) == Some(v@),
        r is None ==> quoted_value(line@, key@) is None,
{
    if !contains_str(line, key) {
        return None;
    }
    let n = line.unicode_len();
    let eq = match find_char(line, '=') {
        None => return None,
        Some(e) => e,
    };
    let rhs = trim(line.substring_char(eq + 1, n));
    extract_between_quotes(rhs)
}

/// The non-empty name between a leading double quote and the next one, in
/// an already trimmed line.
pub open spec fn quoted_name(l: Seq<char>) -> Option<Seq<char>> {
    if l.len() == 0 || l[0] != '"' {
        None
    } else {
        let rest = l.subrange(1, l.len() as int);
        match first_index(rest, '"') {
            None => None,
            Some(end) => if end == 0 {
                None
            } else {
                Some(rest.subrange(0, end as int))
            },
        }
    }
}

/// The quoted device name at the start of a trimmed listing line.
pub fn extract_quoted_name(l: &str) -> (r: Option<String>)
    ensures
        r matches Some(v) ==> quoted_name(l@) == Some(v@),
        r is None ==> quoted_name(l@) is None,
{
    let n = l.unicode_len();
    if n == 0 || l.get_char(0) != '"' {
        return None;
    }
    let rest = l.substring_char(1, n);
    let end = match find_char(rest, '"') {
        None => return None,
        Some(e) => e,
    };
    if end == 0 {
        return None;
    }
    Some(String::from_str(rest.substring_char(0, end)))
}

/// The quoted device name at the start of a DirectShow listing line.
pub fn extract_dshow_quoted_name(line: &str) -> (r: Option<String>)
    ensures
        r matches Some(v) ==> quoted_name(trim_of(line@)) == Some(v@),
        r is None ==> quoted_name(trim_of(line@)) is None,
{
    extract_quoted_name(trim(line))
}

/// A capture device found on the system.
#[derive(Clone, Debug)]
pub struct DeviceInfo {
    /// Selector with its backend prefix.
    pub id: String,
    pub name: String,
    pub is_usb: bool,
}

/// Position of the first USB device, if any.
pub open spec fn first_usb(devices: Seq<DeviceInfo>) -> Option<nat> {
    if exists|i: int| 0 <= i < devices.len() && devices[i].is_usb {
        let i = choose|i: int|
            0 <= i < devices.len() && devices[i].is_usb && forall|j: int|
                0 <= j < i ==> !devices[j].is_usb;
        Some(i as nat)
    } else {
        None
    }
}

/// The device to capture from when none was named: the first USB device,
/// else the first device, else none.
pub open spec fn picked_device(devices: Seq<DeviceInfo>) -> Option<Seq<char>> {
    if devices.len() == 0 {
        None
    } else {
        match first_usb(devices) {
            Some(i) => Some(devices[i as int].id@),
            None => Some(devices[0].id@),
        }
    }
}

pub fn pick_device(devices: &Vec<DeviceInfo>) -> (r: Option<String>)
    ensures
        r matches Some(id) ==> picked_device(devices@) == Some(id@),
        r is None ==> picked_device(devices@) is None,
{
    let n = devices.len();
    if n == 0 {
        return None;
    }
    let mut i: usize = 0;
    while i < n
        invariant
            n == devices@.len(),
            i <= n,
            forall|j: int| 0 <= j < i ==> !devices@[j].is_usb,
        decreases n - i,
    {
        if devices[i].is_usb {
            proof {
                let k = choose|k: int|
                    0 <= k < devices@.len() && devices@[k].is_usb && forall|j: int|
                        0 <= j < k ==> !devices@[j].is_usb;
                if k < i {
                } else if k > i {
                    assert(!devices@[i as int].is_usb);
                }
            }
            return Some(devices[i].id.clone());
        }
        i = i + 1;
    }
    Some(devices[0].id.clone())
}

/// A device named explicitly, trimmed; a blank name counts as none.
pub open spec fn explicit_device_of(explicit: Option<String>) -> Option<Seq<char>> {
    match explicit {
        Some(s) => if trim_of(s@).len() > 0 {
            Some(trim_of(s@))
        } else {
            None
        },
        None => None,
    }
}

pub fn explicit_device(explicit: &Option<String>) -> (r: Option<String>)
    ensures
        r matches Some(d) ==> explicit_device_of(*explicit) == Some(d@),
        r is None ==> explicit_device_of(*explicit) is None,
{
    match explicit {
        Some(s) => {
            let t = trim(s.as_str());
            if t.unicode_len() > 0 {
                Some(String::from_str(t))
            } else {
                None
            }
        },
        None => None,
    }
}

/// The selector to fall back to when no device could be chosen.
pub open spec fn fallback_device(os: TargetOs) -> Seq<char> {
    if os == TargetOs::Macos {
        "avf:0"@
    } else if os == TargetOs::Windows {
        "dshow:video=default"@
    } else if os == TargetOs::Linux {
        "file:/dev/video0"@
    } else {
        Seq::empty()
    }
}

pub fn default_device_fallback(os: TargetOs) -> (r: String)
    ensures
        r@ == fallback_device(os),
{
    if os == TargetOs::Macos {
        String::from_str("avf:0")
    } else if os == TargetOs::Windows {
        String::from_str("dshow:video=default")
    } else if os == TargetOs::Linux {
        String::from_str("file:/dev/video0")
    } else {
        proof {
            reveal_strlit("");
        }
        String::from_str("")
    }
}

/// Each string once, where it first occurs.
pub open spec fn dedup_seq(s: Seq<Seq<char>>) -> Seq<Seq<char>>
    decreases s.len(),
{
    if s.len() == 0 {
        Seq::empty()
    } else {
        let p = dedup_seq(s.drop_last());
        if p.contains(s.last()) {
            p
        } else {
            p.push(s.last())
        }
    }
}

fn contains_string(v: &Vec<String>, s: &String) -> (r: bool)
    ensures
        r == v@.map_values(|x: String| x@).contains(s@),
{
    let ghost views = v@.map_values(|x: String| x@);
    let n = v.len();
    let mut i: usize = 0;
    while i < n
        invariant
            n == v@.len(),
            views == v@.map_values(|x: String| x@),
            i <= n,
            forall|j: int| 0 <= j < i ==> views[j] != s@,
        decreases n - i,
    {
        if v[i] == *s {
            assert(views[i as int] == s@);
            return true;
        }
        i = i + 1;
    }
    false
}

/// Removes repeated strings, keeping the first occurrence of each in order.
pub fn dedup_preserve_order(v: Vec<String>) -> (r: Vec<String>)
    ensures
        r@.map_values(|x: String| x@) == dedup_seq(v@.map_values(|x: String| x@)),
{
    let ghost all = v@.map_values(|x: String| x@);
    let mut out: Vec<String> = Vec::new();
    let n = v.len();
    let mut i: usize = 0;
    while i < n
        invariant
            n == v@.len(),
            all == v@.map_values(|x: String| x@),
            i <= n,
            out@.map_values(|x: String| x@) == dedup_seq(all.take(i as int)),
        decreases n - i,
    {
        let s = v[i].clone();
        proof {
            let t = all.take(i as int + 1);
            assert(t.drop_last() =~= all.take(i as int));
            assert(t.last() == s@);
        }
        if !contains_string(&out, &s) {
            let ghost before = out@;
            out.push(s);
            assert(out@.map_values(|x: String| x@) =~= before.map_values(|x: String| x@).push(
                all[i as int],
            ));
        }
        i = i + 1;
    }
    assert(all.take(n as int) =~= all);
    out
}

/// Whether a device name contains, in any case, one of the USB product
/// names.
pub open spec fn matches_usb_name(name: Seq<char>, usb_names: Seq<Seq<char>>) -> bool {
    exists|k: int| 0 <= k < usb_names.len() && has_substring(lower_of(name), lower_of(#[trigger] usb_names[k]))
}

/// Position of the first device whose name matches a USB product name.
pub open spec fn first_usb_named(devices: Seq<DeviceInfo>, usb_names: Seq<Seq<char>>) -> Option<nat> {
    if exists|i: int| 0 <= i < devices.len() && matches_usb_name(#[trigger] devices[i].name@, usb_names) {
        let i = choose|i: int|
            0 <= i < devices.len() && matches_usb_name(#[trigger] devices[i].name@, usb_names) && forall|j: int|
                0 <= j < i ==> !matches_usb_name(#[trigger] devices[j].name@, usb_names);
        Some(i as nat)
    } else {
        None
    }
}

fn name_matches_usb(name: &String, usb_names: &Vec<String>) -> (r: bool)
    ensures
        r == matches_usb_name(name@, usb_names@.map_values(|x: String| x@)),
{
    let ghost names = usb_names@.map_values(|x: String| x@);
    let n = usb_names.len();
    let mut k: usize = 0;
    while k < n
        invariant
            n == usb_names@.len(),
            names == usb_names@.map_values(|x: String| x@),
            k <= n,
            forall|j: int| 0 <= j < k ==> !has_substring(lower_of(name@), lower_of(#[trigger] names[j])),
        decreases n - k,
    {
        if contains_case_insensitive(name.as_str(), usb_names[k].as_str()) {
            assert(names[k as int] == usb_names@[k as int]@);
            return true;
        }
        assert(names[k as int] == usb_names@[k as int]@);
        k = k + 1;
    }
    false
}

/// The selector of the first device whose name matches one of the USB
/// product names; none when there are no such names or no such device.
pub fn prefer_usb_by_name(devices: &Vec<DeviceInfo>, usb_names: &Vec<String>) -> (r: Option<String>)
    ensures
        r matches Some(id) ==> first_usb_named(devices@, usb_names@.map_values(|x: String| x@)) matches Some(
            i,
        ) && devices@[i as int].id@ == id@,
        r is None ==> first_usb_named(devices@, usb_names@.map_values(|x: String| x@)) is None,
{
    let ghost names = usb_names@.map_values(|x: String| x@);
    let n = devices.len();
    let mut i: usize = 0;
    while i < n
        invariant
            n == devices@.len(),
            names == usb_names@.map_values(|x: String| x@),
            i <= n,
            forall|j: int| 0 <= j < i ==> !matches_usb_name(#[trigger] devices@[j].name@, names),
        decreases n - i,
    {
        if name_matches_usb(&devices[i].name, usb_names) {
            proof {
                let k = choose|k: int|
                    0 <= k < devices@.len() && matches_usb_name(#[trigger] devices@[k].name@, names)
                        && forall|j: int| 0 <= j < k ==> !matches_usb_name(#[trigger] devices@[j].name@, names);
                if k < i {
                } else if k > i {
                    assert(!matches_usb_name(devices@[i as int].name@, names));
                }
            }
            return Some(devices[i].id.clone());
        }
        i = i + 1;
    }
    None
}

/// A device as the cataloger lists it in text form: `id: name`, with
/// ` [usb]` after a USB device.
pub open spec fn device_line_of(d: DeviceInfo) -> Seq<char> {
    d.id@ + ": "@ + d.name@ + if d.is_usb {
        " [usb]"@
    } else {
        Seq::empty()
    }
}

pub fn device_line(d: &DeviceInfo) -> (r: String)
    ensures
        r@ == device_line_of(*d),
{
    let s = d.id.clone().concat(": ").concat(d.name.as_str());
    if d.is_usb {
        s.concat(" [usb]")
    } else {
        assert(s@ + Seq::<char>::empty() =~= s@);
        s
    }
}

/// Code-point order on strings, the order of `str`'s comparison.
pub open spec fn text_le(a: Seq<char>, b: Seq<char>) -> bool
    decreases a.len(),
{
    if a.len() == 0 {
        true
    } else if b.len() == 0 {
        false
    } else if a[0] != b[0] {
        (a[0] as int) < (b[0] as int)
    } else {
        text_le(a.drop_first(), b.drop_first())
    }
}

/// Devices ordered by selector, then by name.
pub open spec fn device_le(a: DeviceInfo, b: DeviceInfo) -> bool {
    if a.id@ == b.id@ {
        text_le(a.name@, b.name@)
    } else {
        text_le(a.id@, b.id@)
    }
}

proof fn lemma_text_le_skip(a: Seq<char>, b: Seq<char>, i: int)
    requires
        0 <= i <= a.len(),
        i <= b.len(),
        a.subrange(0, i) == b.subrange(0, i),
    ensures
        text_le(a, b) == text_le(a.subrange(i, a.len() as int), b.subrange(i, b.len() as int)),
    decreases i,
{
    if i > 0 {
        assert(a[0] == a.subrange(0, i)[0]);
        assert(b[0] == b.subrange(0, i)[0]);
        let a1 = a.drop_first();
        let b1 = b.drop_first();
        assert(a1.subrange(0, i - 1) =~= a.subrange(1, i));
        assert(b1.subrange(0, i - 1) =~= b.subrange(1, i));
        assert(a.subrange(1, i) =~= a.subrange(0, i).drop_first());
        assert(b.subrange(1, i) =~= b.subrange(0, i).drop_first());
        lemma_text_le_skip(a1, b1, i - 1);
        assert(a1.subrange(i - 1, a1.len() as int) =~= a.subrange(i, a.len() as int));
        assert(b1.subrange(i - 1, b1.len() as int) =~= b.subrange(i, b.len() as int));
    } else {
        assert(a.subrange(0, a.len() as int) =~= a);
        assert(b.subrange(0, b.len() as int) =~= b);
    }
}

/// Whether `a` comes no later than `b` in code-point order.
pub fn text_le_str(a: &str, b: &str) -> (r: bool)
    ensures
        r == text_le(a@, b@),
{
    let an = a.unicode_len();
    let bn = b.unicode_len();
    let mut i: usize = 0;
    while i < an && i < bn
        invariant
            an == a@.len(),
            bn == b@.len(),
            i <= an,
            i <= bn,
            a@.subrange(0, i as int) == b@.subrange(0, i as int),
        decreases an - i,
    {
        let ca = a.get_char(i);
        let cb = b.get_char(i);
        if ca != cb {
            proof {
                lemma_text_le_skip(a@, b@, i as int);
                let sa = a@.subrange(i as int, an as int);
                let sb = b@.subrange(i as int, bn as int);
                assert(sa[0] == ca);
                assert(sb[0] == cb);
            }
            return ca < cb;
        }
        proof {
            assert(a@.subrange(0, i + 1) =~= a@.subrange(0, i as int).push(ca));
            assert(b@.subrange(0, i + 1) =~= b@.subrange(0, i as int).push(cb));
        }
        i = i + 1;
    }
    proof {
        lemma_text_le_skip(a@, b@, i as int);
        let sa = a@.subrange(i as int, an as int);
        let sb = b@.subrange(i as int, bn as int);
        if i == an {
            assert(sa.len() == 0);
        } else {
            assert(sb.len() == 0);
        }
    }
    i == an
}

pub fn device_le_exec(a: &DeviceInfo, b: &DeviceInfo) -> (r: bool)
    ensures
        r == device_le(*a, *b),
{
    if a.id == b.id {
        text_le_str(a.name.as_str(), b.name.as_str())
    } else {
        text_le_str(a.id.as_str(), b.id.as_str())
    }
}

proof fn lemma_text_le_total(a: Seq<char>, b: Seq<char>)
    ensures
        text_le(a, b) || text_le(b, a),
    decreases a.len(),
{
    if a.len() > 0 && b.len() > 0 {
        if a[0] == b[0] {
            lemma_text_le_total(a.drop_first(), b.drop_first());
        } else {
            assert((a[0] as int) != (b[0] as int));
        }
    }
}

proof fn lemma_text_le_antisymmetric(a: Seq<char>, b: Seq<char>)
    requires
        text_le(a, b),
        text_le(b, a),
    ensures
        a == b,
    decreases a.len(),
{
    if a.len() > 0 {
        lemma_text_le_antisymmetric(a.drop_first(), b.drop_first());
        assert(a =~= seq![a[0]] + a.drop_first());
        assert(b =~= seq![b[0]] + b.drop_first());
    } else {
        assert(b.len() == 0);
        assert(a =~= b);
    }
}

proof fn lemma_text_le_transitive(a: Seq<char>, b: Seq<char>, c: Seq<char>)
    requires
        text_le(a, b),
        text_le(b, c),
    ensures
        text_le(a, c),
    decreases a.len(),
{
    if a.len() > 0 && b.len() > 0 && c.len() > 0 && a[0] == b[0] && b[0] == c[0] {
        lemma_text_le_transitive(a.drop_first(), b.drop_first(), c.drop_first());
    }
}

proof fn lemma_device_le_total(a: DeviceInfo, b: DeviceInfo)
    ensures
        device_le(a, b) || device_le(b, a),
{
    lemma_text_le_total(a.id@, b.id@);
    lemma_text_le_total(a.name@, b.name@);
}

proof fn lemma_device_le_transitive(a: DeviceInfo, b: DeviceInfo, c: DeviceInfo)
    requires
        device_le(a, b),
        device_le(b, c),
    ensures
        device_le(a, c),
{
    if a.id@ == b.id@ && b.id@ == c.id@ {
        lemma_text_le_transitive(a.name@, b.name@, c.name@);
    } else if a.id@ != b.id@ && b.id@ != c.id@ {
        lemma_text_le_transitive(a.id@, b.id@, c.id@);
        if a.id@ == c.id@ {
            lemma_text_le_antisymmetric(a.id@, b.id@);
        }
    }
}

/// Every device comes no later than each one after it.
pub open spec fn devices_ordered(s: Seq<DeviceInfo>) -> bool {
    forall|i: int, j: int| 0 <= i < j < s.len() ==> device_le(#[trigger] s[i], #[trigger] s[j])
}

/// `d` placed in a sorted list after every device that does not come after
/// it.
pub open spec fn insert_sorted(s: Seq<DeviceInfo>, d: DeviceInfo) -> Seq<DeviceInfo>
    decreases s.len(),
{
    if s.len() == 0 {
        seq![d]
    } else if !device_le(s[0], d) {
        seq![d] + s
    } else {
        seq![s[0]] + insert_sorted(s.drop_first(), d)
    }
}

/// The devices in `(id, name)` order; equal ones keep their order.
pub open spec fn sorted_devices(v: Seq<DeviceInfo>) -> Seq<DeviceInfo>
    decreases v.len(),
{
    if v.len() == 0 {
        Seq::empty()
    } else {
        insert_sorted(sorted_devices(v.drop_last()), v.last())
    }
}

proof fn lemma_insert_sorted_at(s: Seq<DeviceInfo>, d: DeviceInfo, p: int)
    requires
        0 <= p <= s.len(),
        forall|j: int| 0 <= j < p ==> device_le(#[trigger] s[j], d),
        p < s.len() ==> !device_le(s[p], d),
    ensures
        insert_sorted(s, d) == s.insert(p, d),
    decreases s.len(),
{
    if s.len() == 0 {
        assert(s.insert(p, d) =~= seq![d]);
    } else if p == 0 {
        assert(s.insert(0, d) =~= seq![d] + s);
    } else {
        let t = s.drop_first();
        assert forall|j: int| 0 <= j < p - 1 implies device_le(#[trigger] t[j], d) by {
            assert(t[j] == s[j + 1]);
        }
        if p - 1 < t.len() {
            assert(t[p - 1] == s[p]);
        }
        lemma_insert_sorted_at(t, d, p - 1);
        assert(seq![s[0]] + t.insert(p - 1, d) =~= s.insert(p, d));
    }
}

/// Orders devices by selector, then by name, keeping the order of equal
/// ones.
pub fn sort_devices(v: Vec<DeviceInfo>) -> (r: Vec<DeviceInfo>)
    ensures
        r@ == sorted_devices(v@),
        devices_ordered(r@),
        r@.to_multiset() == v@.to_multiset(),
{
    let ghost orig = v@;
    let mut rest = v;
    let mut out: Vec<DeviceInfo> = Vec::new();
    assert(out@ =~= orig.take(0));
    let n = rest.len();
    let mut k: usize = 0;
    while k < n
        invariant
            n == orig.len(),
            k <= n,
            rest@ == orig.subrange(k as int, n as int),
            out@ == sorted_devices(orig.take(k as int)),
            devices_ordered(out@),
            out@.to_multiset() == orig.take(k as int).to_multiset(),
        decreases n - k,
    {
        let d = rest.remove(0);
        assert(d == orig[k as int]);
        let m = out.len();
        let mut p: usize = 0;
        while p < m && device_le_exec(&out[p], &d)
            invariant
                m == out@.len(),
                p <= m,
                forall|j: int| 0 <= j < p ==> device_le(#[trigger] out@[j], d),
            decreases m - p,
        {
            p = p + 1;
        }
        let ghost old_out = out@;
        proof {
            lemma_insert_sorted_at(out@, d, p as int);
            let t = orig.take(k + 1);
            assert(t.drop_last() =~= orig.take(k as int));
            assert(t.last() == d);
            assert(t =~= orig.take(k as int).push(d));
        }
        out.insert(p, d);
        proof {
            assert(out@ == old_out.insert(p as int, d));
            vstd::seq_lib::to_multiset_insert(old_out, p as int, d);
            let t = orig.take(k + 1);
            assert(t =~= orig.take(k as int).push(d));
            vstd::seq_lib::to_multiset_build(orig.take(k as int), d);
            assert(out@.to_multiset() == t.to_multiset());
            if p < m {
                lemma_device_le_total(old_out[p as int], d);
            }
            assert forall|i: int, j: int| 0 <= i < j < out@.len() implies device_le(
                #[trigger] out@[i],
                #[trigger] out@[j],
            ) by {
                let pi = p as int;
                if j < pi {
                    assert(device_le(old_out[i], old_out[j]));
                } else if j == pi {
                    assert(device_le(old_out[i], d));
                } else if i > pi {
                    assert(device_le(old_out[i - 1], old_out[j - 1]));
                } else if i == pi {
                    assert(device_le(d, old_out[pi]));
                    if j - 1 > pi {
                        assert(device_le(old_out[pi], old_out[j - 1]));
                        lemma_device_le_transitive(d, old_out[pi], old_out[j - 1]);
                    }
                } else {
                    assert(device_le(old_out[i], old_out[j - 1]));
                }
            }
        }
        k = k + 1;
        proof {
            assert(rest@ =~= orig.subrange(k as int, n as int));
        }
    }
    assert(orig.take(n as int) =~= orig);
    out
}

} // verus!
