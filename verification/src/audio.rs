//! Labels for audio input devices: a readable name from the metadata a
//! device reports, details that tell devices with the same name apart,
//! numbering of labels that are still equal, and which devices count as
//! capture inputs.
use vstd::prelude::*;

use crate::text::{
    chars_of, decimal_chars, push_decimal, contains_chars, contains_seq, contains_text, eq_ignore_ascii_case,
    eq_ignore_ascii_case_spec, is_white_space, char_is_whitespace, lowercased, starts_with_seq,
    starts_with_text, string_from_chars, to_lowercase,
};

verus! {

// ---------------------------------------------------------------------------
// The model
// ---------------------------------------------------------------------------
/// The characters of `s` with white space runs collapsed: `pending` says a
/// space is owed before the next word, `started` that a word was seen.
pub open spec fn collapse_ws(s: Seq<char>, pending: bool, started: bool) -> Seq<char>
    decreases s.len(),
{
    if s.len() == 0 {
        Seq::empty()
    } else if is_white_space(s[0]) {
        collapse_ws(s.drop_first(), started, started)
    } else {
        (if pending {
            seq![' ']
        } else {
            Seq::empty()
        }) + seq![s[0]] + collapse_ws(s.drop_first(), false, true)
    }
}

/// The words of `text` (split at white space) joined by single spaces.
pub open spec fn spec_normalize_label(text: Seq<char>) -> Seq<char> {
    collapse_ws(text, false, false)
}

/// A metadata line, normalized, when anything is left of it.
pub open spec fn spec_sanitize_metadata_line(text: Seq<char>) -> Option<Seq<char>> {
    let n = spec_normalize_label(text);
    if n.len() == 0 {
        None
    } else {
        Some(n)
    }
}

/// Whether a line of extended metadata says more than `name` and the two
/// stock descriptions.
pub open spec fn spec_is_useful_extended_line(line: Seq<char>, name: Seq<char>) -> bool {
    &&& !eq_ignore_ascii_case_spec(line, name)
    &&& !eq_ignore_ascii_case_spec(line, "Direct hardware device without any conversions"@)
    &&& !eq_ignore_ascii_case_spec(line, "Default Audio Device"@)
}

/// The first extended line that, normalized, is non-empty and useful
/// against `name`.
pub open spec fn first_useful_line(lines: Seq<Seq<char>>, name: Seq<char>) -> Option<Seq<char>>
    decreases lines.len(),
{
    if lines.len() == 0 {
        None
    } else {
        match spec_sanitize_metadata_line(lines[0]) {
            Some(l) => if spec_is_useful_extended_line(l, name) {
                Some(l)
            } else {
                first_useful_line(lines.drop_first(), name)
            },
            None => first_useful_line(lines.drop_first(), name),
        }
    }
}

/// The texts of a list of string slices.
pub open spec fn texts(lines: Seq<&str>) -> Seq<Seq<char>> {
    lines.map_values(|l: &str| l@)
}

/// Whether a (normalized) device name says nothing about the device.
pub open spec fn spec_is_generic_device_name(name: Seq<char>) -> bool {
    let lower = lowercased(name);
    ||| lower == "default"@
    ||| lower == "default audio device"@
    ||| lower == "audio"@
    ||| lower == "usb audio"@
    ||| starts_with_seq(lower, "monitor of"@)
}

/// The number of times `c` occurs in `s`.
pub open spec fn count_char(s: Seq<char>, c: char) -> nat
    decreases s.len(),
{
    if s.len() == 0 {
        0
    } else {
        count_char(s.drop_last(), c) + if s.last() == c {
            1nat
        } else {
            0nat
        }
    }
}

/// The position of the first `c` in `s`, or `s.len()` when there is none.
pub open spec fn first_index_of(s: Seq<char>, c: char) -> int
    decreases s.len(),
{
    if s.len() == 0 {
        0
    } else if s[0] == c {
        0
    } else {
        1 + first_index_of(s.drop_first(), c)
    }
}

/// The number of bytes of a character in UTF-8.
pub open spec fn utf8_width(c: char) -> int {
    if (c as u32) < 0x80 {
        1
    } else if (c as u32) < 0x800 {
        2
    } else if (c as u32) < 0x10000 {
        3
    } else {
        4
    }
}

/// The number of bytes of a text in UTF-8 (`str::len`).
pub open spec fn utf8_len(s: Seq<char>) -> int
    decreases s.len(),
{
    if s.len() == 0 {
        0
    } else {
        utf8_len(s.drop_last()) + utf8_width(s.last())
    }
}

/// A readable form of a device address: `hw:CARD,DEVICE` as
/// `Card CARD, Device DEVICE`, other short addresses as they are (at most
/// 24 bytes), nothing for empty or long ones.
pub open spec fn spec_pretty_address(address: Seq<char>) -> Option<Seq<char>> {
    let n = spec_normalize_label(address);
    if n.len() == 0 {
        None
    } else if starts_with_seq(n, "hw:"@) && count_char(n.skip(3), ',') == 1 {
        let value = n.skip(3);
        let k = first_index_of(value, ',');
        Some("Card "@ + value.take(k) + ", Device "@ + value.skip(k + 1))
    } else if utf8_len(n) <= 24 {
        Some(n)
    } else {
        None
    }
}

/// The main label of a device: its normalized name, unless that is
/// generic; then the first useful extended line, or else the
/// manufacturer (with ` Audio` added when it does not mention audio).
pub open spec fn spec_preferred_primary_label(
    name: Seq<char>,
    manufacturer: Option<Seq<char>>,
    extended: Seq<Seq<char>>,
) -> Seq<char> {
    let normalized = spec_normalize_label(name);
    if spec_is_generic_device_name(normalized) {
        match first_useful_line(extended, normalized) {
            Some(line) => line,
            None => match manufacturer {
                Some(m) => match spec_sanitize_metadata_line(m) {
                    Some(sm) => if contains_seq(lowercased(sm), "audio"@) {
                        sm
                    } else {
                        sm + " Audio"@
                    },
                    None => normalized,
                },
                None => normalized,
            },
        }
    } else {
        normalized
    }
}

/// The detail that tells a device apart from others of the same name, in
/// order of preference: a manufacturer the label does not already
/// mention, a second useful extended line, a readable address, the
/// interface type, the driver. Devices with a unique name get none.
pub open spec fn spec_label_detail(
    primary_label: Seq<char>,
    manufacturer: Option<Seq<char>>,
    address: Option<Seq<char>>,
    interface_type: Option<Seq<char>>,
    driver: Option<Seq<char>>,
    extended: Seq<Seq<char>>,
    duplicate_name: bool,
) -> Option<Seq<char>> {
    if !duplicate_name {
        None
    } else {
        let m = match manufacturer {
            Some(m) => spec_sanitize_metadata_line(m),
            None => None,
        };
        if m is Some && !contains_seq(lowercased(primary_label), lowercased(m->0)) {
            m
        } else if first_useful_line(extended, primary_label) is Some {
            first_useful_line(extended, primary_label)
        } else if address is Some && spec_pretty_address(address->0) is Some {
            spec_pretty_address(address->0)
        } else if interface_type is Some {
            interface_type
        } else {
            match driver {
                Some(d) => spec_sanitize_metadata_line(d),
                None => None,
            }
        }
    }
}

/// A device label: the main label, and the detail in parentheses when
/// there is one.
pub open spec fn spec_format_audio_device_label(
    name: Seq<char>,
    manufacturer: Option<Seq<char>>,
    address: Option<Seq<char>>,
    interface_type: Option<Seq<char>>,
    driver: Option<Seq<char>>,
    extended: Seq<Seq<char>>,
    duplicate_name: bool,
) -> Seq<char> {
    let primary = spec_preferred_primary_label(name, manufacturer, extended);
    match spec_label_detail(
        primary,
        manufacturer,
        address,
        interface_type,
        driver,
        extended,
        duplicate_name,
    ) {
        Some(detail) => primary + " ("@ + detail + ")"@,
        None => primary,
    }
}

// ---------------------------------------------------------------------------
// Text helpers
// ---------------------------------------------------------------------------
fn append_chars(out: &mut Vec<char>, s: &[char])
    ensures
        final(out)@ == old(out)@ + s@,
{
    let ghost start = out@;
    let mut i: usize = 0;
    while i < s.len()
        invariant
            i <= s@.len(),
            out@ == start + s@.take(i as int),
        decreases s@.len() - i,
    {
        out.push(s[i]);
        assert(start + s@.take(i as int + 1) =~= (start + s@.take(i as int)).push(s@[i as int]));
        i = i + 1;
    }
    assert(s@.take(s@.len() as int) =~= s@);
}

fn append_text(out: &mut Vec<char>, lit: &str)
    ensures
        final(out)@ == old(out)@ + lit@,
{
    let c = chars_of(lit);
    append_chars(out, c.as_slice());
}

fn lowercase_chars(s: &[char]) -> (r: Vec<char>)
    ensures
        r@ == lowercased(s@),
{
    let text = string_from_chars(s);
    let lower = to_lowercase(text.as_str());
    chars_of(lower.as_str())
}

// ---------------------------------------------------------------------------
// Executable functions
// ---------------------------------------------------------------------------
fn normalize_chars(text: &[char]) -> (r: Vec<char>)
    ensures
        r@ == spec_normalize_label(text@),
{
    let mut out: Vec<char> = Vec::new();
    let mut pending = false;
    let mut started = false;
    let mut i: usize = 0;
    proof {
        assert(text@.skip(0) =~= text@);
    }
    while i < text.len()
        invariant
            i <= text@.len(),
            out@ + collapse_ws(text@.skip(i as int), pending, started) == spec_normalize_label(
                text@,
            ),
        decreases text@.len() - i,
    {
        let c = text[i];
        let ghost rest = text@.skip(i as int);
        proof {
            assert(rest[0] == c);
            assert(rest.drop_first() =~= text@.skip(i as int + 1));
        }
        if char_is_whitespace(c) {
            pending = started;
        } else {
            let ghost before = out@;
            if pending {
                out.push(' ');
            }
            out.push(c);
            proof {
                let head = if pending {
                    seq![' ']
                } else {
                    Seq::<char>::empty()
                };
                assert(out@ =~= before + head + seq![c]);
                assert(before + (head + seq![c] + collapse_ws(rest.drop_first(), false, true)) =~= out@
                    + collapse_ws(rest.drop_first(), false, true));
            }
            pending = false;
            started = true;
        }
        i = i + 1;
    }
    proof {
        assert(out@ + Seq::<char>::empty() =~= out@);
    }
    out
}

/// The words of `text` joined by single spaces.
pub fn normalize_label(text: &str) -> (r: String)
    ensures
        r@ == spec_normalize_label(text@),
{
    let c = chars_of(text);
    let n = normalize_chars(c.as_slice());
    string_from_chars(n.as_slice())
}

/// A metadata line, normalized, when anything is left of it.
pub fn sanitize_metadata_line(text: &str) -> (r: Option<String>)
    ensures
        match r {
            Some(s) => spec_sanitize_metadata_line(text@) == Some(s@),
            None => spec_sanitize_metadata_line(text@) is None,
        },
{
    let c = chars_of(text);
    let n = normalize_chars(c.as_slice());
    if n.len() == 0 {
        None
    } else {
        Some(string_from_chars(n.as_slice()))
    }
}

/// Whether a line of extended metadata says more than `name` and the two
/// stock descriptions.
pub fn is_useful_extended_line(line: &str, name: &str) -> (r: bool)
    ensures
        r == spec_is_useful_extended_line(line@, name@),
{
    let l = chars_of(line);
    !eq_ignore_ascii_case(l.as_slice(), name) && !eq_ignore_ascii_case(
        l.as_slice(),
        "Direct hardware device without any conversions",
    ) && !eq_ignore_ascii_case(l.as_slice(), "Default Audio Device")
}

fn first_useful(extended: &[&str], name: &str) -> (r: Option<String>)
    ensures
        match r {
            Some(s) => first_useful_line(texts(extended@), name@) == Some(s@),
            None => first_useful_line(texts(extended@), name@) is None,
        },
{
    let ghost lines = texts(extended@);
    let mut i: usize = 0;
    proof {
        assert(lines.skip(0) =~= lines);
    }
    while i < extended.len()
        invariant
            i <= extended@.len(),
            lines == texts(extended@),
            first_useful_line(lines, name@) == first_useful_line(lines.skip(i as int), name@),
        decreases extended@.len() - i,
    {
        proof {
            assert(lines.skip(i as int).drop_first() =~= lines.skip(i as int + 1));
            assert(lines.skip(i as int)[0] == extended@[i as int]@);
        }
        match sanitize_metadata_line(extended[i]) {
            Some(line) => {
                if is_useful_extended_line(line.as_str(), name) {
                    return Some(line);
                }
            },
            None => {},
        }
        i = i + 1;
    }
    None
}

/// The first extended line that, normalized, is useful against `name`.
pub fn preferred_extended_line(extended: &[&str], name: &str) -> (r: Option<String>)
    ensures
        match r {
            Some(s) => first_useful_line(texts(extended@), name@) == Some(s@),
            None => first_useful_line(texts(extended@), name@) is None,
        },
{
    first_useful(extended, name)
}

/// The first extended line that, normalized, is useful against the main
/// label: a detail that tells the device apart.
pub fn secondary_extended_line(extended: &[&str], primary_label: &str) -> (r: Option<String>)
    ensures
        match r {
            Some(s) => first_useful_line(texts(extended@), primary_label@) == Some(s@),
            None => first_useful_line(texts(extended@), primary_label@) is None,
        },
{
    first_useful(extended, primary_label)
}

/// Whether a (normalized) device name says nothing about the device.
pub fn is_generic_device_name(name: &str) -> (r: bool)
    ensures
        r == spec_is_generic_device_name(name@),
{
    let lower = to_lowercase(name);
    let l = chars_of(lower.as_str());
    crate::text::is_text(l.as_slice(), "default") || crate::text::is_text(
        l.as_slice(),
        "default audio device",
    ) || crate::text::is_text(l.as_slice(), "audio") || crate::text::is_text(
        l.as_slice(),
        "usb audio",
    ) || starts_with_text(l.as_slice(), "monitor of")
}

fn comma_split(value: &[char]) -> (r: Option<usize>)
    ensures
        match r {
            Some(k) => count_char(value@, ',') == 1 && k == first_index_of(value@, ',') && k
                < value@.len(),
            None => count_char(value@, ',') != 1,
        },
{
    let mut count: usize = 0;
    let mut first: usize = value.len();
    let mut i: usize = 0;
    while i < value.len()
        invariant
            i <= value@.len(),
            count == count_char(value@.take(i as int), ','),
            count <= i,
            first == (if count == 0 {
                value@.len() as int
            } else {
                first_index_of(value@, ',')
            }),
            count == 0 ==> forall|j: int| 0 <= j < i ==> value@[j] != ',',
            count > 0 ==> first < i,
        decreases value@.len() - i,
    {
        proof {
            assert(value@.take(i as int + 1).drop_last() =~= value@.take(i as int));
        }
        if value[i] == ',' {
            if count == 0 {
                first = i;
                proof {
                    lemma_first_index_at(value@, ',', i as int);
                }
            }
            count = count + 1;
        }
        i = i + 1;
    }
    proof {
        assert(value@.take(i as int) =~= value@);
    }
    if count == 1 {
        Some(first)
    } else {
        None
    }
}

proof fn lemma_first_index_at(s: Seq<char>, c: char, i: int)
    requires
        0 <= i < s.len(),
        s[i] == c,
        forall|j: int| 0 <= j < i ==> s[j] != c,
    ensures
        first_index_of(s, c) == i,
    decreases i,
{
    if i > 0 {
        let t = s.drop_first();
        assert forall|j: int| 0 <= j < i - 1 implies t[j] != c by {
            assert(t[j] == s[j + 1]);
        }
        lemma_first_index_at(t, c, i - 1);
    }
}

fn utf8_len_at_most(s: &[char], limit: usize) -> (r: bool)
    ensures
        r == (utf8_len(s@) <= limit),
{
    let mut total: usize = 0;
    let mut i: usize = 0;
    while i < s.len()
        invariant
            i <= s@.len(),
            total == utf8_len(s@.take(i as int)),
            total <= limit,
        decreases s@.len() - i,
    {
        proof {
            assert(s@.take(i as int + 1).drop_last() =~= s@.take(i as int));
        }
        let code = s[i] as u32;
        let width: usize = if code < 0x80 {
            1
        } else if code < 0x800 {
            2
        } else if code < 0x10000 {
            3
        } else {
            4
        };
        if width > limit - total {
            proof {
                lemma_utf8_len_prefix(s@, i as int + 1);
            }
            return false;
        }
        total = total + width;
        i = i + 1;
    }
    proof {
        assert(s@.take(i as int) =~= s@);
    }
    true
}

proof fn lemma_utf8_len_prefix(s: Seq<char>, k: int)
    requires
        0 <= k <= s.len(),
    ensures
        utf8_len(s.take(k)) <= utf8_len(s),
    decreases s.len() - k,
{
    if k < s.len() {
        lemma_utf8_len_prefix(s, k + 1);
        assert(s.take(k + 1).drop_last() =~= s.take(k));
    } else {
        assert(s.take(k) =~= s);
    }
}

/// A readable form of a device address.
pub fn pretty_address(address: &str) -> (r: Option<String>)
    ensures
        match r {
            Some(s) => spec_pretty_address(address@) == Some(s@),
            None => spec_pretty_address(address@) is None,
        },
{
    let raw = chars_of(address);
    let n = normalize_chars(raw.as_slice());
    if n.len() == 0 {
        return None;
    }
    if starts_with_text(n.as_slice(), "hw:") {
        proof {
            reveal_strlit("hw:");
        }
        let value = vstd::slice::slice_subrange(n.as_slice(), 3, n.len());
        proof {
            assert(value@ =~= n@.skip(3));
        }
        match comma_split(value) {
            Some(k) => {
                let card = vstd::slice::slice_subrange(value, 0, k);
                let device = vstd::slice::slice_subrange(value, k + 1, value.len());
                let mut out: Vec<char> = Vec::new();
                append_text(&mut out, "Card ");
                append_chars(&mut out, card);
                append_text(&mut out, ", Device ");
                append_chars(&mut out, device);
                proof {
                    assert(card@ =~= value@.take(k as int));
                    assert(device@ =~= value@.skip(k + 1));
                }
                return Some(string_from_chars(out.as_slice()));
            },
            None => {},
        }
    }
    if utf8_len_at_most(n.as_slice(), 24) {
        Some(string_from_chars(n.as_slice()))
    } else {
        None
    }
}

/// The main label of a device.
pub fn preferred_primary_label(name: &str, manufacturer: Option<&str>, extended: &[&str]) -> (r:
    String)
    ensures
        r@ == spec_preferred_primary_label(
            name@,
            match manufacturer {
                Some(m) => Some(m@),
                None => None,
            },
            texts(extended@),
        ),
{
    let normalized_name = normalize_label(name);
    let best_extended = preferred_extended_line(extended, normalized_name.as_str());
    if is_generic_device_name(normalized_name.as_str()) {
        match best_extended {
            Some(best) => {
                return best;
            },
            None => {},
        }
        match manufacturer {
            Some(m) => match sanitize_metadata_line(m) {
                Some(sm) => {
                    let lower = to_lowercase(sm.as_str());
                    let lc = chars_of(lower.as_str());
                    if contains_text(lc.as_slice(), "audio") {
                        return sm;
                    }
                    let mut out = chars_of(sm.as_str());
                    append_text(&mut out, " Audio");
                    return string_from_chars(out.as_slice());
                },
                None => {},
            },
            None => {},
        }
    }
    normalized_name
}

/// The detail that tells a device apart from others of the same name.
pub fn label_detail(
    primary_label: &str,
    manufacturer: Option<&str>,
    address: Option<&str>,
    interface_type: Option<&str>,
    driver: Option<&str>,
    extended: &[&str],
    duplicate_name: bool,
) -> (r: Option<String>)
    ensures
        match r {
            Some(s) => spec_label_detail(
                primary_label@,
                opt_text(manufacturer),
                opt_text(address),
                opt_text(interface_type),
                opt_text(driver),
                texts(extended@),
                duplicate_name,
            ) == Some(s@),
            None => spec_label_detail(
                primary_label@,
                opt_text(manufacturer),
                opt_text(address),
                opt_text(interface_type),
                opt_text(driver),
                texts(extended@),
                duplicate_name,
            ) is None,
        },
{
    if !duplicate_name {
        return None;
    }
    let m = match manufacturer {
        Some(m) => sanitize_metadata_line(m),
        None => None,
    };
    match m {
        Some(sm) => {
            let lower_primary = lowercase_chars(chars_of(primary_label).as_slice());
            let lower_m = lowercase_chars(chars_of(sm.as_str()).as_slice());
            if !contains_chars(lower_primary.as_slice(), lower_m.as_slice()) {
                return Some(sm);
            }
        },
        None => {},
    }
    match secondary_extended_line(extended, primary_label) {
        Some(d) => {
            return Some(d);
        },
        None => {},
    }
    match address {
        Some(a) => match pretty_address(a) {
            Some(p) => {
                return Some(p);
            },
            None => {},
        },
        None => {},
    }
    match interface_type {
        Some(t) => {
            return Some(t.to_owned());
        },
        None => {},
    }
    match driver {
        Some(d) => sanitize_metadata_line(d),
        None => None,
    }
}

/// The text of an optional string slice.
pub open spec fn opt_text(s: Option<&str>) -> Option<Seq<char>> {
    match s {
        Some(t) => Some(t@),
        None => None,
    }
}

/// A device label: the main label, and the detail in parentheses when
/// there is one.
pub fn format_audio_device_label(
    name: &str,
    manufacturer: Option<&str>,
    address: Option<&str>,
    interface_type: Option<&str>,
    driver: Option<&str>,
    extended: &[&str],
    duplicate_name: bool,
) -> (r: String)
    ensures
        r@ == spec_format_audio_device_label(
            name@,
            opt_text(manufacturer),
            opt_text(address),
            opt_text(interface_type),
            opt_text(driver),
            texts(extended@),
            duplicate_name,
        ),
{
    let primary = preferred_primary_label(name, manufacturer, extended);
    proof {
        assert(opt_text(manufacturer) == match manufacturer {
            Some(m) => Some(m@),
            None => None::<Seq<char>>,
        });
    }
    let detail = label_detail(
        primary.as_str(),
        manufacturer,
        address,
        interface_type,
        driver,
        extended,
        duplicate_name,
    );
    match detail {
        Some(d) => {
            let mut out = chars_of(primary.as_str());
            append_text(&mut out, " (");
            append_chars(&mut out, chars_of(d.as_str()).as_slice());
            append_text(&mut out, ")");
            string_from_chars(out.as_slice())
        },
        None => primary,
    }
}

// ---------------------------------------------------------------------------
// Devices
// ---------------------------------------------------------------------------
/// What an audio device reports about itself. `interface_type` is the
/// name of its interface type, absent when the type is unknown.
#[derive(Clone, Debug)]
pub struct DeviceDescription {
    pub name: String,
    pub manufacturer: Option<String>,
    pub address: Option<String>,
    pub interface_type: Option<String>,
    pub driver: Option<String>,
    pub extended: Vec<String>,
    pub supports_input: bool,
}

/// The text of an optional string.
pub open spec fn opt_string(s: Option<String>) -> Option<Seq<char>> {
    match s {
        Some(t) => Some(t@),
        None => None,
    }
}

/// The texts of a list of strings.
pub open spec fn string_texts(lines: Seq<String>) -> Seq<Seq<char>> {
    lines.map_values(|l: String| l@)
}

/// The label of one device, given whether another device has its name.
pub open spec fn spec_device_label(d: DeviceDescription, duplicate_name: bool) -> Seq<char> {
    spec_format_audio_device_label(
        d.name@,
        opt_string(d.manufacturer),
        opt_string(d.address),
        opt_string(d.interface_type),
        opt_string(d.driver),
        string_texts(d.extended@),
        duplicate_name,
    )
}

/// The number of entries of `s` equal to `x`.
pub open spec fn count_equal(s: Seq<Seq<char>>, x: Seq<char>) -> nat
    decreases s.len(),
{
    if s.len() == 0 {
        0
    } else {
        count_equal(s.drop_last(), x) + if s.last() == x {
            1nat
        } else {
            0nat
        }
    }
}

/// The names of the devices.
pub open spec fn device_names(devices: Seq<DeviceDescription>) -> Seq<Seq<char>> {
    devices.map_values(|d: DeviceDescription| d.name@)
}

/// The label of each device before equal labels are numbered: a device
/// whose name another device shares gets a detail.
pub open spec fn preliminary_labels(devices: Seq<DeviceDescription>) -> Seq<Seq<char>> {
    Seq::new(
        devices.len(),
        |i: int|
            spec_device_label(devices[i], count_equal(device_names(devices), devices[i].name@) > 1),
    )
}

/// The final label of device `i`: its preliminary label, numbered ` (k)`
/// when other devices have the same one, `k` counting from 1 in device
/// order.
pub open spec fn spec_final_label(devices: Seq<DeviceDescription>, i: int) -> Seq<char> {
    numbered_label(preliminary_labels(devices), i)
}

/// Label `i` of a list, numbered ` (k)` when other entries are equal to
/// it, `k` counting its equals from 1 in list order.
pub open spec fn numbered_label(labels: Seq<Seq<char>>, i: int) -> Seq<char> {
    if count_equal(labels, labels[i]) <= 1 {
        labels[i]
    } else {
        labels[i] + " ("@ + decimal_chars(count_equal(labels.take(i + 1), labels[i])) + ")"@
    }
}

fn string_refs(lines: &Vec<String>) -> (r: Vec<&str>)
    ensures
        texts(r@) == string_texts(lines@),
{
    let mut out: Vec<&str> = Vec::new();
    let mut i: usize = 0;
    while i < lines.len()
        invariant
            i <= lines@.len(),
            out@.len() == i,
            forall|j: int| 0 <= j < i ==> #[trigger] out@[j]@ == lines@[j]@,
        decreases lines@.len() - i,
    {
        out.push(lines[i].as_str());
        i = i + 1;
    }
    assert(texts(out@) =~= string_texts(lines@));
    out
}

fn opt_str(s: &Option<String>) -> (r: Option<&str>)
    ensures
        opt_text(r) == opt_string(*s),
{
    match s {
        Some(t) => Some(t.as_str()),
        None => None,
    }
}

fn device_label(d: &DeviceDescription, duplicate_name: bool) -> (r: String)
    ensures
        r@ == spec_device_label(*d, duplicate_name),
{
    let extended = string_refs(&d.extended);
    format_audio_device_label(
        d.name.as_str(),
        opt_str(&d.manufacturer),
        opt_str(&d.address),
        opt_str(&d.interface_type),
        opt_str(&d.driver),
        extended.as_slice(),
        duplicate_name,
    )
}

/// The label of one device on its own.
pub fn audio_device_label(description: &DeviceDescription) -> (r: String)
    ensures
        r@ == spec_device_label(*description, false),
{
    device_label(description, false)
}

fn count_equal_in(s: &Vec<Vec<char>>, x: &Vec<char>, upto: usize) -> (r: usize)
    requires
        upto <= s@.len(),
    ensures
        r == count_equal(s@.map_values(|v: Vec<char>| v@).take(upto as int), x@),
        r <= upto,
{
    let ghost all = s@.map_values(|v: Vec<char>| v@);
    let mut count: usize = 0;
    let mut i: usize = 0;
    while i < upto
        invariant
            upto <= s@.len(),
            all == s@.map_values(|v: Vec<char>| v@),
            i <= upto,
            count == count_equal(all.take(i as int), x@),
            count <= i,
        decreases upto - i,
    {
        proof {
            assert(all.take(i as int + 1).drop_last() =~= all.take(i as int));
            assert(all.take(i as int + 1).last() == s@[i as int]@);
        }
        if crate::text::chars_equal(s[i].as_slice(), x.as_slice()) {
            count = count + 1;
        }
        i = i + 1;
    }
    count
}

/// The labels of all devices, in device order: each device's label, with
/// a detail where its name is shared and numbered where the label still
/// is.
pub fn audio_device_labels(devices: &Vec<DeviceDescription>) -> (r: Vec<String>)
    ensures
        r@.len() == devices@.len(),
        forall|i: int| 0 <= i < devices@.len() ==> #[trigger] r@[i]@ == spec_final_label(devices@, i),
{
    let n = devices.len();
    let mut names: Vec<Vec<char>> = Vec::new();
    let mut i: usize = 0;
    while i < n
        invariant
            n == devices@.len(),
            i <= n,
            names@.len() == i,
            forall|j: int| 0 <= j < i ==> #[trigger] names@[j]@ == devices@[j].name@,
        decreases n - i,
    {
        names.push(chars_of(devices[i].name.as_str()));
        i = i + 1;
    }
    proof {
        assert(names@.map_values(|v: Vec<char>| v@) =~= device_names(devices@));
        assert(names@.map_values(|v: Vec<char>| v@).take(n as int) =~= device_names(devices@));
    }
    let ghost labels = preliminary_labels(devices@);
    let mut prelim: Vec<Vec<char>> = Vec::new();
    i = 0;
    while i < n
        invariant
            n == devices@.len(),
            names@.len() == n,
            names@.map_values(|v: Vec<char>| v@).take(n as int) == device_names(devices@),
            forall|j: int| 0 <= j < n ==> #[trigger] names@[j]@ == devices@[j].name@,
            labels == preliminary_labels(devices@),
            i <= n,
            prelim@.len() == i,
            forall|j: int| 0 <= j < i ==> #[trigger] prelim@[j]@ == labels[j],
        decreases n - i,
    {
        let shared = count_equal_in(&names, &names[i], n) > 1;
        let label = device_label(&devices[i], shared);
        prelim.push(chars_of(label.as_str()));
        i = i + 1;
    }
    proof {
        assert(prelim@.map_values(|v: Vec<char>| v@) =~= labels);
        assert(prelim@.map_values(|v: Vec<char>| v@).take(n as int) =~= labels);
    }
    let mut out: Vec<String> = Vec::new();
    i = 0;
    while i < n
        invariant
            n == devices@.len(),
            labels == preliminary_labels(devices@),
            labels.len() == n,
            prelim@.len() == n,
            prelim@.map_values(|v: Vec<char>| v@) == labels,
            forall|j: int| 0 <= j < n ==> #[trigger] prelim@[j]@ == labels[j],
            i <= n,
            out@.len() == i,
            forall|j: int| 0 <= j < i ==> #[trigger] out@[j]@ == spec_final_label(devices@, j),
        decreases n - i,
    {
        proof {
            assert(prelim@.map_values(|v: Vec<char>| v@).take(n as int) =~= labels);
        }
        let total = count_equal_in(&prelim, &prelim[i], n);
        if total <= 1 {
            out.push(string_from_chars(prelim[i].as_slice()));
        } else {
            let index = count_equal_in(&prelim, &prelim[i], i + 1);
            let mut text = prelim[i].clone();
            proof {
                assert(text@ == prelim@[i as int]@);
            }
            append_text(&mut text, " (");
            push_decimal(&mut text, index);
            append_text(&mut text, ")");
            out.push(string_from_chars(text.as_slice()));
        }
        i = i + 1;
    }
    out
}

/// Whether a driver name marks a virtual or plug-in source: the ALSA
/// defaults and plug-ins, unless it is PipeWire.
pub open spec fn spec_virtual_driver(driver: Seq<char>) -> bool {
    let d = lowercased(driver);
    let is_pipewire = d == "pipewire"@ || starts_with_seq(d, "pipewire:"@);
    let is_virtual = d == "default"@ || d == "pulse"@ || starts_with_seq(d, "sysdefault:"@)
        || starts_with_seq(d, "dsnoop:"@) || starts_with_seq(d, "iec958:"@) || starts_with_seq(
        d,
        "dmix:"@,
    ) || starts_with_seq(d, "usbstream:"@);
    is_virtual && !is_pipewire
}

/// Whether a device is a real capture input: it takes input, neither its
/// name nor an extended line says it is a monitor of an output, and, on
/// Linux (`on_linux`), where the driver names ALSA pseudo-devices, its
/// driver is not a virtual one.
pub open spec fn spec_is_capture_input_device(d: DeviceDescription, on_linux: bool) -> bool {
    &&& d.supports_input
    &&& !contains_seq(lowercased(d.name@), "monitor of"@)
    &&& forall|i: int|
        0 <= i < d.extended@.len() ==> !contains_seq(
            lowercased(#[trigger] d.extended@[i]@),
            "monitor of"@,
        )
    &&& on_linux ==> match d.driver {
        Some(driver) => !spec_virtual_driver(driver@),
        None => true,
    }
}

fn lower_contains(text: &str, lit: &str) -> (r: bool)
    ensures
        r == contains_seq(lowercased(text@), lit@),
{
    let lower = to_lowercase(text);
    contains_text(chars_of(lower.as_str()).as_slice(), lit)
}

/// Whether a device is a real capture input; `on_linux` says whether the
/// program runs on Linux, the one platform whose driver field is checked.
pub fn is_capture_input_device(description: &DeviceDescription, on_linux: bool) -> (r: bool)
    ensures
        r == spec_is_capture_input_device(*description, on_linux),
{
    if !description.supports_input {
        return false;
    }
    if lower_contains(description.name.as_str(), "monitor of") {
        return false;
    }
    let mut i: usize = 0;
    while i < description.extended.len()
        invariant
            i <= description.extended@.len(),
            forall|j: int|
                0 <= j < i ==> !contains_seq(
                    lowercased(#[trigger] description.extended@[j]@),
                    "monitor of"@,
                ),
        decreases description.extended@.len() - i,
    {
        if lower_contains(description.extended[i].as_str(), "monitor of") {
            return false;
        }
        i = i + 1;
    }
    if !on_linux {
        return true;
    }
    match &description.driver {
        Some(driver) => {
            let lower = to_lowercase(driver.as_str());
            let d = chars_of(lower.as_str());
            let is_pipewire = crate::text::is_text(d.as_slice(), "pipewire") || starts_with_text(
                d.as_slice(),
                "pipewire:",
            );
            let is_virtual = crate::text::is_text(d.as_slice(), "default") || crate::text::is_text(
                d.as_slice(),
                "pulse",
            ) || starts_with_text(d.as_slice(), "sysdefault:") || starts_with_text(
                d.as_slice(),
                "dsnoop:",
            ) || starts_with_text(d.as_slice(), "iec958:") || starts_with_text(
                d.as_slice(),
                "dmix:",
            ) || starts_with_text(d.as_slice(), "usbstream:");
            !(is_virtual && !is_pipewire)
        },
        None => true,
    }
}

proof fn lemma_decimal_chars_value(n: nat)
    ensures
        crate::text::decimal_value(decimal_chars(n)) == n,
    decreases n,
{
    if n < 10 {
        let s = decimal_chars(n);
        assert(s.drop_last() =~= Seq::<char>::empty());
        assert(crate::text::decimal_value(s.drop_last()) == 0);
        assert((((('0' as u32) + n) as char) as u32) == ('0' as u32) + n);
        assert(s.last() == ((('0' as u32) + n) as char));
    } else {
        lemma_decimal_chars_value(n / 10);
        let s = decimal_chars(n);
        assert(s.drop_last() =~= decimal_chars(n / 10));
        vstd::arithmetic::div_mod::lemma_fundamental_div_mod(n as int, 10);
        assert(s.last() == ((('0' as u32) + (n % 10)) as char));
        assert((((('0' as u32) + (n % 10)) as char) as u32) == ('0' as u32) + (n % 10));
    }
}

proof fn lemma_count_equal_prefix(s: Seq<Seq<char>>, x: Seq<char>, a: int, b: int)
    requires
        0 <= a <= b <= s.len(),
    ensures
        count_equal(s.take(a), x) <= count_equal(s.take(b), x),
    decreases b - a,
{
    if a < b {
        lemma_count_equal_prefix(s, x, a, b - 1);
        assert(s.take(b).drop_last() =~= s.take(b - 1));
    }
}

proof fn lemma_count_equal_step(s: Seq<Seq<char>>, i: int)
    requires
        0 <= i < s.len(),
    ensures
        count_equal(s.take(i + 1), s[i]) == count_equal(s.take(i), s[i]) + 1,
{
    assert(s.take(i + 1).drop_last() =~= s.take(i));
}

/// Equal entries of a label list get different numbered labels: the
/// numbering in list order tells them apart.
pub proof fn law_equal_labels_are_numbered_apart(labels: Seq<Seq<char>>, i: int, j: int)
    requires
        0 <= i < j < labels.len(),
        labels[i] == labels[j],
    ensures
        numbered_label(labels, i) != numbered_label(labels, j),
{
    let l = labels[i];
    lemma_count_equal_step(labels, i);
    lemma_count_equal_step(labels, j);
    lemma_count_equal_prefix(labels, l, i + 1, j);
    lemma_count_equal_prefix(labels, l, j + 1, labels.len() as int);
    assert(labels.take(labels.len() as int) =~= labels);
    let ki = count_equal(labels.take(i + 1), l);
    let kj = count_equal(labels.take(j + 1), l);
    assert(ki < kj);
    assert(count_equal(labels, l) >= 2);
    let fi = numbered_label(labels, i);
    let fj = numbered_label(labels, j);
    let p = l + " ("@;
    assert(fi == p + decimal_chars(ki) + ")"@);
    assert(fj == p + decimal_chars(kj) + ")"@);
    if fi == fj {
        reveal_strlit(")");
        let a = decimal_chars(ki);
        let b = decimal_chars(kj);
        assert(a.len() == b.len());
        assert(fi.subrange(p.len() as int, (p.len() + a.len()) as int) =~= a);
        assert(fj.subrange(p.len() as int, (p.len() + b.len()) as int) =~= b);
        lemma_decimal_chars_value(ki);
        lemma_decimal_chars_value(kj);
    }
}

/// A monitor of an output is never a capture input, on any platform:
/// whatever its driver, a device whose name or any of whose extended lines
/// says "monitor of" (in any letter case) is refused; so is a device that
/// takes no input.
pub proof fn law_monitors_are_not_captured(d: DeviceDescription, on_linux: bool, i: int)
    ensures
        contains_seq(lowercased(d.name@), "monitor of"@) ==> !spec_is_capture_input_device(d, on_linux),
        0 <= i < d.extended@.len() && contains_seq(lowercased(d.extended@[i]@), "monitor of"@)
            ==> !spec_is_capture_input_device(d, on_linux),
        !d.supports_input ==> !spec_is_capture_input_device(d, on_linux),
{
}

} // verus!
