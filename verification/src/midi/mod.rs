//! MIDI controller logic: decoding controller messages, learning bindings
//! and evaluating outputs.

pub mod akai_apc40_mk2;
pub mod apc40_mk2;
pub mod learn;
pub mod mapping;
pub mod monitor;
pub mod output_eval;
pub mod runtime;

use vstd::prelude::*;

use crate::text::{
    all_ascii_digits, all_decimal_digits, chars_of, contains_seq, contains_text, string_from_chars,
    trim, trim_seq,
};

verus! {

/// The start of the last ` [` in `s` that ends before `end`.
pub open spec fn rfind_space_bracket(s: Seq<char>, end: int) -> Option<int>
    decreases end,
{
    if end < 2 || end > s.len() {
        None
    } else if s[end - 2] == ' ' && s[end - 1] == '[' {
        Some(end - 2)
    } else {
        rfind_space_bracket(s, end - 1)
    }
}

/// The controller key of a port name: the trimmed name, without a trailing
/// ` [digits]` numbering when a non-empty base name remains.
pub open spec fn spec_normalize_controller_key(port_name: Seq<char>) -> Seq<char> {
    let t = trim_seq(port_name);
    if t.len() > 0 && t.last() == ']' {
        let prefix = t.drop_last();
        match rfind_space_bracket(prefix, prefix.len() as int) {
            Some(i) => {
                let base = prefix.take(i);
                let suffix = prefix.skip(i + 2);
                if base.len() > 0 && suffix.len() > 0 && all_decimal_digits(suffix) {
                    base
                } else {
                    t
                }
            },
            None => t,
        }
    } else {
        t
    }
}

/// Reduce a MIDI port name to the key that identifies its controller, so
/// that `Launch Control [2]` and `Launch Control` name the same device.
pub fn normalize_controller_key(port_name: &str) -> (r: String)
    ensures
        r@ == spec_normalize_controller_key(port_name@),
{
    let raw = chars_of(port_name);
    let t = trim(raw.as_slice());
    let n = t.len();
    if n > 0 && t[n - 1] == ']' {
        let plen: usize = n - 1;
        let ghost prefix = t@.drop_last();
        let mut end: usize = plen;
        let mut found: Option<usize> = None;
        while end >= 2
            invariant_except_break
                found is None,
            invariant
                plen == n - 1,
                n == t@.len(),
                prefix == t@.drop_last(),
                end <= plen,
                found is None ==> rfind_space_bracket(prefix, plen as int) == rfind_space_bracket(
                    prefix,
                    end as int,
                ),
            ensures
                found matches Some(i) ==> i + 2 <= plen,
                rfind_space_bracket(prefix, plen as int) == match found {
                    Some(i) => Some(i as int),
                    None => None::<int>,
                },
            decreases end,
        {
            proof {
                assert(prefix[end - 2] == t@[end - 2]);
                assert(prefix[end - 1] == t@[end - 1]);
            }
            if t[end - 2] == ' ' && t[end - 1] == '[' {
                found = Some(end - 2);
                break;
            }
            end = end - 1;
        }
        if let Some(i) = found {
            let base = vstd::slice::slice_subrange(t.as_slice(), 0, i);
            let suffix = vstd::slice::slice_subrange(t.as_slice(), i + 2, plen);
            proof {
                assert(base@ =~= prefix.take(i as int));
                assert(suffix@ =~= prefix.skip(i + 2));
            }
            if base.len() > 0 && suffix.len() > 0 && all_ascii_digits(suffix) {
                return string_from_chars(base);
            }
        }
    }
    string_from_chars(t.as_slice())
}

/// Whether a port belongs to this program's own MIDI connections.
pub open spec fn spec_is_own_port(name: Seq<char>) -> bool {
    contains_seq(name, "gled_read_input"@) || contains_seq(name, "gled_write_output"@)
}

/// Whether a port is the system's MIDI loop-back port.
pub open spec fn spec_is_midi_through(name: Seq<char>) -> bool {
    contains_seq(name, "Midi Through"@)
}

/// Whether the port `name` is one of this program's own connections.
pub fn is_own_port(name: &str) -> (r: bool)
    ensures
        r == spec_is_own_port(name@),
{
    let c = chars_of(name);
    contains_text(c.as_slice(), "gled_read_input") || contains_text(c.as_slice(), "gled_write_output")
}

/// Whether the port `name` is the MIDI loop-back port.
pub fn is_midi_through(name: &str) -> (r: bool)
    ensures
        r == spec_is_midi_through(name@),
{
    let c = chars_of(name);
    contains_text(c.as_slice(), "Midi Through")
}

/// Whether a port name is blank, so that the port is skipped.
pub fn is_blank_port_name(name: &str) -> (r: bool)
    ensures
        r == (trim_seq(name@).len() == 0),
{
    let c = chars_of(name);
    trim(c.as_slice()).len() == 0
}

/// Whether a discovered port gets a new connection: it is not connected
/// yet, not one of this program's own ports and not the loop-back port.
pub fn should_connect_port(name: &str, already_connected: bool) -> (r: bool)
    ensures
        r == (!already_connected && !spec_is_own_port(name@) && !spec_is_midi_through(name@)),
{
    !already_connected && !is_own_port(name) && !is_midi_through(name)
}

/// The new value of the "MIDI output active" signal after a discovery
/// round, when it changes: off once no output device is left, on once
/// there is one.
pub fn output_activity_change(no_devices: bool, was_active: bool) -> (r: Option<bool>)
    ensures
        r == (if no_devices && was_active {
            Some(false)
        } else if !no_devices && !was_active {
            Some(true)
        } else {
            None
        }),
{
    if no_devices && was_active {
        Some(false)
    } else if !no_devices && !was_active {
        Some(true)
    } else {
        None
    }
}

} // verus!
