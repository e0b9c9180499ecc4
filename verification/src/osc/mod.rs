//! OSC remote control: message model, argument decoding and the address
//! grammar of the control API.

pub mod args;
pub mod feedback;
pub mod state_feedback;
pub mod parse;
pub mod wire;

use vstd::prelude::*;

use crate::scene::SceneInstanceColor;
use crate::text::lowercased;

verus! {

/// One argument of an OSC message. Floating-point arguments are kept by
/// their bit pattern; kinds the control API never reads are `Other`.
#[derive(Clone, Debug, PartialEq)]
pub enum OscArg {
    Int(i32),
    Long(i64),
    /// An `f32`, by its bit pattern.
    Float(u32),
    /// An `f64`, by its bit pattern.
    Double(u64),
    Bool(bool),
    Str(String),
    Other,
}

/// An OSC message: an address and its arguments.
#[derive(Clone, Debug, PartialEq)]
pub struct OscMessage {
    pub addr: String,
    pub args: Vec<OscArg>,
}

/// Settings of the OSC receiver.
#[derive(Clone, Copy, Debug, PartialEq, Eq, Structural)]
pub struct OscConfig {
    pub active: bool,
    pub port: u16,
}

impl OscConfig {
    /// Inactive, listening on port 8000 once activated.
    pub fn default() -> (r: Self)
        ensures
            r == (OscConfig { active: false, port: 8000 }),
    {
        OscConfig { active: false, port: 8000 }
    }
}

/// A client's request about state feedback.
#[derive(Clone, Copy, Debug, PartialEq, Eq, Structural)]
pub enum ClientInterestCommand {
    Subscribe,
    Unsubscribe,
    Heartbeat,
}

/// The feedback request that an address names, if any.
pub open spec fn spec_client_interest_command(addr: Seq<char>) -> Option<ClientInterestCommand> {
    if addr == "/osc/state/subscribe"@ {
        Some(ClientInterestCommand::Subscribe)
    } else if addr == "/osc/state/unsubscribe"@ {
        Some(ClientInterestCommand::Unsubscribe)
    } else if addr == "/osc/state/heartbeat"@ {
        Some(ClientInterestCommand::Heartbeat)
    } else {
        None
    }
}

/// Recognise the feedback subscription commands by their exact address.
pub fn parse_client_interest_command(msg: &OscMessage) -> (r: Option<ClientInterestCommand>)
    ensures
        r == spec_client_interest_command(msg.addr@),
{
    let addr = crate::text::chars_of(msg.addr.as_str());
    if crate::text::is_text(addr.as_slice(), "/osc/state/subscribe") {
        Some(ClientInterestCommand::Subscribe)
    } else if crate::text::is_text(addr.as_slice(), "/osc/state/unsubscribe") {
        Some(ClientInterestCommand::Unsubscribe)
    } else if crate::text::is_text(addr.as_slice(), "/osc/state/heartbeat") {
        Some(ClientInterestCommand::Heartbeat)
    } else {
        None
    }
}

/// The name a scene colour is reported by.
pub open spec fn spec_scene_color_name(color: SceneInstanceColor) -> Seq<char> {
    match color {
        SceneInstanceColor::Red => "red"@,
        SceneInstanceColor::Green => "green"@,
        SceneInstanceColor::Blue => "blue"@,
        SceneInstanceColor::White => "white"@,
        SceneInstanceColor::Orange => "orange"@,
        SceneInstanceColor::Yellow => "yellow"@,
        SceneInstanceColor::Purple => "purple"@,
        SceneInstanceColor::Pink => "pink"@,
        SceneInstanceColor::Black => "black"@,
    }
}

/// The name a scene colour is reported by.
pub fn scene_color_name(color: SceneInstanceColor) -> (r: &'static str)
    ensures
        r@ == spec_scene_color_name(color),
{
    match color {
        SceneInstanceColor::Red => "red",
        SceneInstanceColor::Green => "green",
        SceneInstanceColor::Blue => "blue",
        SceneInstanceColor::White => "white",
        SceneInstanceColor::Orange => "orange",
        SceneInstanceColor::Yellow => "yellow",
        SceneInstanceColor::Purple => "purple",
        SceneInstanceColor::Pink => "pink",
        SceneInstanceColor::Black => "black",
    }
}

/// The colour a lower-case name stands for.
pub open spec fn color_named(l: Seq<char>) -> Option<SceneInstanceColor> {
    if l == "red"@ {
        Some(SceneInstanceColor::Red)
    } else if l == "green"@ {
        Some(SceneInstanceColor::Green)
    } else if l == "blue"@ {
        Some(SceneInstanceColor::Blue)
    } else if l == "white"@ {
        Some(SceneInstanceColor::White)
    } else if l == "orange"@ {
        Some(SceneInstanceColor::Orange)
    } else if l == "yellow"@ {
        Some(SceneInstanceColor::Yellow)
    } else if l == "purple"@ {
        Some(SceneInstanceColor::Purple)
    } else if l == "pink"@ {
        Some(SceneInstanceColor::Pink)
    } else if l == "black"@ {
        Some(SceneInstanceColor::Black)
    } else {
        None
    }
}

proof fn lemma_name_names_color(color: SceneInstanceColor)
    ensures
        color_named(spec_scene_color_name(color)) == Some(color),
        forall|i: int|
            0 <= i < spec_scene_color_name(color).len() ==> 'a' <= #[trigger] spec_scene_color_name(
                color,
            )[i] <= 'z',
{
    reveal_strlit("red");
    reveal_strlit("green");
    reveal_strlit("blue");
    reveal_strlit("white");
    reveal_strlit("orange");
    reveal_strlit("yellow");
    reveal_strlit("purple");
    reveal_strlit("pink");
    reveal_strlit("black");
    let l = spec_scene_color_name(color);
    match color {
        SceneInstanceColor::Red => {},
        SceneInstanceColor::Green => {
            assert(l.len() == 5);
        },
        SceneInstanceColor::Blue => {
            assert(l.len() == 4 && l[0] == 'b');
        },
        SceneInstanceColor::White => {
            assert(l.len() == 5 && l[0] == 'w');
        },
        SceneInstanceColor::Orange => {
            assert(l.len() == 6 && l[0] == 'o');
        },
        SceneInstanceColor::Yellow => {
            assert(l.len() == 6 && l[0] == 'y');
        },
        SceneInstanceColor::Purple => {
            assert(l.len() == 6 && l[0] == 'p');
        },
        SceneInstanceColor::Pink => {
            assert(l.len() == 4 && l[0] == 'p');
        },
        SceneInstanceColor::Black => {
            assert(l.len() == 5 && l[0] == 'b');
        },
    }
}

proof fn lemma_lower_word(l: Seq<char>)
    requires
        forall|i: int| 0 <= i < l.len() ==> 'a' <= #[trigger] l[i] <= 'z',
    ensures
        lowercased(l) == l,
{
    assert(crate::text::all_ascii(l));
    assert(l.map_values(|c: char| crate::text::ascii_lower(c)) =~= l);
}

/// A colour's reported name, sent back as a string argument, is read as
/// that colour.
pub proof fn law_color_name_round_trip(color: SceneInstanceColor, name: String)
    requires
        name@ == spec_scene_color_name(color),
    ensures
        args::spec_scene_color(seq![OscArg::Str(name)], 0) == Ok::<SceneInstanceColor, ()>(color),
{
    lemma_name_names_color(color);
    lemma_lower_word(name@);
    let args = seq![OscArg::Str(name)];
    assert(args::arg_at(args, 0) == Some(OscArg::Str(name)));
    assert(args::spec_string(args, 0) == Ok::<String, ()>(name));
}

/// Different colours are reported under different names.
pub proof fn law_color_names_distinct(a: SceneInstanceColor, b: SceneInstanceColor)
    requires
        a != b,
    ensures
        spec_scene_color_name(a) != spec_scene_color_name(b),
{
    lemma_name_names_color(a);
    lemma_name_names_color(b);
}

} // verus!
