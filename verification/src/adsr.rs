//! The phases of the attack-decay-sustain-release envelopes that turn a
//! gate signal into a level, and how a gate with hysteresis opens and
//! closes. The levels themselves are floating point and computed by the
//! caller; the phase logic here reads only comparisons of them.
use vstd::prelude::*;

verus! {

/// The phase of an envelope.
#[derive(Clone, Copy, Debug, PartialEq, Eq, Structural)]
pub enum AdsrPhase {
    Idle,
    Attack,
    Decay,
    Sustain,
    Release,
}

/// What a phase step reads of the level before the step: whether it has
/// reached the top (1), fallen to the sustain level, or fallen to zero.
#[derive(Clone, Copy, Debug, PartialEq, Eq, Structural)]
pub struct LevelMarks {
    pub at_peak: bool,
    pub at_or_below_sustain: bool,
    pub at_or_below_zero: bool,
}

/// The phase after one step: an open gate starts (or restarts) the attack
/// from idle or release; a closed gate releases from attack, decay and
/// sustain; attack turns to decay at the peak, decay to sustain at the
/// sustain level, and release to idle at zero.
pub open spec fn spec_next_phase(phase: AdsrPhase, gate_open: bool, marks: LevelMarks) -> AdsrPhase {
    match phase {
        AdsrPhase::Idle => if gate_open {
            AdsrPhase::Attack
        } else {
            AdsrPhase::Idle
        },
        AdsrPhase::Attack => if !gate_open {
            AdsrPhase::Release
        } else if marks.at_peak {
            AdsrPhase::Decay
        } else {
            AdsrPhase::Attack
        },
        AdsrPhase::Decay => if !gate_open {
            AdsrPhase::Release
        } else if marks.at_or_below_sustain {
            AdsrPhase::Sustain
        } else {
            AdsrPhase::Decay
        },
        AdsrPhase::Sustain => if !gate_open {
            AdsrPhase::Release
        } else {
            AdsrPhase::Sustain
        },
        AdsrPhase::Release => if gate_open {
            AdsrPhase::Attack
        } else if marks.at_or_below_zero {
            AdsrPhase::Idle
        } else {
            AdsrPhase::Release
        },
    }
}

/// The phase after one step.
pub fn next_phase(phase: AdsrPhase, gate_open: bool, marks: LevelMarks) -> (r: AdsrPhase)
    ensures
        r == spec_next_phase(phase, gate_open, marks),
{
    match phase {
        AdsrPhase::Idle => {
            if gate_open {
                AdsrPhase::Attack
            } else {
                AdsrPhase::Idle
            }
        },
        AdsrPhase::Attack => {
            if !gate_open {
                AdsrPhase::Release
            } else if marks.at_peak {
                AdsrPhase::Decay
            } else {
                AdsrPhase::Attack
            }
        },
        AdsrPhase::Decay => {
            if !gate_open {
                AdsrPhase::Release
            } else if marks.at_or_below_sustain {
                AdsrPhase::Sustain
            } else {
                AdsrPhase::Decay
            }
        },
        AdsrPhase::Sustain => {
            if !gate_open {
                AdsrPhase::Release
            } else {
                AdsrPhase::Sustain
            }
        },
        AdsrPhase::Release => {
            if gate_open {
                AdsrPhase::Attack
            } else if marks.at_or_below_zero {
                AdsrPhase::Idle
            } else {
                AdsrPhase::Release
            }
        },
    }
}

/// A gate with hysteresis: an open gate stays open while the input is
/// above the closing threshold; a closed gate opens once the input is above
/// the opening threshold.
pub fn next_gate(gate_active: bool, above_activation: bool, above_deactivation: bool) -> (r: bool)
    ensures
        r == (if gate_active {
            above_deactivation
        } else {
            above_activation
        }),
{
    if gate_active {
        above_deactivation
    } else {
        above_activation
    }
}

/// An open gate leads out of idle and release into the attack, and keeps
/// every phase but idle and release away from release.
pub proof fn law_open_gate(phase: AdsrPhase, marks: LevelMarks)
    ensures
        (phase == AdsrPhase::Idle || phase == AdsrPhase::Release) ==> spec_next_phase(
            phase,
            true,
            marks,
        ) == AdsrPhase::Attack,
        spec_next_phase(phase, true, marks) != AdsrPhase::Release,
        spec_next_phase(phase, true, marks) != AdsrPhase::Idle,
{
}

/// A closed gate never starts an attack and releases from attack, decay
/// and sustain.
pub proof fn law_closed_gate(phase: AdsrPhase, marks: LevelMarks)
    ensures
        spec_next_phase(phase, false, marks) != AdsrPhase::Attack,
        spec_next_phase(phase, false, marks) != AdsrPhase::Decay,
        spec_next_phase(phase, false, marks) != AdsrPhase::Sustain,
        (phase == AdsrPhase::Attack || phase == AdsrPhase::Decay || phase == AdsrPhase::Sustain)
            ==> spec_next_phase(phase, false, marks) == AdsrPhase::Release,
{
}

} // verus!
