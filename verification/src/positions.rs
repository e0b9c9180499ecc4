//! Where each lamp of the installation sits in the rendered picture, and
//! the byte layout in which these positions go to the graphics card.
use vstd::prelude::*;

verus! {

/// DMX universes of the installation.
pub const UNIVERSES: usize = 32;

/// Lamps per universe.
pub const LAMPS_PER_UNIVERSE: usize = 170;

/// Lamps in all.
pub const LAMPS: usize = 5440;

/// Bytes of the position buffer: four per lamp.
pub const POSITIONS_BUFFER_SIZE: usize = 21760;

/// A lamp slot: empty, or the pixel of the rendered picture it shows.
#[derive(Clone, Copy, Debug, PartialEq, Eq, Structural)]
pub enum Lamp {
    Empty,
    Position { x: u16, y: u16 },
}

/// The lamps of one universe, in channel order.
#[derive(Clone, Copy, Debug)]
pub struct Universe {
    pub lamps: [Lamp; LAMPS_PER_UNIVERSE],
}

/// The lamps of all universes.
#[derive(Clone, Copy, Debug)]
pub struct Positions {
    pub universes: [Universe; UNIVERSES],
}

/// Lamp `n` counting through the universes in order.
pub open spec fn lamp_at(p: Positions, n: int) -> Lamp {
    p.universes@[n / LAMPS_PER_UNIVERSE as int].lamps@[n % LAMPS_PER_UNIVERSE as int]
}

/// Byte `k` (0 to 3) of a lamp's entry: x then y, each in little-endian
/// order; zero for an empty slot.
pub open spec fn lamp_byte(lamp: Lamp, k: int) -> u8 {
    match lamp {
        Lamp::Empty => 0,
        Lamp::Position { x, y } => if k == 0 {
            (x % 256) as u8
        } else if k == 1 {
            (x / 256) as u8
        } else if k == 2 {
            (y % 256) as u8
        } else {
            (y / 256) as u8
        },
    }
}

impl Universe {
    /// A universe of empty slots.
    pub fn new() -> (r: Self)
        ensures
            forall|j: int| 0 <= j < LAMPS_PER_UNIVERSE ==> #[trigger] r.lamps@[j] == Lamp::Empty,
    {
        Universe { lamps: [Lamp::Empty; 170] }
    }
}

proof fn lemma_lamp_index(u: int, j: int)
    requires
        0 <= u,
        0 <= j < 170,
    ensures
        (u * 170 + j) / 170 == u,
        (u * 170 + j) % 170 == j,
{
    assert((u * 170 + j) / 170 == u) by (nonlinear_arith)
        requires
            0 <= u,
            0 <= j < 170,
    ;
    assert((u * 170 + j) % 170 == j) by (nonlinear_arith)
        requires
            0 <= u,
            0 <= j < 170,
    ;
}

impl Positions {
    /// All slots empty.
    pub fn new() -> (r: Self)
        ensures
            forall|n: int| 0 <= n < LAMPS ==> #[trigger] lamp_at(r, n) == Lamp::Empty,
    {
        let u = Universe::new();
        let r = Positions { universes: [u; 32] };
        proof {
            assert forall|n: int| 0 <= n < LAMPS implies #[trigger] lamp_at(r, n) == Lamp::Empty by {
                assert(r.universes@[n / 170] == u);
            }
        }
        r
    }

    /// The position buffer: four bytes per lamp, in lamp order.
    pub fn to_bytes(&self) -> (r: Vec<u8>)
        ensures
            r@.len() == POSITIONS_BUFFER_SIZE,
            forall|b: int| 0 <= b < POSITIONS_BUFFER_SIZE ==> #[trigger] r@[b] == lamp_byte(
                lamp_at(*self, b / 4),
                b % 4,
            ),
    {
        let mut out: Vec<u8> = Vec::new();
        let mut u: usize = 0;
        while u < UNIVERSES
            invariant
                u <= UNIVERSES,
                out@.len() == 4 * (u * 170),
                forall|b: int| 0 <= b < out@.len() ==> #[trigger] out@[b] == lamp_byte(
                    lamp_at(*self, b / 4),
                    b % 4,
                ),
            decreases UNIVERSES - u,
        {
            let universe = &self.universes[u];
            let mut j: usize = 0;
            while j < LAMPS_PER_UNIVERSE
                invariant
                    u < UNIVERSES,
                    *universe == self.universes@[u as int],
                    j <= LAMPS_PER_UNIVERSE,
                    out@.len() == 4 * (u * 170 + j),
                    forall|b: int| 0 <= b < out@.len() ==> #[trigger] out@[b] == lamp_byte(
                        lamp_at(*self, b / 4),
                        b % 4,
                    ),
                decreases LAMPS_PER_UNIVERSE - j,
            {
                let lamp = universe.lamps[j];
                let ghost n = u * 170 + j;
                proof {
                    lemma_lamp_index(u as int, j as int);
                    assert(lamp_at(*self, n) == lamp);
                }
                let bytes: [u8; 4] = match lamp {
                    Lamp::Empty => [0, 0, 0, 0],
                    Lamp::Position { x, y } => [
                        (x % 256) as u8,
                        (x / 256) as u8,
                        (y % 256) as u8,
                        (y / 256) as u8,
                    ],
                };
                let ghost before = out@;
                out.push(bytes[0]);
                out.push(bytes[1]);
                out.push(bytes[2]);
                out.push(bytes[3]);
                proof {
                    assert forall|b: int| 0 <= b < out@.len() implies #[trigger] out@[b] == lamp_byte(
                        lamp_at(*self, b / 4),
                        b % 4,
                    ) by {
                        if b >= before.len() {
                            assert(b / 4 == n);
                            assert(b % 4 == b - 4 * n);
                        } else {
                            assert(out@[b] == before[b]);
                        }
                    }
                }
                j = j + 1;
            }
            u = u + 1;
        }
        out
    }
}

} // verus!
