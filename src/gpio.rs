//! The register block of one GPIO port, and the electrical settings of a pin.
use vstd::prelude::*;

verus! {

/// Lines per port register block.
pub const PINS_PER_PORT: usize = 32;

/// `PIN_CNF[n].PULL`.
#[derive(Clone, Copy, Debug, PartialEq, Eq, Structural)]
pub enum Pull {
    Disabled,
    Pulldown,
    Pullup,
}

/// The pull resistor a line floats on.
#[derive(Clone, Copy, Debug, PartialEq, Eq, Structural)]
pub enum FloatingState {
    PullUp,
    PullDown,
    PullNone,
}

/// Direction of a line.
#[derive(Clone, Copy, Debug, PartialEq, Eq, Structural)]
pub enum Configuration {
    Input,
    Output,
}

/// The register encoding of `PULL`.
pub open spec fn pull_code(p: Pull) -> u8 {
    match p {
        Pull::Disabled => 0,
        Pull::Pulldown => 1,
        Pull::Pullup => 3,
    }
}

/// What a `PULL` field reads as; the reserved code 2 names no setting.
pub open spec fn pull_from_code(c: u8) -> Option<Pull> {
    if c == 0 {
        Some(Pull::Disabled)
    } else if c == 1 {
        Some(Pull::Pulldown)
    } else if c == 3 {
        Some(Pull::Pullup)
    } else {
        None
    }
}

/// Bit `i` of `w` is set.
pub open spec fn bit(w: u32, i: u32) -> bool {
    (w >> i) & 1u32 == 1u32
}

proof fn lemma_or_bit(w: u32, p: u32, j: u32)
    requires
        p < 32,
        j < 32,
    ensures
        j == p ==> ((w | (1u32 << p)) >> j) & 1u32 == 1u32,
        j != p ==> ((w | (1u32 << p)) >> j) & 1u32 == (w >> j) & 1u32,
{
    assert(j == p ==> ((w | (1u32 << p)) >> j) & 1u32 == 1u32) by (bit_vector)
        requires
            p < 32,
            j < 32,
    ;
    assert(j != p ==> ((w | (1u32 << p)) >> j) & 1u32 == (w >> j) & 1u32) by (bit_vector)
        requires
            p < 32,
            j < 32,
    ;
}

proof fn lemma_clear_bit(w: u32, p: u32, j: u32)
    requires
        p < 32,
        j < 32,
    ensures
        j == p ==> ((w & !(1u32 << p)) >> j) & 1u32 == 0u32,
        j != p ==> ((w & !(1u32 << p)) >> j) & 1u32 == (w >> j) & 1u32,
{
    assert(j == p ==> ((w & !(1u32 << p)) >> j) & 1u32 == 0u32) by (bit_vector)
        requires
            p < 32,
            j < 32,
    ;
    assert(j != p ==> ((w & !(1u32 << p)) >> j) & 1u32 == (w >> j) & 1u32) by (bit_vector)
        requires
            p < 32,
            j < 32,
    ;
}

proof fn lemma_xor_bit(w: u32, p: u32, j: u32)
    requires
        p < 32,
        j < 32,
    ensures
        j == p ==> (((w ^ (1u32 << p)) >> j) & 1u32 == 1u32) == ((w >> j) & 1u32 != 1u32),
        j != p ==> ((w ^ (1u32 << p)) >> j) & 1u32 == (w >> j) & 1u32,
        ((w & (1u32 << p)) != 0u32) == ((w >> p) & 1u32 == 1u32),
{
    assert(j == p ==> (((w ^ (1u32 << p)) >> j) & 1u32 == 1u32) == ((w >> j) & 1u32 != 1u32)) by (bit_vector)
        requires
            p < 32,
            j < 32,
    ;
    assert(j != p ==> ((w ^ (1u32 << p)) >> j) & 1u32 == (w >> j) & 1u32) by (bit_vector)
        requires
            p < 32,
            j < 32,
    ;
    assert(((w & (1u32 << p)) != 0u32) == ((w >> p) & 1u32 == 1u32)) by (bit_vector)
        requires
            p < 32,
            j < 32,
    ;
}

/// The registers of one GPIO port: `OUT`, `IN`, `DIR`, and the `PULL` field
/// of each line's `PIN_CNF`.
pub struct GpioRegisters {
    out: u32,
    input: u32,
    dir: u32,
    pull: Vec<u8>,
}

impl GpioRegisters {
    pub closed spec fn out_word(&self) -> u32 {
        self.out
    }

    pub closed spec fn in_word(&self) -> u32 {
        self.input
    }

    pub closed spec fn dir_word(&self) -> u32 {
        self.dir
    }

    pub closed spec fn pull_codes(&self) -> Seq<u8> {
        self.pull@
    }

    /// One two-bit `PULL` field per line.
    pub open spec fn wf(&self) -> bool {
        &&& self.pull_codes().len() == PINS_PER_PORT
        &&& forall|i: int| 0 <= i < PINS_PER_PORT ==> #[trigger] self.pull_codes()[i] < 4
    }

    /// The state after reset: every line an input, driven low, no pull.
    pub fn new() -> (r: GpioRegisters)
        ensures
            r.wf(),
            r.out_word() == 0,
            r.in_word() == 0,
            r.dir_word() == 0,
            forall|i: int| 0 <= i < PINS_PER_PORT ==> #[trigger] r.pull_codes()[i] == 0,
    {
        let mut pull: Vec<u8> = Vec::new();
        let mut k: usize = 0;
        while k < PINS_PER_PORT
            invariant
                k <= PINS_PER_PORT,
                pull@.len() == k,
                forall|i: int| 0 <= i < k ==> #[trigger] pull@[i] == 0,
            decreases PINS_PER_PORT - k,
        {
            pull.push(0);
            k = k + 1;
        }
        GpioRegisters { out: 0, input: 0, dir: 0, pull }
    }

    /// The hardware samples the port's lines into `IN`.
    pub fn sample_input(&mut self, levels: u32)
        requires
            old(self).wf(),
        ensures
            final(self).wf(),
            final(self).in_word() == levels,
            final(self).out_word() == old(self).out_word(),
            final(self).dir_word() == old(self).dir_word(),
            final(self).pull_codes() == old(self).pull_codes(),
    {
        self.input = levels;
    }

    /// Sets bit `p` of `DIR` through `DIRSET`.
    pub fn dir_set(&mut self, p: u8)
        requires
            old(self).wf(),
            p < 32,
        ensures
            final(self).wf(),
            forall|j: u32| j < 32 ==> #[trigger] bit(final(self).dir_word(), j) == (j == p as u32 || bit(old(self).dir_word(), j)),
            final(self).out_word() == old(self).out_word(),
            final(self).in_word() == old(self).in_word(),
            final(self).pull_codes() == old(self).pull_codes(),
    {
        let w = self.dir;
        self.dir = w | (1u32 << p as u32);
        proof {
            assert forall|j: u32| j < 32 implies #[trigger] bit(self.dir, j) == (j == p as u32 || bit(w, j)) by {
                lemma_or_bit(w, p as u32, j);
            }
        }
    }

    /// Clears bit `p` of `DIR` through `DIRCLR`.
    pub fn dir_clear(&mut self, p: u8)
        requires
            old(self).wf(),
            p < 32,
        ensures
            final(self).wf(),
            forall|j: u32| j < 32 ==> #[trigger] bit(final(self).dir_word(), j) == (j != p as u32 && bit(old(self).dir_word(), j)),
            final(self).out_word() == old(self).out_word(),
            final(self).in_word() == old(self).in_word(),
            final(self).pull_codes() == old(self).pull_codes(),
    {
        let w = self.dir;
        self.dir = w & !(1u32 << p as u32);
        proof {
            assert forall|j: u32| j < 32 implies #[trigger] bit(self.dir, j) == (j != p as u32 && bit(w, j)) by {
                lemma_clear_bit(w, p as u32, j);
            }
        }
    }

    /// Sets bit `p` of `OUT` through `OUTSET`.
    pub fn out_set(&mut self, p: u8)
        requires
            old(self).wf(),
            p < 32,
        ensures
            final(self).wf(),
            forall|j: u32| j < 32 ==> #[trigger] bit(final(self).out_word(), j) == (j == p as u32 || bit(old(self).out_word(), j)),
            final(self).dir_word() == old(self).dir_word(),
            final(self).in_word() == old(self).in_word(),
            final(self).pull_codes() == old(self).pull_codes(),
    {
        let w = self.out;
        self.out = w | (1u32 << p as u32);
        proof {
            assert forall|j: u32| j < 32 implies #[trigger] bit(self.out, j) == (j == p as u32 || bit(w, j)) by {
                lemma_or_bit(w, p as u32, j);
            }
        }
    }

    /// Clears bit `p` of `OUT` through `OUTCLR`.
    pub fn out_clear(&mut self, p: u8)
        requires
            old(self).wf(),
            p < 32,
        ensures
            final(self).wf(),
            forall|j: u32| j < 32 ==> #[trigger] bit(final(self).out_word(), j) == (j != p as u32 && bit(old(self).out_word(), j)),
            final(self).dir_word() == old(self).dir_word(),
            final(self).in_word() == old(self).in_word(),
            final(self).pull_codes() == old(self).pull_codes(),
    {
        let w = self.out;
        self.out = w & !(1u32 << p as u32);
        proof {
            assert forall|j: u32| j < 32 implies #[trigger] bit(self.out, j) == (j != p as u32 && bit(w, j)) by {
                lemma_clear_bit(w, p as u32, j);
            }
        }
    }

    /// Flips bit `p` of `OUT`; returns the bit's new value.
    pub fn out_toggle(&mut self, p: u8) -> (r: bool)
        requires
            old(self).wf(),
            p < 32,
        ensures
            final(self).wf(),
            r == !bit(old(self).out_word(), p as u32),
            forall|j: u32| j < 32 ==> #[trigger] bit(final(self).out_word(), j) == if j == p as u32 {
                !bit(old(self).out_word(), j)
            } else {
                bit(old(self).out_word(), j)
            },
            final(self).dir_word() == old(self).dir_word(),
            final(self).in_word() == old(self).in_word(),
            final(self).pull_codes() == old(self).pull_codes(),
    {
        let w = self.out;
        let result = w ^ (1u32 << p as u32);
        self.out = result;
        proof {
            assert forall|j: u32| j < 32 implies #[trigger] bit(self.out, j) == if j == p as u32 {
                !bit(w, j)
            } else {
                bit(w, j)
            } by {
                lemma_xor_bit(w, p as u32, j);
            }
            lemma_xor_bit(result, p as u32, p as u32);
            lemma_xor_bit(w, p as u32, p as u32);
        }
        result & (1u32 << p as u32) != 0
    }

    /// Reads bit `p` of `word`.
    pub fn read_bit(word: u32, p: u8) -> (r: bool)
        requires
            p < 32,
        ensures
            r == bit(word, p as u32),
    {
        proof {
            lemma_xor_bit(word, p as u32, p as u32);
        }
        word & (1u32 << p as u32) != 0
    }

    pub fn out_level(&self, p: u8) -> (r: bool)
        requires
            p < 32,
        ensures
            r == bit(self.out_word(), p as u32),
    {
        Self::read_bit(self.out, p)
    }

    pub fn in_level(&self, p: u8) -> (r: bool)
        requires
            p < 32,
        ensures
            r == bit(self.in_word(), p as u32),
    {
        Self::read_bit(self.input, p)
    }

    pub fn dir_level(&self, p: u8) -> (r: bool)
        requires
            p < 32,
        ensures
            r == bit(self.dir_word(), p as u32),
    {
        Self::read_bit(self.dir, p)
    }

    /// Writes the `PULL` field of line `p`'s `PIN_CNF`.
    pub fn write_pull(&mut self, p: u8, pull: Pull)
        requires
            old(self).wf(),
            p < 32,
        ensures
            final(self).wf(),
            final(self).pull_codes() == old(self).pull_codes().update(p as int, pull_code(pull)),
            final(self).out_word() == old(self).out_word(),
            final(self).in_word() == old(self).in_word(),
            final(self).dir_word() == old(self).dir_word(),
    {
        let code: u8 = match pull {
            Pull::Disabled => 0,
            Pull::Pulldown => 1,
            Pull::Pullup => 3,
        };
        self.pull.set(p as usize, code);
    }

    /// Reads the `PULL` field of line `p`'s `PIN_CNF`.
    pub fn read_pull(&self, p: u8) -> (r: Option<Pull>)
        requires
            self.wf(),
            p < 32,
        ensures
            r == pull_from_code(self.pull_codes()[p as int]),
    {
        let c = self.pull[p as usize];
        if c == 0 {
            Some(Pull::Disabled)
        } else if c == 1 {
            Some(Pull::Pulldown)
        } else if c == 3 {
            Some(Pull::Pullup)
        } else {
            None
        }
    }
}

} // verus!
