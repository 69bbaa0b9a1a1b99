//! Logical pins and the per-pin facade over the channel pool.
use vstd::prelude::*;

use crate::gpio::{bit, pull_code, pull_from_code, Configuration, FloatingState, GpioRegisters, Pull};
use crate::gpiote::{
    disable_step, enable_step, first_free, first_owner, lemma_disable_idempotent, lemma_first_free,
    lemma_first_owner, owners_unique, owns, Gpiote, GpioteError, Polarity,
};

verus! {

/// Pins per GPIO port.
pub const GPIO_PER_PORT: u8 = 32;

/// The GPIO lines of the family; the `P1_xx` lines exist on the nRF52840 only.
#[derive(Clone, Copy, Debug, PartialEq, Eq, Structural)]
pub enum Pin {
    P0_00, P0_01, P0_02, P0_03, P0_04, P0_05, P0_06, P0_07,
    P0_08, P0_09, P0_10, P0_11, P0_12, P0_13, P0_14, P0_15,
    P0_16, P0_17, P0_18, P0_19, P0_20, P0_21, P0_22, P0_23,
    P0_24, P0_25, P0_26, P0_27, P0_28, P0_29, P0_30, P0_31,
    P1_00, P1_01, P1_02, P1_03, P1_04, P1_05, P1_06, P1_07,
    P1_08, P1_09, P1_10, P1_11, P1_12, P1_13, P1_14, P1_15,
}

impl Pin {
    /// The line's global number: port * 32 + offset.
    pub open spec fn number(self) -> nat {
        match self {
            Pin::P0_00 => 0,
            Pin::P0_01 => 1,
            Pin::P0_02 => 2,
            Pin::P0_03 => 3,
            Pin::P0_04 => 4,
            Pin::P0_05 => 5,
            Pin::P0_06 => 6,
            Pin::P0_07 => 7,
            Pin::P0_08 => 8,
            Pin::P0_09 => 9,
            Pin::P0_10 => 10,
            Pin::P0_11 => 11,
            Pin::P0_12 => 12,
            Pin::P0_13 => 13,
            Pin::P0_14 => 14,
            Pin::P0_15 => 15,
            Pin::P0_16 => 16,
            Pin::P0_17 => 17,
            Pin::P0_18 => 18,
            Pin::P0_19 => 19,
            Pin::P0_20 => 20,
            Pin::P0_21 => 21,
            Pin::P0_22 => 22,
            Pin::P0_23 => 23,
            Pin::P0_24 => 24,
            Pin::P0_25 => 25,
            Pin::P0_26 => 26,
            Pin::P0_27 => 27,
            Pin::P0_28 => 28,
            Pin::P0_29 => 29,
            Pin::P0_30 => 30,
            Pin::P0_31 => 31,
            Pin::P1_00 => 32,
            Pin::P1_01 => 33,
            Pin::P1_02 => 34,
            Pin::P1_03 => 35,
            Pin::P1_04 => 36,
            Pin::P1_05 => 37,
            Pin::P1_06 => 38,
            Pin::P1_07 => 39,
            Pin::P1_08 => 40,
            Pin::P1_09 => 41,
            Pin::P1_10 => 42,
            Pin::P1_11 => 43,
            Pin::P1_12 => 44,
            Pin::P1_13 => 45,
            Pin::P1_14 => 46,
            Pin::P1_15 => 47,
        }
    }

    pub fn index(self) -> (r: u8)
        ensures
            r as nat == self.number(),
    {
        match self {
            Pin::P0_00 => 0,
            Pin::P0_01 => 1,
            Pin::P0_02 => 2,
            Pin::P0_03 => 3,
            Pin::P0_04 => 4,
            Pin::P0_05 => 5,
            Pin::P0_06 => 6,
            Pin::P0_07 => 7,
            Pin::P0_08 => 8,
            Pin::P0_09 => 9,
            Pin::P0_10 => 10,
            Pin::P0_11 => 11,
            Pin::P0_12 => 12,
            Pin::P0_13 => 13,
            Pin::P0_14 => 14,
            Pin::P0_15 => 15,
            Pin::P0_16 => 16,
            Pin::P0_17 => 17,
            Pin::P0_18 => 18,
            Pin::P0_19 => 19,
            Pin::P0_20 => 20,
            Pin::P0_21 => 21,
            Pin::P0_22 => 22,
            Pin::P0_23 => 23,
            Pin::P0_24 => 24,
            Pin::P0_25 => 25,
            Pin::P0_26 => 26,
            Pin::P0_27 => 27,
            Pin::P0_28 => 28,
            Pin::P0_29 => 29,
            Pin::P0_30 => 30,
            Pin::P0_31 => 31,
            Pin::P1_00 => 32,
            Pin::P1_01 => 33,
            Pin::P1_02 => 34,
            Pin::P1_03 => 35,
            Pin::P1_04 => 36,
            Pin::P1_05 => 37,
            Pin::P1_06 => 38,
            Pin::P1_07 => 39,
            Pin::P1_08 => 40,
            Pin::P1_09 => 41,
            Pin::P1_10 => 42,
            Pin::P1_11 => 43,
            Pin::P1_12 => 44,
            Pin::P1_13 => 45,
            Pin::P1_14 => 46,
            Pin::P1_15 => 47,
        }
    }
}

/// The edge a pin's interrupt is requested for.
#[derive(Clone, Copy, Debug, PartialEq, Eq, Structural)]
pub enum InterruptEdge {
    RisingEdge,
    FallingEdge,
    EitherEdge,
}

/// The channel polarity that raises an event on `edge`.
pub open spec fn polarity_of(edge: InterruptEdge) -> Polarity {
    match edge {
        InterruptEdge::RisingEdge => Polarity::LoToHi,
        InterruptEdge::FallingEdge => Polarity::HiToLo,
        InterruptEdge::EitherEdge => Polarity::Toggle,
    }
}

pub fn edge_polarity(edge: InterruptEdge) -> (r: Polarity)
    ensures
        r == polarity_of(edge),
{
    match edge {
        InterruptEdge::RisingEdge => Polarity::LoToHi,
        InterruptEdge::FallingEdge => Polarity::HiToLo,
        InterruptEdge::EitherEdge => Polarity::Toggle,
    }
}

/// The receiver of a pin's interrupt notifications.
pub trait Client {
    /// Called once for each event routed to the pin.
    fn fired(&self);
}

/// One GPIO line: where it sits, and who is told when it fires.
pub struct GPIOPin<C> {
    pin: u8,
    port: u8,
    client: Option<C>,
}

impl<C> GPIOPin<C> {
    /// Offset of the line within its port.
    pub closed spec fn offset(&self) -> nat {
        self.pin as nat
    }

    /// Index of the line's port.
    pub closed spec fn port_index(&self) -> nat {
        self.port as nat
    }

    pub closed spec fn has_client(&self) -> bool {
        self.client is Some
    }

    /// The number the channel hardware knows the line by.
    pub open spec fn encoded(&self) -> nat {
        GPIO_PER_PORT as nat * self.port_index() + self.offset()
    }

    /// Offset below 32 and port below 2.
    pub open spec fn wf(&self) -> bool {
        self.offset() < GPIO_PER_PORT as nat && self.port_index() < 2
    }

    /// The line `pin`, with no client.
    pub fn new(pin: Pin) -> (r: GPIOPin<C>)
        ensures
            r.wf(),
            r.encoded() == pin.number(),
            r.offset() == pin.number() % 32,
            r.port_index() == pin.number() / 32,
            !r.has_client(),
    {
        let n = pin.index();
        GPIOPin { pin: n % GPIO_PER_PORT, port: n / GPIO_PER_PORT, client: None }
    }

    pub fn encoded_pin(&self) -> (r: u32)
        requires
            self.wf(),
        ensures
            r as nat == self.encoded(),
    {
        assert(GPIO_PER_PORT as u32 * self.port as u32 <= 32) by (nonlinear_arith)
            requires
                self.port < 2,
                GPIO_PER_PORT == 32,
        ;
        GPIO_PER_PORT as u32 * self.port as u32 + self.pin as u32
    }

    /// Registers `client`, replacing any earlier one.
    pub fn set_client(&mut self, client: C)
        ensures
            final(self).has_client(),
            final(self).offset() == old(self).offset(),
            final(self).port_index() == old(self).port_index(),
    {
        self.client = Some(client);
    }

    /// Whether an event is latched on the channel bound to this line; `false`
    /// when no channel is.
    pub fn is_pending(&self, gpiote: &Gpiote) -> (r: bool)
        requires
            self.wf(),
            gpiote.wf(),
        ensures
            r == match first_owner(gpiote.configs(), self.encoded() as u32) {
                Some(i) => gpiote.pending()[i],
                None => false,
            },
    {
        match gpiote.find(self.encoded_pin()) {
            Ok(i) => gpiote.is_event_pending(i),
            Err(_) => false,
        }
    }

    /// Requests an interrupt on `edge`.  A channel this line already holds is
    /// reconfigured, so a line never holds two; otherwise the lowest free
    /// channel is bound to it and its interrupt enabled.  With every channel
    /// taken nothing changes and `NoChannelAvailable` comes back.
    pub fn enable_interrupts(&self, gpiote: &mut Gpiote, edge: InterruptEdge) -> (r: Result<
        usize,
        GpioteError,
    >)
        requires
            self.wf(),
            old(gpiote).wf(),
        ensures
            final(gpiote).wf(),
            final(gpiote).configs() == enable_step(
                old(gpiote).configs(),
                self.encoded() as u32,
                polarity_of(edge),
            ),
            final(gpiote).pending() == old(gpiote).pending(),
            r matches Ok(i) ==> i < final(gpiote).len() && final(gpiote).enabled() == old(
                gpiote,
            ).enabled().update(i as int, true) && owns(
                final(gpiote).configs()[i as int],
                self.encoded() as u32,
            ),
            r matches Ok(i) ==> first_owner(old(gpiote).configs(), self.encoded() as u32) == Some(
                i as int,
            ) || (first_owner(old(gpiote).configs(), self.encoded() as u32) is None && first_free(
                old(gpiote).configs(),
            ) == Some(i as int)),
            r matches Err(e) ==> e == GpioteError::NoChannelAvailable && *final(gpiote) == *old(
                gpiote,
            ),
            r is Err <==> (first_owner(old(gpiote).configs(), self.encoded() as u32) is None
                && first_free(old(gpiote).configs()) is None),
            owners_unique(old(gpiote).configs()) ==> owners_unique(final(gpiote).configs()),
    {
        let polarity = edge_polarity(edge);
        let pin = self.encoded_pin();
        let r = match gpiote.find(pin) {
            Ok(i) => {
                gpiote.configure_event(i, pin, polarity);
                Ok(i)
            },
            Err(_) => gpiote.allocate_for(pin, polarity),
        };
        proof {
            lemma_first_owner(old(gpiote).configs(), pin);
            lemma_first_free(old(gpiote).configs());
        }
        r
    }

    /// Releases the channel bound to this line, if there is one; otherwise
    /// nothing changes.
    pub fn disable_interrupts(&self, gpiote: &mut Gpiote)
        requires
            self.wf(),
            old(gpiote).wf(),
        ensures
            final(gpiote).wf(),
            final(gpiote).configs() == disable_step(old(gpiote).configs(), self.encoded() as u32),
            owners_unique(old(gpiote).configs()) ==> owners_unique(final(gpiote).configs())
                && first_owner(final(gpiote).configs(), self.encoded() as u32) is None,
            first_owner(old(gpiote).configs(), self.encoded() as u32) is None ==> *final(gpiote)
                == *old(gpiote),
            match first_owner(old(gpiote).configs(), self.encoded() as u32) {
                Some(i) => final(gpiote).pending() == old(gpiote).pending().update(i, false)
                    && final(gpiote).enabled() == old(gpiote).enabled().update(i, false),
                None => true,
            },
    {
        match gpiote.find(self.encoded_pin()) {
            Ok(i) => gpiote.release(i),
            Err(_) => {},
        }
        proof {
            if owners_unique(old(gpiote).configs()) {
                lemma_disable_idempotent(old(gpiote).configs(), self.encoded() as u32);
            }
        }
    }
}

/// The pull setting a floating state asks for.
pub open spec fn pull_for(mode: FloatingState) -> Pull {
    match mode {
        FloatingState::PullUp => Pull::Pullup,
        FloatingState::PullDown => Pull::Pulldown,
        FloatingState::PullNone => Pull::Disabled,
    }
}

/// The floating state a `PULL` field reads as; an unreadable field reads as
/// no pull.
pub open spec fn floating_of(p: Option<Pull>) -> FloatingState {
    match p {
        Some(Pull::Pullup) => FloatingState::PullUp,
        Some(Pull::Pulldown) => FloatingState::PullDown,
        _ => FloatingState::PullNone,
    }
}

impl<C> GPIOPin<C> {
    /// Writes `config` to the line's `PIN_CNF` (its port's registers are `regs`).
    pub fn write_config(&self, regs: &mut GpioRegisters, config: Pull)
        requires
            self.wf(),
            old(regs).wf(),
        ensures
            final(regs).wf(),
            final(regs).pull_codes() == old(regs).pull_codes().update(self.offset() as int, pull_code(config)),
            final(regs).out_word() == old(regs).out_word(),
            final(regs).dir_word() == old(regs).dir_word(),
            final(regs).in_word() == old(regs).in_word(),
    {
        regs.write_pull(self.pin, config);
    }

    /// The pull setting in the line's `PIN_CNF`, if it names one.
    pub fn read_config(&self, regs: &GpioRegisters) -> (r: Option<Pull>)
        requires
            self.wf(),
            regs.wf(),
        ensures
            r == pull_from_code(regs.pull_codes()[self.offset() as int]),
    {
        regs.read_pull(self.pin)
    }

    pub fn set_floating_state(&self, regs: &mut GpioRegisters, mode: FloatingState)
        requires
            self.wf(),
            old(regs).wf(),
        ensures
            final(regs).wf(),
            final(regs).pull_codes() == old(regs).pull_codes().update(
                self.offset() as int,
                pull_code(pull_for(mode)),
            ),
            final(regs).out_word() == old(regs).out_word(),
            final(regs).dir_word() == old(regs).dir_word(),
            final(regs).in_word() == old(regs).in_word(),
    {
        let pull = match mode {
            FloatingState::PullUp => Pull::Pullup,
            FloatingState::PullDown => Pull::Pulldown,
            FloatingState::PullNone => Pull::Disabled,
        };
        self.write_config(regs, pull);
    }

    pub fn floating_state(&self, regs: &GpioRegisters) -> (r: FloatingState)
        requires
            self.wf(),
            regs.wf(),
        ensures
            r == floating_of(pull_from_code(regs.pull_codes()[self.offset() as int])),
    {
        match self.read_config(regs) {
            Some(Pull::Pullup) => FloatingState::PullUp,
            Some(Pull::Pulldown) => FloatingState::PullDown,
            Some(Pull::Disabled) => FloatingState::PullNone,
            None => FloatingState::PullNone,
        }
    }

    /// Leaves the line floating with no pull.
    pub fn deactivate_to_low_power(&self, regs: &mut GpioRegisters)
        requires
            self.wf(),
            old(regs).wf(),
        ensures
            final(regs).wf(),
            final(regs).pull_codes() == old(regs).pull_codes().update(self.offset() as int, 0),
            final(regs).out_word() == old(regs).out_word(),
            final(regs).dir_word() == old(regs).dir_word(),
            final(regs).in_word() == old(regs).in_word(),
    {
        self.set_floating_state(regs, FloatingState::PullNone);
    }

    pub fn make_output(&self, regs: &mut GpioRegisters) -> (r: Configuration)
        requires
            self.wf(),
            old(regs).wf(),
        ensures
            r == Configuration::Output,
            final(regs).wf(),
            forall|j: u32| j < 32 ==> #[trigger] bit(final(regs).dir_word(), j) == (j == self.offset() || bit(old(regs).dir_word(), j)),
            final(regs).out_word() == old(regs).out_word(),
            final(regs).in_word() == old(regs).in_word(),
            final(regs).pull_codes() == old(regs).pull_codes(),
    {
        regs.dir_set(self.pin);
        Configuration::Output
    }

    pub fn make_input(&self, regs: &mut GpioRegisters) -> (r: Configuration)
        requires
            self.wf(),
            old(regs).wf(),
        ensures
            r == Configuration::Input,
            final(regs).wf(),
            forall|j: u32| j < 32 ==> #[trigger] bit(final(regs).dir_word(), j) == (j != self.offset() && bit(old(regs).dir_word(), j)),
            final(regs).out_word() == old(regs).out_word(),
            final(regs).in_word() == old(regs).in_word(),
            final(regs).pull_codes() == old(regs).pull_codes(),
    {
        regs.dir_clear(self.pin);
        Configuration::Input
    }

    /// An output line stops driving by becoming an input.
    pub fn disable_output(&self, regs: &mut GpioRegisters) -> (r: Configuration)
        requires
            self.wf(),
            old(regs).wf(),
        ensures
            r == Configuration::Input,
            final(regs).wf(),
            forall|j: u32| j < 32 ==> #[trigger] bit(final(regs).dir_word(), j) == (j != self.offset() && bit(old(regs).dir_word(), j)),
            final(regs).out_word() == old(regs).out_word(),
            final(regs).in_word() == old(regs).in_word(),
            final(regs).pull_codes() == old(regs).pull_codes(),
    {
        self.make_input(regs)
    }

    /// An input line stops sampling by becoming an output.
    pub fn disable_input(&self, regs: &mut GpioRegisters) -> (r: Configuration)
        requires
            self.wf(),
            old(regs).wf(),
        ensures
            r == Configuration::Output,
            final(regs).wf(),
            forall|j: u32| j < 32 ==> #[trigger] bit(final(regs).dir_word(), j) == (j == self.offset() || bit(old(regs).dir_word(), j)),
            final(regs).out_word() == old(regs).out_word(),
            final(regs).in_word() == old(regs).in_word(),
            final(regs).pull_codes() == old(regs).pull_codes(),
    {
        self.make_output(regs)
    }

    pub fn configuration(&self, regs: &GpioRegisters) -> (r: Configuration)
        requires
            self.wf(),
        ensures
            r == if bit(regs.dir_word(), self.offset() as u32) {
                Configuration::Output
            } else {
                Configuration::Input
            },
    {
        if regs.dir_level(self.pin) {
            Configuration::Output
        } else {
            Configuration::Input
        }
    }

    /// The line's sampled level.
    pub fn read(&self, regs: &GpioRegisters) -> (r: bool)
        requires
            self.wf(),
        ensures
            r == bit(regs.in_word(), self.offset() as u32),
    {
        regs.in_level(self.pin)
    }

    /// Drives the line high.
    pub fn set(&self, regs: &mut GpioRegisters)
        requires
            self.wf(),
            old(regs).wf(),
        ensures
            final(regs).wf(),
            forall|j: u32| j < 32 ==> #[trigger] bit(final(regs).out_word(), j) == (j == self.offset() || bit(old(regs).out_word(), j)),
            final(regs).dir_word() == old(regs).dir_word(),
            final(regs).in_word() == old(regs).in_word(),
            final(regs).pull_codes() == old(regs).pull_codes(),
    {
        regs.out_set(self.pin);
    }

    /// Drives the line low.
    pub fn clear(&self, regs: &mut GpioRegisters)
        requires
            self.wf(),
            old(regs).wf(),
        ensures
            final(regs).wf(),
            forall|j: u32| j < 32 ==> #[trigger] bit(final(regs).out_word(), j) == (j != self.offset() && bit(old(regs).out_word(), j)),
            final(regs).dir_word() == old(regs).dir_word(),
            final(regs).in_word() == old(regs).in_word(),
            final(regs).pull_codes() == old(regs).pull_codes(),
    {
        regs.out_clear(self.pin);
    }

    /// Flips the driven level; returns the new one.
    pub fn toggle(&self, regs: &mut GpioRegisters) -> (r: bool)
        requires
            self.wf(),
            old(regs).wf(),
        ensures
            final(regs).wf(),
            r == !bit(old(regs).out_word(), self.offset() as u32),
            forall|j: u32| j < 32 ==> #[trigger] bit(final(regs).out_word(), j) == if j == self.offset() {
                !bit(old(regs).out_word(), j)
            } else {
                bit(old(regs).out_word(), j)
            },
            final(regs).dir_word() == old(regs).dir_word(),
            final(regs).in_word() == old(regs).in_word(),
            final(regs).pull_codes() == old(regs).pull_codes(),
    {
        regs.out_toggle(self.pin)
    }
}

impl<C: Client> GPIOPin<C> {
    /// Tells the client, if there is one, that the line fired.
    pub fn handle_interrupt(&self) {
        match &self.client {
            Some(c) => c.fired(),
            None => {},
        }
    }
}

} // verus!
