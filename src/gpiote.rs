//! The GPIOTE channel pool: register state, and the allocator over it.
use vstd::prelude::*;

verus! {

/// Largest pool the `INTENSET`/`INTENCLR` registers can address.
pub const MAX_CHANNELS: usize = 8;

/// `CONFIG[n].MODE`.
#[derive(Clone, Copy, Debug, PartialEq, Eq, Structural)]
pub enum ChannelMode {
    Disabled,
    Event,
    Task,
}

/// `CONFIG[n].POLARITY`: the edge that raises the channel's event.
#[derive(Clone, Copy, Debug, PartialEq, Eq, Structural)]
pub enum Polarity {
    Disabled,
    LoToHi,
    HiToLo,
    Toggle,
}

/// One `CONFIG[n]` register: the channel's mode, the encoded pin it watches
/// (`PSEL`) and the edge it reacts to.
#[derive(Clone, Copy, Debug, PartialEq, Eq, Structural)]
pub struct ChannelConfig {
    pub mode: ChannelMode,
    pub psel: u32,
    pub polarity: Polarity,
}

/// Why a channel operation did not succeed.
#[derive(Clone, Copy, Debug, PartialEq, Eq, Structural)]
pub enum GpioteError {
    /// Every channel of the pool is bound.
    NoChannelAvailable,
    /// No channel is bound to the pin asked for.
    NotFound,
}

/// The value of a released channel's `CONFIG` register.
pub open spec fn cleared_config() -> ChannelConfig {
    ChannelConfig { mode: ChannelMode::Disabled, psel: 0, polarity: Polarity::Disabled }
}

/// An event-mode configuration that binds a channel to `pin`.
pub open spec fn event_config(pin: u32, polarity: Polarity) -> ChannelConfig {
    ChannelConfig { mode: ChannelMode::Event, psel: pin, polarity }
}

/// A channel is taken whenever its mode is not `Disabled`.
pub open spec fn is_active(c: ChannelConfig) -> bool {
    c.mode != ChannelMode::Disabled
}

/// The channel is bound to `pin`.  `PSEL` means nothing on a disabled
/// channel, so a disabled channel owns no pin.
pub open spec fn owns(c: ChannelConfig, pin: u32) -> bool {
    is_active(c) && c.psel == pin
}

/// The lowest free channel of `s`, if any.
pub open spec fn first_free(s: Seq<ChannelConfig>) -> Option<int>
    decreases s.len(),
{
    if s.len() == 0 {
        None
    } else {
        match first_free(s.drop_last()) {
            Some(i) => Some(i),
            None => if !is_active(s.last()) {
                Some(s.len() - 1)
            } else {
                None
            },
        }
    }
}

/// How many channels of `s` are taken.
pub open spec fn active_count(s: Seq<ChannelConfig>) -> nat
    decreases s.len(),
{
    if s.len() == 0 {
        0
    } else {
        active_count(s.drop_last()) + if is_active(s.last()) {
            1nat
        } else {
            0nat
        }
    }
}

/// The pool after one allocation for `pin`: the lowest free channel, if
/// there is one, is bound to it in event mode.
pub open spec fn allocate_step(s: Seq<ChannelConfig>, pin: u32, polarity: Polarity) -> Seq<
    ChannelConfig,
> {
    match first_free(s) {
        Some(i) => s.update(i, event_config(pin, polarity)),
        None => s,
    }
}

/// The lowest channel of `s` bound to `pin`, if any.
pub open spec fn first_owner(s: Seq<ChannelConfig>, pin: u32) -> Option<int>
    decreases s.len(),
{
    if s.len() == 0 {
        None
    } else {
        match first_owner(s.drop_last(), pin) {
            Some(i) => Some(i),
            None => if owns(s.last(), pin) {
                Some(s.len() - 1)
            } else {
                None
            },
        }
    }
}

/// The pool after `pin`'s channel, if it has one, is released.
pub open spec fn disable_step(s: Seq<ChannelConfig>, pin: u32) -> Seq<ChannelConfig> {
    match first_owner(s, pin) {
        Some(i) => s.update(i, cleared_config()),
        None => s,
    }
}

/// The pool after `pin` asks for an interrupt: a channel it already holds is
/// reconfigured, otherwise it is given the lowest free channel.
pub open spec fn enable_step(s: Seq<ChannelConfig>, pin: u32, polarity: Polarity) -> Seq<
    ChannelConfig,
> {
    match first_owner(s, pin) {
        Some(i) => s.update(i, event_config(pin, polarity)),
        None => allocate_step(s, pin, polarity),
    }
}

/// No two taken channels watch the same pin.
pub open spec fn owners_unique(s: Seq<ChannelConfig>) -> bool {
    forall|i: int, j: int|
        0 <= i < s.len() && 0 <= j < s.len() && i != j && is_active(#[trigger] s[i])
            && is_active(#[trigger] s[j]) ==> s[i].psel != s[j].psel
}

/// `first_free` is the lowest index whose channel is free.
pub proof fn lemma_first_free(s: Seq<ChannelConfig>)
    ensures
        first_free(s) is Some ==> 0 <= first_free(s)->0 < s.len() && !is_active(
            s[first_free(s)->0],
        ) && forall|j: int| 0 <= j < first_free(s)->0 ==> is_active(#[trigger] s[j]),
        first_free(s) is None ==> forall|j: int| 0 <= j < s.len() ==> is_active(#[trigger] s[j]),
    decreases s.len(),
{
    if s.len() > 0 {
        lemma_first_free(s.drop_last());
        assert forall|j: int| 0 <= j < s.len() - 1 implies s.drop_last()[j] == s[j] by {}
    }
}

/// `first_owner` is the lowest index whose channel is bound to `pin`.
pub proof fn lemma_first_owner(s: Seq<ChannelConfig>, pin: u32)
    ensures
        first_owner(s, pin) is Some ==> 0 <= first_owner(s, pin)->0 < s.len() && owns(
            s[first_owner(s, pin)->0],
            pin,
        ) && forall|j: int| 0 <= j < first_owner(s, pin)->0 ==> !owns(#[trigger] s[j], pin),
        first_owner(s, pin) is None ==> forall|j: int|
            0 <= j < s.len() ==> !owns(#[trigger] s[j], pin),
    decreases s.len(),
{
    if s.len() > 0 {
        lemma_first_owner(s.drop_last(), pin);
        assert forall|j: int| 0 <= j < s.len() - 1 implies s.drop_last()[j] == s[j] by {}
    }
}

/// At most every channel is taken, and all of them are when the count
/// reaches the size of the pool.
pub proof fn lemma_active_count_bound(s: Seq<ChannelConfig>)
    ensures
        active_count(s) <= s.len(),
        active_count(s) == s.len() ==> forall|j: int| 0 <= j < s.len() ==> is_active(#[trigger] s[j]),
        (forall|j: int| 0 <= j < s.len() ==> is_active(#[trigger] s[j])) ==> active_count(s)
            == s.len(),
    decreases s.len(),
{
    if s.len() > 0 {
        lemma_active_count_bound(s.drop_last());
        assert forall|j: int| 0 <= j < s.len() - 1 implies s.drop_last()[j] == s[j] by {}
    }
}

/// Binding a free channel takes exactly one more channel.
pub proof fn lemma_active_count_bind(s: Seq<ChannelConfig>, i: int, c: ChannelConfig)
    requires
        0 <= i < s.len(),
        !is_active(s[i]),
        is_active(c),
    ensures
        active_count(s.update(i, c)) == active_count(s) + 1,
    decreases s.len(),
{
    let t = s.update(i, c);
    if i == s.len() - 1 {
        assert(t.drop_last() =~= s.drop_last());
    } else {
        lemma_active_count_bind(s.drop_last(), i, c);
        assert(t.drop_last() =~= s.drop_last().update(i, c));
    }
}

/// Channel `i` is the lowest bound to `pin`.
proof fn lemma_first_owner_at(s: Seq<ChannelConfig>, pin: u32, i: int)
    requires
        0 <= i < s.len(),
        owns(s[i], pin),
        forall|j: int| 0 <= j < i ==> !owns(#[trigger] s[j], pin),
    ensures
        first_owner(s, pin) == Some(i),
{
    lemma_first_owner(s, pin);
    if first_owner(s, pin) is Some {
        let k = first_owner(s, pin)->0;
        if k < i {
            assert(!owns(s[k], pin));
        } else if k > i {
            assert(!owns(s[i], pin));
        }
    }
}

/// A pool of `n` channels refuses the allocation that follows `n`
/// allocations in a row, whichever pins asked and however the pool stood:
/// each either takes a free channel or finds none left.
pub proof fn lemma_pool_exhaustion(
    states: Seq<Seq<ChannelConfig>>,
    pins: Seq<u32>,
    polarities: Seq<Polarity>,
)
    requires
        states.len() == pins.len() + 1,
        polarities.len() == pins.len(),
        states[0].len() == pins.len(),
        forall|k: int|
            0 <= k < pins.len() ==> #[trigger] states[k + 1] == allocate_step(
                states[k],
                pins[k],
                polarities[k],
            ),
    ensures
        first_free(states[pins.len() as int]) is None,
{
    let n = pins.len() as int;
    lemma_allocations_fill(states, pins, polarities, n);
    lemma_active_count_bound(states[n]);
    lemma_first_free(states[n]);
}

/// After `k` allocations of the run, at least `k` channels are taken.
proof fn lemma_allocations_fill(
    states: Seq<Seq<ChannelConfig>>,
    pins: Seq<u32>,
    polarities: Seq<Polarity>,
    k: int,
)
    requires
        0 <= k <= pins.len(),
        states.len() == pins.len() + 1,
        polarities.len() == pins.len(),
        states[0].len() == pins.len(),
        forall|m: int|
            0 <= m < pins.len() ==> #[trigger] states[m + 1] == allocate_step(
                states[m],
                pins[m],
                polarities[m],
            ),
    ensures
        states[k].len() == pins.len(),
        active_count(states[k]) >= k,
    decreases k,
{
    if k > 0 {
        lemma_allocations_fill(states, pins, polarities, k - 1);
        let s = states[k - 1];
        lemma_first_free(s);
        lemma_active_count_bound(s);
        let m = k - 1;
        assert(states[m + 1] == allocate_step(s, pins[m], polarities[m]));
        match first_free(s) {
            Some(i) => {
                lemma_active_count_bind(s, i, event_config(pins[k - 1], polarities[k - 1]));
            },
            None => {},
        }
    }
}

/// Releasing a bound channel leaves its pin with no channel, when no two
/// channels share an owner: a lookup for that pin then finds nothing.
pub proof fn lemma_release_unbinds(s: Seq<ChannelConfig>, i: int)
    requires
        owners_unique(s),
        0 <= i < s.len(),
        is_active(s[i]),
    ensures
        first_owner(s.update(i, cleared_config()), s[i].psel) is None,
{
    let t = s.update(i, cleared_config());
    lemma_first_owner(t, s[i].psel);
    assert forall|j: int| 0 <= j < t.len() implies !owns(#[trigger] t[j], s[i].psel) by {
        if j != i && owns(t[j], s[i].psel) {
            assert(is_active(s[j]) && is_active(s[i]));
        }
    }
}

/// Once allocated for a pin that held no channel, the channel given is the
/// one a lookup for that pin returns.
pub proof fn lemma_find_after_allocate(s: Seq<ChannelConfig>, pin: u32, polarity: Polarity)
    requires
        first_owner(s, pin) is None,
        first_free(s) is Some,
    ensures
        first_owner(allocate_step(s, pin, polarity), pin) == first_free(s),
{
    lemma_first_owner(s, pin);
    lemma_first_free(s);
    let i = first_free(s)->0;
    let t = allocate_step(s, pin, polarity);
    assert forall|j: int| 0 <= j < i implies !owns(#[trigger] t[j], pin) by {
        assert(t[j] == s[j]);
    }
    lemma_first_owner_at(t, pin, i);
}

/// A pin keeps the channel that a lookup finds for it while other pins
/// allocate, enable or disable: only its own release moves it.
pub proof fn lemma_binding_stable(s: Seq<ChannelConfig>, pin: u32, other: u32, polarity: Polarity)
    requires
        first_owner(s, pin) is Some,
        other != pin,
    ensures
        first_owner(allocate_step(s, other, polarity), pin) == first_owner(s, pin),
        first_owner(enable_step(s, other, polarity), pin) == first_owner(s, pin),
        first_owner(disable_step(s, other), pin) == first_owner(s, pin),
{
    lemma_first_owner(s, pin);
    lemma_first_owner(s, other);
    lemma_first_free(s);
    let i = first_owner(s, pin)->0;
    let a = allocate_step(s, other, polarity);
    let e = enable_step(s, other, polarity);
    let d = disable_step(s, other);
    assert forall|j: int| 0 <= j < i implies !owns(#[trigger] a[j], pin) && !owns(e[j], pin)
        && !owns(d[j], pin) by {
        assert(!owns(s[j], pin));
    }
    assert(owns(a[i], pin) && owns(e[i], pin) && owns(d[i], pin));
    lemma_first_owner_at(a, pin, i);
    lemma_first_owner_at(e, pin, i);
    lemma_first_owner_at(d, pin, i);
}

/// Disabling a pin twice is disabling it once: after the first, no channel
/// is bound to the pin, so the second finds nothing to release.
pub proof fn lemma_disable_idempotent(s: Seq<ChannelConfig>, pin: u32)
    requires
        owners_unique(s),
    ensures
        first_owner(disable_step(s, pin), pin) is None,
        disable_step(disable_step(s, pin), pin) == disable_step(s, pin),
{
    lemma_first_owner(s, pin);
    match first_owner(s, pin) {
        Some(i) => {
            lemma_release_unbinds(s, i);
        },
        None => {},
    }
}

/// The GPIOTE peripheral: one `CONFIG`, `EVENTS_IN` and interrupt-enable
/// bit per channel.  Channels are a shared pool addressed by index; their
/// `CONFIG` registers are the only record of which pin holds which channel.
pub struct Gpiote {
    config: Vec<ChannelConfig>,
    events: Vec<bool>,
    inten: Vec<bool>,
}

impl Gpiote {
    /// The three register banks have one entry per channel, and the pool is
    /// no larger than the interrupt-enable registers can address.
    pub open spec fn wf(&self) -> bool {
        &&& self.configs().len() == self.pending().len()
        &&& self.configs().len() == self.enabled().len()
        &&& self.configs().len() <= MAX_CHANNELS
    }

    pub closed spec fn configs(&self) -> Seq<ChannelConfig> {
        self.config@
    }

    /// The `EVENTS_IN` flags, latched by the hardware.
    pub closed spec fn pending(&self) -> Seq<bool> {
        self.events@
    }

    /// The channels whose interrupt is enabled in `INTENSET`.
    pub closed spec fn enabled(&self) -> Seq<bool> {
        self.inten@
    }

    pub open spec fn len(&self) -> nat {
        self.configs().len()
    }

    /// The register state after reset: every channel disabled, no event
    /// latched, no interrupt enabled.
    pub fn new(num_channels: usize) -> (r: Gpiote)
        requires
            num_channels <= MAX_CHANNELS,
        ensures
            r.wf(),
            r.len() == num_channels,
            forall|i: int| 0 <= i < num_channels ==> #[trigger] r.configs()[i] == cleared_config(),
            forall|i: int| 0 <= i < num_channels ==> !#[trigger] r.pending()[i],
            forall|i: int| 0 <= i < num_channels ==> !#[trigger] r.enabled()[i],
            owners_unique(r.configs()),
    {
        let mut config: Vec<ChannelConfig> = Vec::new();
        let mut events: Vec<bool> = Vec::new();
        let mut inten: Vec<bool> = Vec::new();
        let mut k: usize = 0;
        while k < num_channels
            invariant
                k <= num_channels,
                config@.len() == k,
                events@.len() == k,
                inten@.len() == k,
                forall|i: int| 0 <= i < k ==> #[trigger] config@[i] == cleared_config(),
                forall|i: int| 0 <= i < k ==> !#[trigger] events@[i],
                forall|i: int| 0 <= i < k ==> !#[trigger] inten@[i],
            decreases num_channels - k,
        {
            config.push(
                ChannelConfig { mode: ChannelMode::Disabled, psel: 0, polarity: Polarity::Disabled },
            );
            events.push(false);
            inten.push(false);
            k = k + 1;
        }
        Gpiote { config, events, inten }
    }

    pub fn num_channels(&self) -> (r: usize)
        requires
            self.wf(),
        ensures
            r == self.len(),
    {
        self.config.len()
    }

    /// Reads `CONFIG[i]`.
    pub fn config(&self, i: usize) -> (r: ChannelConfig)
        requires
            self.wf(),
            i < self.len(),
        ensures
            r == self.configs()[i as int],
    {
        self.config[i]
    }

    /// Reads `EVENTS_IN[i]`.
    pub fn is_event_pending(&self, i: usize) -> (r: bool)
        requires
            self.wf(),
            i < self.len(),
        ensures
            r == self.pending()[i as int],
    {
        self.events[i]
    }

    /// Whether channel `i`'s interrupt is enabled.
    pub fn is_interrupt_enabled(&self, i: usize) -> (r: bool)
        requires
            self.wf(),
            i < self.len(),
        ensures
            r == self.enabled()[i as int],
    {
        self.inten[i]
    }

    /// The hardware latches channel `i`'s event: its configured edge occurred.
    pub fn latch_event(&mut self, i: usize)
        requires
            old(self).wf(),
            i < old(self).len(),
        ensures
            final(self).wf(),
            final(self).configs() == old(self).configs(),
            final(self).enabled() == old(self).enabled(),
            final(self).pending() == old(self).pending().update(i as int, true),
    {
        self.events.set(i, true);
    }

    /// Writes `NotReady` to `EVENTS_IN[i]`.
    pub fn clear_event(&mut self, i: usize)
        requires
            old(self).wf(),
            i < old(self).len(),
        ensures
            final(self).wf(),
            final(self).configs() == old(self).configs(),
            final(self).enabled() == old(self).enabled(),
            final(self).pending() == old(self).pending().update(i as int, false),
    {
        self.events.set(i, false);
    }

    /// The lowest-indexed channel whose mode is `Disabled`.  It does not look
    /// at who owns the other channels; callers that must not hold two
    /// channels for one pin look with `find` first.
    pub fn allocate(&self) -> (r: Result<usize, GpioteError>)
        requires
            self.wf(),
        ensures
            r matches Ok(i) ==> i < self.len() && first_free(self.configs()) == Some(i as int),
            r matches Ok(i) ==> !is_active(self.configs()[i as int]) && forall|j: int|
                0 <= j < i ==> is_active(#[trigger] self.configs()[j]),
            r matches Err(e) ==> e == GpioteError::NoChannelAvailable && first_free(
                self.configs(),
            ) is None,
            r is Ok <==> first_free(self.configs()) is Some,
    {
        proof {
            lemma_first_free(self.configs());
        }
        let mut i: usize = 0;
        while i < self.config.len()
            invariant
                self.wf(),
                i <= self.len(),
                forall|j: int| 0 <= j < i ==> is_active(#[trigger] self.configs()[j]),
            decreases self.len() - i,
        {
            if self.config[i].mode == ChannelMode::Disabled {
                proof {
                    lemma_first_free(self.configs());
                }
                return Ok(i);
            }
            i = i + 1;
        }
        Err(GpioteError::NoChannelAvailable)
    }

    /// The lowest-indexed channel bound to the encoded pin `pin`.
    pub fn find(&self, pin: u32) -> (r: Result<usize, GpioteError>)
        requires
            self.wf(),
        ensures
            r matches Ok(i) ==> i < self.len() && first_owner(self.configs(), pin) == Some(i as int),
            r matches Err(e) ==> e == GpioteError::NotFound && first_owner(self.configs(), pin) is None,
            r matches Ok(i) ==> owns(self.configs()[i as int], pin) && forall|j: int|
                0 <= j < i ==> !owns(#[trigger] self.configs()[j], pin),
            r is Err ==> forall|j: int| 0 <= j < self.len() ==> !owns(#[trigger] self.configs()[j], pin),
    {
        proof {
            lemma_first_owner(self.configs(), pin);
        }
        let mut i: usize = 0;
        while i < self.config.len()
            invariant
                self.wf(),
                i <= self.len(),
                forall|j: int| 0 <= j < i ==> !owns(#[trigger] self.configs()[j], pin),
            decreases self.len() - i,
        {
            let c = self.config[i];
            if c.mode != ChannelMode::Disabled && c.psel == pin {
                proof {
                    lemma_first_owner(self.configs(), pin);
                }
                return Ok(i);
            }
            i = i + 1;
        }
        Err(GpioteError::NotFound)
    }

    /// Binds channel `i` to `pin` in event mode and enables its interrupt.
    /// This is the bare register write: it is up to the caller not to give a
    /// pin a second channel.
    pub fn configure_event(&mut self, i: usize, pin: u32, polarity: Polarity)
        requires
            old(self).wf(),
            i < old(self).len(),
        ensures
            final(self).wf(),
            final(self).configs() == old(self).configs().update(i as int, event_config(pin, polarity)),
            final(self).pending() == old(self).pending(),
            final(self).enabled() == old(self).enabled().update(i as int, true),
    {
        self.config.set(i, ChannelConfig { mode: ChannelMode::Event, psel: pin, polarity });
        self.inten.set(i, true);
    }

    /// Takes the lowest free channel for `pin`: binds it in event mode and
    /// enables its interrupt.  With no channel free the pool is left as it is.
    pub fn allocate_for(&mut self, pin: u32, polarity: Polarity) -> (r: Result<usize, GpioteError>)
        requires
            old(self).wf(),
        ensures
            final(self).wf(),
            final(self).configs() == allocate_step(old(self).configs(), pin, polarity),
            final(self).pending() == old(self).pending(),
            r matches Ok(i) ==> first_free(old(self).configs()) == Some(i as int)
                && final(self).enabled() == old(self).enabled().update(i as int, true),
            r matches Err(e) ==> e == GpioteError::NoChannelAvailable && first_free(
                old(self).configs(),
            ) is None && *final(self) == *old(self),
            r is Ok <==> first_free(old(self).configs()) is Some,
    {
        match self.allocate() {
            Ok(i) => {
                self.configure_event(i, pin, polarity);
                Ok(i)
            },
            Err(e) => Err(e),
        }
    }

    /// Returns channel `i` to the pool: clears its `CONFIG` register, its
    /// latched event and its interrupt enable.  Releasing a free channel
    /// changes nothing.
    pub fn release(&mut self, i: usize)
        requires
            old(self).wf(),
            i < old(self).len(),
        ensures
            final(self).wf(),
            final(self).configs() == old(self).configs().update(i as int, cleared_config()),
            final(self).pending() == old(self).pending().update(i as int, false),
            final(self).enabled() == old(self).enabled().update(i as int, false),
            owners_unique(old(self).configs()) ==> owners_unique(final(self).configs()),
    {
        self.config.set(
            i,
            ChannelConfig { mode: ChannelMode::Disabled, psel: 0, polarity: Polarity::Disabled },
        );
        self.events.set(i, false);
        self.inten.set(i, false);
    }
}

} // verus!
