//! The shared GPIOTE interrupt: routing fired channels to their pins.
use vstd::prelude::*;

use crate::gpiote::{is_active, owners_unique, ChannelConfig, ChannelMode, Gpiote};
use crate::pin::{Client, GPIOPin};

verus! {

/// The pins that an interrupt reaches, in channel order: the owner of each
/// channel with a latched event, where the channel is bound and its owner is
/// one of the `num_pins` lines of the table.  Other latched channels are only
/// cleared.
pub open spec fn routed(cfg: Seq<ChannelConfig>, pending: Seq<bool>, num_pins: nat) -> Seq<usize>
    decreases cfg.len(),
{
    if cfg.len() == 0 || pending.len() == 0 {
        Seq::empty()
    } else {
        let earlier = routed(cfg.drop_last(), pending.drop_last(), num_pins);
        let c = cfg.last();
        if pending.last() && is_active(c) && (c.psel as nat) < num_pins {
            earlier.push(c.psel as usize)
        } else {
            earlier
        }
    }
}

/// `p` is the owner of a bound channel with a latched event, and a line of
/// the table.
pub open spec fn fired_owner(cfg: Seq<ChannelConfig>, pending: Seq<bool>, num_pins: nat, p: usize) -> bool {
    exists|k: int|
        0 <= k < cfg.len() && pending[k] && is_active(#[trigger] cfg[k]) && (cfg[k].psel as nat)
            < num_pins && cfg[k].psel as usize == p
}

/// One interrupt notifies each pin at most once and misses none: when no
/// two channels share an owner, the routed pins are distinct, each is the
/// owner of a channel with a latched event, and every bound channel with a
/// latched event has its owner among them.
pub proof fn lemma_routed_once(cfg: Seq<ChannelConfig>, pending: Seq<bool>, num_pins: nat)
    requires
        owners_unique(cfg),
        pending.len() == cfg.len(),
    ensures
        routed(cfg, pending, num_pins).no_duplicates(),
        forall|k: int|
            0 <= k < cfg.len() && pending[k] && is_active(#[trigger] cfg[k]) && (cfg[k].psel as nat)
                < num_pins ==> routed(cfg, pending, num_pins).contains(cfg[k].psel as usize),
        forall|m: int|
            0 <= m < routed(cfg, pending, num_pins).len() ==> fired_owner(
                cfg,
                pending,
                num_pins,
                #[trigger] routed(cfg, pending, num_pins)[m],
            ),
    decreases cfg.len(),
{
    if cfg.len() > 0 {
        let c0 = cfg.drop_last();
        let p0 = pending.drop_last();
        assert(owners_unique(c0)) by {
            assert forall|i: int, j: int|
                0 <= i < c0.len() && 0 <= j < c0.len() && i != j && is_active(#[trigger] c0[i])
                    && is_active(#[trigger] c0[j]) implies c0[i].psel != c0[j].psel by {
                assert(c0[i] == cfg[i] && c0[j] == cfg[j]);
            }
        }
        lemma_routed_once(c0, p0, num_pins);
        let earlier = routed(c0, p0, num_pins);
        let r = routed(cfg, pending, num_pins);
        let last = cfg.len() - 1;
        assert forall|k: int| 0 <= k < c0.len() implies c0[k] == cfg[k] && p0[k] == pending[k] by {}
        if pending.last() && is_active(cfg.last()) && (cfg.last().psel as nat) < num_pins {
            let p = cfg.last().psel as usize;
            assert(r == earlier.push(p));
            assert(!earlier.contains(p)) by {
                if earlier.contains(p) {
                    let m = choose|m: int| 0 <= m < earlier.len() && earlier[m] == p;
                    assert(fired_owner(c0, p0, num_pins, earlier[m]));
                    let k = choose|k: int|
                        0 <= k < c0.len() && p0[k] && is_active(#[trigger] c0[k]) && (c0[k].psel
                            as nat) < num_pins && c0[k].psel as usize == earlier[m];
                    assert(cfg[k].psel != cfg[last].psel);
                }
            }
            assert forall|m: int| 0 <= m < r.len() implies fired_owner(cfg, pending, num_pins, r[m]) by {
                if m < earlier.len() {
                    assert(fired_owner(c0, p0, num_pins, earlier[m]));
                    let k = choose|k: int|
                        0 <= k < c0.len() && p0[k] && is_active(#[trigger] c0[k]) && (c0[k].psel
                            as nat) < num_pins && c0[k].psel as usize == earlier[m];
                    assert(cfg[k] == c0[k]);
                } else {
                    assert(r[m] == p);
                    assert(is_active(cfg[last]));
                }
            }
            assert forall|k: int|
                0 <= k < cfg.len() && pending[k] && is_active(#[trigger] cfg[k]) && (cfg[k].psel
                    as nat) < num_pins implies r.contains(cfg[k].psel as usize) by {
                if k < last {
                    assert(is_active(c0[k]));
                    let m = choose|m: int| 0 <= m < earlier.len() && earlier[m] == cfg[k].psel as usize;
                    assert(r[m] == earlier[m]);
                } else {
                    assert(r[r.len() - 1] == p);
                }
            }
        } else {
            assert(r == earlier);
            assert forall|m: int| 0 <= m < r.len() implies fired_owner(cfg, pending, num_pins, r[m]) by {
                assert(fired_owner(c0, p0, num_pins, earlier[m]));
                let k = choose|k: int|
                    0 <= k < c0.len() && p0[k] && is_active(#[trigger] c0[k]) && (c0[k].psel
                        as nat) < num_pins && c0[k].psel as usize == earlier[m];
                assert(cfg[k] == c0[k]);
            }
            assert forall|k: int|
                0 <= k < cfg.len() && pending[k] && is_active(#[trigger] cfg[k]) && (cfg[k].psel
                    as nat) < num_pins implies r.contains(cfg[k].psel as usize) by {
                assert(k < last);
                assert(is_active(c0[k]));
            }
        }
    }
}

/// The table of GPIO lines, indexed by encoded pin number.
pub struct Port<C> {
    pub pins: Vec<GPIOPin<C>>,
}

impl<C> Port<C> {
    pub open spec fn num_pins(&self) -> nat {
        self.pins@.len()
    }

    /// The line with encoded number `index`.
    pub fn index(&self, index: usize) -> (r: &GPIOPin<C>)
        requires
            index < self.num_pins(),
        ensures
            *r == self.pins@[index as int],
    {
        &self.pins[index]
    }

    /// The line with encoded number `index`, to change in place.
    pub fn index_mut(&mut self, index: usize) -> (r: &mut GPIOPin<C>)
        requires
            index < old(self).num_pins(),
        ensures
            *r == old(self).pins@[index as int],
            final(self).pins@ == old(self).pins@.update(index as int, *final(r)),
    {
        &mut self.pins[index]
    }
}

impl<C: Client> Port<C> {
    /// Services the shared GPIOTE interrupt.  Each channel is looked at once,
    /// in index order; a latched event is cleared before its pin's client is
    /// told, so an edge that comes during the callback raises the interrupt
    /// again.  Returns the pins that were notified, in the order they were.
    pub fn handle_interrupt(&self, gpiote: &mut Gpiote) -> (r: Vec<usize>)
        requires
            old(gpiote).wf(),
        ensures
            final(gpiote).wf(),
            final(gpiote).configs() == old(gpiote).configs(),
            final(gpiote).enabled() == old(gpiote).enabled(),
            forall|i: int| 0 <= i < final(gpiote).len() ==> !#[trigger] final(gpiote).pending()[i],
            r@ == routed(old(gpiote).configs(), old(gpiote).pending(), self.num_pins()),
    {
        let n = gpiote.num_channels();
        let mut out: Vec<usize> = Vec::new();
        let mut i: usize = 0;
        while i < n
            invariant
                gpiote.wf(),
                old(gpiote).wf(),
                n == gpiote.len(),
                n == old(gpiote).len(),
                i <= n,
                gpiote.configs() == old(gpiote).configs(),
                gpiote.enabled() == old(gpiote).enabled(),
                forall|j: int| 0 <= j < i ==> !#[trigger] gpiote.pending()[j],
                forall|j: int| i <= j < n ==> #[trigger] gpiote.pending()[j] == old(gpiote).pending()[j],
                out@ == routed(
                    old(gpiote).configs().take(i as int),
                    old(gpiote).pending().take(i as int),
                    self.num_pins(),
                ),
            decreases n - i,
        {
            proof {
                let cfg = old(gpiote).configs();
                let pend = old(gpiote).pending();
                assert(cfg.take(i + 1).drop_last() =~= cfg.take(i as int));
                assert(pend.take(i + 1).drop_last() =~= pend.take(i as int));
                assert(cfg.take(i + 1).last() == cfg[i as int]);
                assert(pend.take(i + 1).last() == pend[i as int]);
            }
            if gpiote.is_event_pending(i) {
                gpiote.clear_event(i);
                let c = gpiote.config(i);
                if c.mode != ChannelMode::Disabled && (c.psel as usize) < self.pins.len() {
                    let p = c.psel as usize;
                    self.pins[p].handle_interrupt();
                    out.push(p);
                }
            }
            i = i + 1;
        }
        proof {
            assert(old(gpiote).configs().take(n as int) =~= old(gpiote).configs());
            assert(old(gpiote).pending().take(n as int) =~= old(gpiote).pending());
        }
        out
    }
}

} // verus!
