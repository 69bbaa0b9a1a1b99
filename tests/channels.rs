use std::cell::Cell;
use std::rc::Rc;

use nrf5x_gpio::gpio::{Configuration, FloatingState, GpioRegisters, Pull};
use nrf5x_gpio::gpiote::{ChannelConfig, ChannelMode, Gpiote, GpioteError, Polarity};
use nrf5x_gpio::pin::{Client, GPIOPin, InterruptEdge, Pin};
use nrf5x_gpio::port::Port;

struct Recorder(Rc<Cell<u32>>);

impl Client for Recorder {
    fn fired(&self) {
        self.0.set(self.0.get() + 1);
    }
}

const FIRST_FIVE: [Pin; 5] = [Pin::P0_00, Pin::P0_01, Pin::P0_02, Pin::P0_03, Pin::P0_04];

fn port_of_five() -> (Port<Recorder>, Vec<Rc<Cell<u32>>>) {
    let mut pins = Vec::new();
    let mut counters = Vec::new();
    for p in FIRST_FIVE {
        let count = Rc::new(Cell::new(0));
        let mut pin = GPIOPin::new(p);
        pin.set_client(Recorder(count.clone()));
        pins.push(pin);
        counters.push(count);
    }
    (Port { pins }, counters)
}

fn event(pin: u32, polarity: Polarity) -> ChannelConfig {
    ChannelConfig { mode: ChannelMode::Event, psel: pin, polarity }
}

fn disabled() -> ChannelConfig {
    ChannelConfig { mode: ChannelMode::Disabled, psel: 0, polarity: Polarity::Disabled }
}

#[test]
fn enable_rising_edge_takes_channel_zero() {
    let (port, _) = port_of_five();
    let mut gpiote = Gpiote::new(4);
    let r = port.index(0).enable_interrupts(&mut gpiote, InterruptEdge::RisingEdge);
    assert_eq!(r, Ok(0));
    assert_eq!(gpiote.config(0), event(0, Polarity::LoToHi));
    assert!(gpiote.is_interrupt_enabled(0));
    assert!(!gpiote.is_interrupt_enabled(1));
}

#[test]
fn fifth_pin_finds_pool_exhausted() {
    let (port, _) = port_of_five();
    let mut gpiote = Gpiote::new(4);
    for k in 0..4 {
        assert_eq!(port.index(k).enable_interrupts(&mut gpiote, InterruptEdge::RisingEdge), Ok(k));
    }
    assert_eq!(
        port.index(4).enable_interrupts(&mut gpiote, InterruptEdge::RisingEdge),
        Err(GpioteError::NoChannelAvailable)
    );
    for k in 0..4 {
        assert_eq!(gpiote.config(k).psel, k as u32);
    }
}

#[test]
fn released_channel_is_reused_lowest_first() {
    let (port, _) = port_of_five();
    let mut gpiote = Gpiote::new(4);
    for k in 0..4 {
        port.index(k).enable_interrupts(&mut gpiote, InterruptEdge::FallingEdge).unwrap();
    }
    port.index(1).disable_interrupts(&mut gpiote);
    assert_eq!(gpiote.config(1), disabled());
    assert!(!gpiote.is_interrupt_enabled(1));
    assert_eq!(port.index(4).enable_interrupts(&mut gpiote, InterruptEdge::EitherEdge), Ok(1));
    assert_eq!(gpiote.config(1), event(4, Polarity::Toggle));
}

#[test]
fn interrupt_services_only_the_fired_channel() {
    let (port, counters) = port_of_five();
    let mut gpiote = Gpiote::new(4);
    for k in 0..4 {
        port.index(k).enable_interrupts(&mut gpiote, InterruptEdge::RisingEdge).unwrap();
    }
    gpiote.latch_event(2);
    let routed = port.handle_interrupt(&mut gpiote);
    assert_eq!(routed, vec![2]);
    assert!(!gpiote.is_event_pending(2));
    assert_eq!(counters[2].get(), 1);
    for k in [0usize, 1, 3, 4] {
        assert_eq!(counters[k].get(), 0);
    }
    for k in 0..4 {
        assert_eq!(gpiote.config(k), event(k as u32, Polarity::LoToHi));
        assert!(gpiote.is_interrupt_enabled(k));
    }
}

#[test]
fn not_pending_without_an_event() {
    let (port, _) = port_of_five();
    let mut gpiote = Gpiote::new(4);
    port.index(0).enable_interrupts(&mut gpiote, InterruptEdge::RisingEdge).unwrap();
    assert!(!port.index(0).is_pending(&gpiote));
    gpiote.latch_event(0);
    assert!(port.index(0).is_pending(&gpiote));
    assert!(!port.index(1).is_pending(&gpiote));
}

#[test]
fn allocation_after_pool_size_fails() {
    for n in [0usize, 1, 4, 8] {
        let mut gpiote = Gpiote::new(n);
        for k in 0..n {
            assert_eq!(gpiote.allocate_for(10 + k as u32, Polarity::LoToHi), Ok(k));
        }
        assert_eq!(gpiote.allocate(), Err(GpioteError::NoChannelAvailable));
        assert_eq!(gpiote.allocate_for(99, Polarity::LoToHi), Err(GpioteError::NoChannelAvailable));
    }
}

#[test]
fn allocate_returns_lowest_free_channel() {
    let mut gpiote = Gpiote::new(8);
    for k in 0..8 {
        gpiote.allocate_for(k as u32, Polarity::HiToLo).unwrap();
    }
    gpiote.release(5);
    gpiote.release(2);
    gpiote.release(6);
    assert_eq!(gpiote.allocate(), Ok(2));
    assert_eq!(gpiote.allocate(), Ok(2));
    assert_eq!(gpiote.allocate_for(40, Polarity::HiToLo), Ok(2));
    assert_eq!(gpiote.allocate(), Ok(5));
}

#[test]
fn find_after_release_is_not_found() {
    let mut gpiote = Gpiote::new(4);
    let i = gpiote.allocate_for(0, Polarity::LoToHi).unwrap();
    assert_eq!(gpiote.find(0), Ok(i));
    let owner = gpiote.config(i).psel;
    gpiote.release(i);
    assert_eq!(gpiote.find(owner), Err(GpioteError::NotFound));
}

#[test]
fn fresh_pool_owns_no_pin() {
    let gpiote = Gpiote::new(4);
    assert_eq!(gpiote.find(0), Err(GpioteError::NotFound));
    assert_eq!(gpiote.find(7), Err(GpioteError::NotFound));
}

#[test]
fn find_keeps_channel_until_release() {
    let mut gpiote = Gpiote::new(4);
    gpiote.allocate_for(3, Polarity::LoToHi).unwrap();
    let i = gpiote.allocate_for(9, Polarity::LoToHi).unwrap();
    assert_eq!(i, 1);
    assert_eq!(gpiote.find(9), Ok(1));
    gpiote.allocate_for(12, Polarity::Toggle).unwrap();
    gpiote.release(0);
    gpiote.allocate_for(20, Polarity::HiToLo).unwrap();
    assert_eq!(gpiote.find(9), Ok(1));
    gpiote.release(1);
    assert_eq!(gpiote.find(9), Err(GpioteError::NotFound));
}

#[test]
fn interrupt_clears_all_flags_and_notifies_each_once() {
    let (port, counters) = port_of_five();
    let mut gpiote = Gpiote::new(4);
    for k in [3usize, 1, 4] {
        port.index(k).enable_interrupts(&mut gpiote, InterruptEdge::EitherEdge).unwrap();
    }
    for i in 0..4 {
        gpiote.latch_event(i);
    }
    let routed = port.handle_interrupt(&mut gpiote);
    assert_eq!(routed, vec![3, 1, 4]);
    for i in 0..4 {
        assert!(!gpiote.is_event_pending(i));
    }
    assert_eq!(counters[3].get(), 1);
    assert_eq!(counters[1].get(), 1);
    assert_eq!(counters[4].get(), 1);
    assert_eq!(counters[0].get(), 0);
    assert_eq!(port.handle_interrupt(&mut gpiote), Vec::<usize>::new());
    assert_eq!(counters[3].get(), 1);
}

#[test]
fn pin_without_client_is_cleared_silently() {
    let port: Port<Recorder> = Port { pins: vec![GPIOPin::new(Pin::P0_00), GPIOPin::new(Pin::P0_01)] };
    let mut gpiote = Gpiote::new(4);
    port.index(1).enable_interrupts(&mut gpiote, InterruptEdge::RisingEdge).unwrap();
    gpiote.latch_event(0);
    assert_eq!(port.handle_interrupt(&mut gpiote), vec![1]);
    assert!(!gpiote.is_event_pending(0));
}

#[test]
fn unowned_or_unknown_channel_is_ignored() {
    let (port, counters) = port_of_five();
    let mut gpiote = Gpiote::new(4);
    gpiote.allocate_for(40, Polarity::LoToHi).unwrap();
    gpiote.latch_event(0);
    gpiote.latch_event(3);
    assert_eq!(port.handle_interrupt(&mut gpiote), Vec::<usize>::new());
    assert!(!gpiote.is_event_pending(0));
    assert!(!gpiote.is_event_pending(3));
    assert_eq!(counters[0].get(), 0);
}

#[test]
fn disable_twice_changes_nothing_more() {
    let (port, _) = port_of_five();
    let mut gpiote = Gpiote::new(4);
    port.index(0).enable_interrupts(&mut gpiote, InterruptEdge::RisingEdge).unwrap();
    port.index(2).enable_interrupts(&mut gpiote, InterruptEdge::FallingEdge).unwrap();
    gpiote.latch_event(1);
    port.index(2).disable_interrupts(&mut gpiote);
    let once: Vec<(ChannelConfig, bool, bool)> =
        (0..4).map(|i| (gpiote.config(i), gpiote.is_event_pending(i), gpiote.is_interrupt_enabled(i))).collect();
    port.index(2).disable_interrupts(&mut gpiote);
    let twice: Vec<(ChannelConfig, bool, bool)> =
        (0..4).map(|i| (gpiote.config(i), gpiote.is_event_pending(i), gpiote.is_interrupt_enabled(i))).collect();
    assert_eq!(once, twice);
    assert_eq!(once[1], (disabled(), false, false));
    assert_eq!(once[0], (event(0, Polarity::LoToHi), false, true));
}

#[test]
fn reenable_reuses_held_channel() {
    let (port, _) = port_of_five();
    let mut gpiote = Gpiote::new(4);
    port.index(3).enable_interrupts(&mut gpiote, InterruptEdge::RisingEdge).unwrap();
    assert_eq!(port.index(3).enable_interrupts(&mut gpiote, InterruptEdge::FallingEdge), Ok(0));
    assert_eq!(gpiote.config(0), event(3, Polarity::HiToLo));
    assert_eq!(gpiote.config(1), disabled());
    assert_eq!(gpiote.allocate(), Ok(1));
}

#[test]
fn encoded_numbers_cross_ports() {
    assert_eq!(Pin::P0_00.index(), 0);
    assert_eq!(Pin::P0_31.index(), 31);
    assert_eq!(Pin::P1_00.index(), 32);
    assert_eq!(Pin::P1_15.index(), 47);
    let p: GPIOPin<Recorder> = GPIOPin::new(Pin::P1_05);
    assert_eq!(p.encoded_pin(), 37);
    let mut gpiote = Gpiote::new(8);
    assert_eq!(p.enable_interrupts(&mut gpiote, InterruptEdge::FallingEdge), Ok(0));
    assert_eq!(gpiote.config(0), event(37, Polarity::HiToLo));
}

#[test]
fn pull_settings_round_trip() {
    let p: GPIOPin<Recorder> = GPIOPin::new(Pin::P0_07);
    let mut regs = GpioRegisters::new();
    assert_eq!(p.read_config(&regs), Some(Pull::Disabled));
    assert_eq!(p.floating_state(&regs), FloatingState::PullNone);
    p.set_floating_state(&mut regs, FloatingState::PullUp);
    assert_eq!(p.read_config(&regs), Some(Pull::Pullup));
    assert_eq!(p.floating_state(&regs), FloatingState::PullUp);
    p.write_config(&mut regs, Pull::Pulldown);
    assert_eq!(p.floating_state(&regs), FloatingState::PullDown);
    let q: GPIOPin<Recorder> = GPIOPin::new(Pin::P0_08);
    assert_eq!(q.read_config(&regs), Some(Pull::Disabled));
    p.deactivate_to_low_power(&mut regs);
    assert_eq!(p.read_config(&regs), Some(Pull::Disabled));
}

#[test]
fn direction_and_levels() {
    let p: GPIOPin<Recorder> = GPIOPin::new(Pin::P1_03);
    let q: GPIOPin<Recorder> = GPIOPin::new(Pin::P1_04);
    let mut regs = GpioRegisters::new();
    assert_eq!(p.configuration(&regs), Configuration::Input);
    assert_eq!(p.make_output(&mut regs), Configuration::Output);
    assert_eq!(p.configuration(&regs), Configuration::Output);
    assert_eq!(q.configuration(&regs), Configuration::Input);
    assert_eq!(p.disable_output(&mut regs), Configuration::Input);
    assert_eq!(p.configuration(&regs), Configuration::Input);
    assert_eq!(p.disable_input(&mut regs), Configuration::Output);
    assert_eq!(p.make_input(&mut regs), Configuration::Input);

    p.set(&mut regs);
    assert!(regs.out_level(3));
    assert!(!regs.out_level(4));
    assert!(!p.toggle(&mut regs));
    assert!(!regs.out_level(3));
    assert!(p.toggle(&mut regs));
    q.set(&mut regs);
    p.clear(&mut regs);
    assert!(!regs.out_level(3));
    assert!(regs.out_level(4));

    regs.sample_input(1 << 3);
    assert!(p.read(&regs));
    assert!(!q.read(&regs));
}

#[test]
fn client_attached_through_port_is_notified() {
    let mut port: Port<Recorder> =
        Port { pins: vec![GPIOPin::new(Pin::P0_00), GPIOPin::new(Pin::P0_01)] };
    let count = Rc::new(Cell::new(0));
    port.index_mut(1).set_client(Recorder(count.clone()));
    let mut gpiote = Gpiote::new(4);
    port.index(1).enable_interrupts(&mut gpiote, InterruptEdge::RisingEdge).unwrap();
    gpiote.latch_event(0);
    assert_eq!(port.handle_interrupt(&mut gpiote), vec![1]);
    assert_eq!(count.get(), 1);
    gpiote.latch_event(0);
    gpiote.clear_event(0);
    assert_eq!(port.handle_interrupt(&mut gpiote), Vec::<usize>::new());
    assert_eq!(count.get(), 1);
}
