//! GPIO pins and the shared GPIOTE event-channel pool of the nRF5x family.
//!
//! The peripheral cannot raise an interrupt for a GPIO line by itself: a pin
//! has to be bound to one of a handful of GPIOTE channels first.  This crate
//! holds the register state of that pool as plain values and proves the
//! allocation, lookup, release and interrupt-routing logic over it.
pub mod gpio;
pub mod gpiote;
pub mod pin;
pub mod port;
