//! Acquisition core of a plant sensor: the reply decoder of an SPI analog
//! converter, a one-shot shutdown signal, the acquisition loop as a state
//! machine, and the configuration that the loop and its sink are built from.

pub mod reading;
pub mod shutdown;
pub mod acquisition;
pub mod config;
