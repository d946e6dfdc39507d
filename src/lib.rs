//! Verified core of a bit-serial stereo audio streaming pipeline: clock
//! configuration, waveform producers, the serial sequencer's state table,
//! a double-buffer transfer engine and the refill control loop.
pub mod clock;
pub mod oscillator;
pub mod sequencer;
pub mod transfer;
pub mod stream;
