//! Verified core of a laser-trip game controller's ingestion engine.
//!
//! A background worker reads newline-delimited telemetry from a sensor
//! device, classifies each line into a frame, debounces repeated control
//! events, and maintains the authoritative game state (which lasers are
//! tripped, whether a round is active).  Everything here is pure logic:
//! the serial connection, the audio backend and the UI live outside and
//! exchange plain values with this crate.

use vstd::prelude::*;

pub mod audio;
pub mod debounce;
pub mod frame;
pub mod game;
pub mod supervisor;
pub mod worker;

verus! {

/// Latest telemetry values, overwritten wholesale on every accepted
/// telemetry frame; no history is retained.
pub struct SensorData {
    pub values: Vec<u16>,
}

impl SensorData {
    /// A fresh snapshot holds no values.
    pub fn new() -> (s: Self)
        ensures
            s.values@ == Seq::<u16>::empty(),
    {
        Self { values: Vec::new() }
    }

    /// Replace the snapshot with the newest telemetry values.
    pub fn update(&mut self, new_values: Vec<u16>)
        ensures
            final(self).values@ == new_values@,
    {
        self.values = new_values;
    }
}

} // verus!
