//! Sensor readout for Apple machines: the `AppleSMC` key protocol and the IOReport energy
//! rollup, as verified code that makes no system calls.

pub mod connection;
pub mod energy;
pub mod fourcc;
pub mod meter;
pub mod numeric;
pub mod options;
pub mod packet;
pub mod runs;
pub mod sensors;
pub mod text;
pub mod units;
pub mod wire;
