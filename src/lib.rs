//! Telemetry and control core of a remotely driven ground vehicle: the wire
//! framing of sensor readings, the per-sensor send loop, the decoder of the
//! operator's control stream and the actuation state machine.
pub mod car;
pub mod control;
pub mod frame;
pub mod sensor;
pub mod settings;
pub mod wire;
