//! Bridge between a per-quantum audio rendering callback and the control
//! thread that commands it.
//!
//! * [`buffer`] and [`params`] hold the samples and the automation of one
//!   render quantum in a layout that is fixed at construction.
//! * [`message`] holds the queue of events on their way to the control side
//!   and the messages that the bridge keeps for itself.
//! * [`module`] is what a processing module implements.
//! * [`options`] validates the construction options of the host.
//! * [`processor`] drives one module: it dispatches inbound messages,
//!   renders one quantum at a time and tells the host when to stop.
//! * [`bootstrap`] writes the two scripts that bring a compiled module into
//!   the rendering context.
//!
//! Samples travel through this crate as the bit patterns of 32-bit floats,
//! so that every buffer operation is a statement about integers. The crate
//! performs no input or output of its own: the host hands it plain values
//! and carries out what it decides.

pub mod bootstrap;
pub mod buffer;
pub mod message;
pub mod module;
pub mod options;
pub mod params;
pub mod processor;
