//! A deterministic runtime for many small 16-bit virtual machines that run in
//! lockstep and exchange messages.
//!
//! A [`Sequencer`] owns the machines. The host steps one machine at a time,
//! carries the messages from outbox to inbox, and performs the events that
//! the machines queue. A [`Controller`] wraps a sequencer for a host that
//! polls.
//!
//! Every function states what it does over mathematical values: a machine
//! as a `MachineView`, a sequencer as a `SequencerView`. The module `laws`
//! holds what follows for every machine and every sequencer.

pub mod controller;
pub mod error;
pub mod event;
pub mod laws;
pub mod machine;
pub mod memory;
pub mod message;
pub mod op;
pub mod parser;
pub mod program;
pub mod register;
pub mod segments;
pub mod semantics;
pub mod sequencer;
pub mod status;
pub mod text;

pub use controller::{Controller, InspectedMachine, InspectedRegister, MachineSnapshot};
pub use error::{ExecError, ParseError, SequencerError};
pub use event::Event;
pub use machine::Machine;
pub use memory::Memory;
pub use message::{Action, Message, Port};
pub use op::Op;
pub use program::{Program, Symbol, Symbols};
pub use register::{Register, Registers};
pub use sequencer::{peers_halted, Sequencer};
pub use status::MachineStatus;
