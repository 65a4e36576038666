//! Messages between the server's processes, the protocol that handles to
//! those processes speak, and the process that accepts connections.
use vstd::prelude::*;
use std::sync::mpsc::{Receiver, Sender};

verus! {

/// A message of the basic inter-process protocol.
#[derive(Debug, Clone, Copy, PartialEq, Eq, Structural)]
pub enum IpcMessage {
    Ping,
    Pong,
    Kill,
    Restart,
}

/// Declares `std::sync::mpsc::Sender`, the sending half of a channel, so
/// that the protocol below can name it. Nothing is claimed of it.
#[verifier::external_type_specification]
#[verifier::external_body]
#[verifier::reject_recursive_types(T)]
pub struct ExSender<T>(Sender<T>);

/// Declares `std::sync::mpsc::Receiver`, the receiving half of a channel,
/// so that the protocol below can name it. Nothing is claimed of it.
#[verifier::external_type_specification]
#[verifier::external_body]
#[verifier::reject_recursive_types(T)]
pub struct ExReceiver<T>(Receiver<T>);

/// Handles to separate processes: the basic inter-process communication
/// protocol.
pub trait Ipc {
    /// Connects the process to the two ends of a channel.
    fn connect(&self, tx_rx: (Sender<IpcMessage>, Receiver<IpcMessage>));

    /// A handle to the process' sender.
    fn ipc_sender(&self) -> Sender<IpcMessage>;

    /// Sends a ping.
    fn ping(&self);

    /// Answers a ping.
    fn pong(&self);

    /// Signals it's time for the process to die.
    fn kill(&self);

    /// Asks the process to restart.
    fn restart(&self);
}

/// The process that listens for incoming connections and hands them to the
/// event loop. Its thread runs outside the library.
#[derive(Debug, Clone, Copy, PartialEq, Eq, Structural)]
pub struct ConnectionLoop;

} // verus!
