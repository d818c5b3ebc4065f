//! User input: the actions the controller accepts, the mapping from key
//! presses to actions, and the consumer end of the input channel.
//!
//! A separate input thread polls the terminal and sends one action per
//! mapped key press, plus a `Tick` whenever the poll times out, so the
//! controller never blocks longer than one render interval.

use std::sync::mpsc::Receiver;
use std::sync::mpsc::RecvError;
use std::sync::mpsc::Sender;

use vstd::prelude::*;

verus! {

/// One user input action.
#[derive(Clone, Copy, Debug, PartialEq, Eq, Structural)]
pub enum InputEventType {
    /// End the loop without waiting for in-flight tasks.
    Quit,
    /// Move the cursor up, cyclically.
    Up,
    /// Move the cursor down, cyclically.
    Down,
    /// Delete the selected entry, if it is ready.
    Select,
    /// Nothing happened within one poll interval; render and wait again.
    Tick,
}

/// A key press reduced to what the mapping reads: a printable character, an
/// arrow key, or any other key.
#[derive(Clone, Copy, Debug, PartialEq, Eq, Structural)]
pub enum KeyPress {
    /// A character key.
    Character(char),
    /// The up-arrow key.
    UpArrow,
    /// The down-arrow key.
    DownArrow,
    /// Any other key.
    Other,
}

/// Maps a key press to the action it stands for: `q` quits, the arrows move
/// the cursor, space deletes, and every other key does nothing.
pub fn map_input_to_event(input_code: &KeyPress) -> (r: Option<InputEventType>)
    ensures
        r == (match *input_code {
            KeyPress::Character(c) => if c == 'q' {
                Some(InputEventType::Quit)
            } else if c == ' ' {
                Some(InputEventType::Select)
            } else {
                None
            },
            KeyPress::UpArrow => Some(InputEventType::Up),
            KeyPress::DownArrow => Some(InputEventType::Down),
            KeyPress::Other => None::<InputEventType>,
        }),
{
    match input_code {
        KeyPress::Character('q') => Some(InputEventType::Quit),
        KeyPress::UpArrow => Some(InputEventType::Up),
        KeyPress::DownArrow => Some(InputEventType::Down),
        KeyPress::Character(' ') => Some(InputEventType::Select),
        _ => None,
    }
}

/// The receiving half of a channel, as `std::sync::mpsc` has it.
#[verifier::external_type_specification]
#[verifier::external_body]
#[verifier::reject_recursive_types(T)]
pub struct ExReceiver<T>(Receiver<T>);

/// The sending half of a channel, as `std::sync::mpsc` has it.
#[verifier::external_type_specification]
#[verifier::external_body]
#[verifier::reject_recursive_types(T)]
pub struct ExSender<T>(Sender<T>);

/// The error a receive reports when every sender is gone.
#[verifier::external_type_specification]
#[verifier::external_body]
pub struct ExRecvError(RecvError);

/// Relies on std::sync::mpsc::Receiver::recv: blocks until a value is sent
/// or every sender is gone.  Which value arrives depends on the senders, so
/// nothing is stated of the result.
pub assume_specification<T>[ Receiver::<T>::recv ](r: &Receiver<T>) -> Result<T, RecvError>;

/// The consumer end of the input channel.  The input thread itself — the
/// producer that polls the terminal — runs outside; one extra producer
/// handle is kept here so the channel outlives a finished input thread.
pub struct InputEvent {
    rx: Receiver<InputEventType>,
    _tx: Sender<InputEventType>,
}

impl InputEvent {
    /// Wraps the two channel ends the input thread was set up with.
    pub fn new(rx: Receiver<InputEventType>, tx: Sender<InputEventType>) -> InputEvent {
        InputEvent { rx, _tx: tx }
    }

    /// Blocks until the next input action arrives, or reports that the
    /// channel closed.
    pub fn next(&self) -> Result<InputEventType, RecvError> {
        self.rx.recv()
    }
}

} // verus!
