//! Passing bytes between a terminal and ssh, through the line editor.

use vstd::prelude::*;

use crate::local_echo::EchoState;
use crate::local_echo::LocalEcho;
use crate::local_echo::RelayAction;

verus! {

/// What ends input on a terminal: Ctrl-D.
pub const END_OF_INPUT: u8 = 0x04;

/// A relay between a terminal and ssh.
#[derive(Debug)]
pub struct Relay {
    editor: LocalEcho,
    input_open: bool,
    last_size: Option<(u16, u16)>,
}

/// The state of a relay.
pub struct RelayState {
    pub editor: EchoState,
    /// Whether there may be more input.
    pub input_open: bool,
    /// The size that ssh was last told, in rows and columns.
    pub last_size: Option<(u16, u16)>,
}

impl View for Relay {
    type V = RelayState;

    closed spec fn view(&self) -> RelayState {
        RelayState {
            editor: self.editor@,
            input_open: self.input_open,
            last_size: self.last_size,
        }
    }
}

/// A relay when it starts: lines are edited, and nothing was typed yet.
pub open spec fn started(size: Option<(u16, u16)>) -> RelayState {
    RelayState {
        editor: crate::local_echo::fresh_editor(true),
        input_open: true,
        last_size: size,
    }
}

/// What a size of the terminal does: the new state, and whether ssh has to be told.
pub open spec fn sized(s: RelayState, size: Option<(u16, u16)>) -> (RelayState, bool) {
    match size {
        Some(now) => (RelayState { last_size: size, ..s }, s.last_size != Some(now)),
        None => (s, false),
    }
}

/// What some input does: the new state, what goes to ssh, and what to the terminal.
/// Nothing means that input is over.
pub open spec fn read_in(s: RelayState, data: Seq<u8>) -> (RelayState, Seq<u8>, Seq<u8>) {
    if data.len() == 0 {
        (RelayState { input_open: false, ..s }, seq![END_OF_INPUT], Seq::empty())
    } else {
        let (editor, remote, terminal) = crate::local_echo::typed(s.editor, data);
        (RelayState { editor, ..s }, remote, terminal)
    }
}

/// What some output does: the new state, and what goes to the terminal. Nothing means
/// that ssh is over.
pub open spec fn read_out(s: RelayState, data: Seq<u8>) -> (RelayState, Option<Seq<u8>>) {
    if data.len() == 0 {
        (s, None)
    } else {
        let (editor, terminal) = crate::local_echo::received(s.editor, data);
        (RelayState { editor, ..s }, Some(terminal))
    }
}

impl Relay {
    /// A relay that edits lines, for a terminal of this size.
    pub fn new(size: Option<(u16, u16)>) -> (r: Relay)
        ensures
            r@ == started(size),
    {
        Relay { editor: LocalEcho::new(true), input_open: true, last_size: size }
    }

    /// Whether input is still waited for.
    pub fn wants_input(&self) -> (r: bool)
        ensures
            r == self@.input_open,
    {
        self.input_open
    }

    /// Takes the size of the terminal, where it is known. Answers whether ssh has to
    /// be told.
    pub fn resized(&mut self, size: Option<(u16, u16)>) -> (r: bool)
        ensures
            (final(self)@, r) == sized(old(self)@, size),
    {
        match size {
            Some((rows, cols)) => {
                let same = match self.last_size {
                    Some((r, c)) => r == rows && c == cols,
                    None => false,
                };
                self.last_size = size;
                !same
            },
            None => false,
        }
    }

    /// Takes what was read from the terminal. Nothing means that input is over, of
    /// which ssh is told as a terminal would.
    pub fn input(&mut self, data: &[u8]) -> (r: RelayAction)
        ensures
            (final(self)@, r.to_remote@, r.to_terminal@) == read_in(old(self)@, data@),
    {
        if data.len() == 0 {
            self.input_open = false;
            let mut to_remote: Vec<u8> = Vec::new();
            to_remote.push(END_OF_INPUT);
            let r = RelayAction { to_remote, to_terminal: Vec::new() };
            assert(r@.0 =~= seq![END_OF_INPUT]);
            assert(r@.1 =~= Seq::<u8>::empty());
            r
        } else {
            self.editor.on_input(data)
        }
    }

    /// Takes what was read from ssh. Nothing means that it is over.
    pub fn output(&mut self, data: &[u8]) -> (r: Option<RelayAction>)
        ensures
            final(self)@ == read_out(old(self)@, data@).0,
            match r {
                Some(a) => a.to_remote@ == Seq::<u8>::empty() && read_out(old(self)@, data@).1
                    == Some(a.to_terminal@),
                None => read_out(old(self)@, data@).1 is None,
            },
    {
        if data.len() == 0 {
            None
        } else {
            Some(self.editor.on_output(data))
        }
    }
}

} // verus!
