//! A mapped toplevel and its configure handshake.

use vstd::prelude::*;

use crate::geometry::Size;

verus! {

/// Who draws the decorations of a toplevel.
#[derive(Clone, Copy, PartialEq, Eq, Structural, Debug)]
pub enum DecorationMode {
    ClientSide,
    ServerSide,
}

/// The part of a toplevel's pending state that the compositor sets.
#[derive(Clone, Copy, PartialEq, Eq, Structural, Debug)]
pub struct ToplevelState {
    pub size: Option<Size>,
    pub activated: bool,
    pub resizing: bool,
    pub decoration_mode: Option<DecorationMode>,
}

/// A state in which nothing has been asked of the client.
pub open spec fn blank_state() -> ToplevelState {
    ToplevelState { size: None, activated: false, resizing: false, decoration_mode: None }
}

impl ToplevelState {
    /// A state in which nothing has been asked of the client.
    pub fn new() -> (state: Self)
        ensures
            state == blank_state(),
    {
        ToplevelState { size: None, activated: false, resizing: false, decoration_mode: None }
    }

    /// The state after a change.
    pub open spec fn edited(self, edit: PendingEdit) -> Self {
        match edit {
            PendingEdit::Decoration(mode) => ToplevelState { decoration_mode: mode, ..self },
            PendingEdit::Resizing(resizing) => ToplevelState { resizing, ..self },
        }
    }

    /// Makes a change.
    pub fn edit(&mut self, edit: PendingEdit)
        ensures
            *final(self) == old(self).edited(edit),
    {
        match edit {
            PendingEdit::Decoration(mode) => {
                self.decoration_mode = mode;
            },
            PendingEdit::Resizing(resizing) => {
                self.resizing = resizing;
            },
        }
    }
}

/// A change of a toplevel's pending state that is sent at once, outside the
/// configure handshake.
#[derive(Clone, Copy, PartialEq, Eq, Structural, Debug)]
pub enum PendingEdit {
    /// Who draws the decorations, as far as that is settled.
    Decoration(Option<DecorationMode>),
    /// Whether an interactive resize is under way.
    Resizing(bool),
}

/// What an acknowledgement from a client amounted to.
#[derive(Clone, Copy, PartialEq, Eq, Structural, Debug)]
pub enum AckOutcome {
    /// No acknowledgement was awaited.
    NotWaiting,
    /// The awaited serial came back.
    Confirmed,
    /// Another serial than the awaited one came back.
    IncorrectSerial,
    /// An acknowledgement was awaited, but no serial is known.
    NoSerial,
}

/// A toplevel that is mapped, with the state of its configure handshake: after
/// a configure has been sent, the next one waits until the client has
/// acknowledged its serial.
#[derive(Clone, Copy, PartialEq, Eq, Structural, Debug)]
pub struct MappedWindow {
    /// The surface of the window's toplevel.
    pub window: u64,
    pub pending: ToplevelState,
    pub has_pending_changes: bool,
    pub wait_ack_configure: bool,
    pub next_configure_serial: Option<u32>,
}

impl MappedWindow {
    /// The window awaits an acknowledgement exactly while it knows the serial
    /// that has to come back.
    pub open spec fn wf(self) -> bool {
        self.wait_ack_configure == (self.next_configure_serial is Some)
    }

    /// A configure may be sent: something changed and no acknowledgement is
    /// outstanding.
    pub open spec fn configure_due(self) -> bool {
        self.has_pending_changes && !self.wait_ack_configure
    }

    /// The window after the configure step in which the client connection
    /// answered `reply`: the serial of the configure that was sent, or `None`
    /// where there was nothing to send.
    pub open spec fn configured(self, reply: Option<u32>) -> Self {
        if self.configure_due() && reply is Some {
            MappedWindow { next_configure_serial: reply, wait_ack_configure: true, ..self }
        } else {
            self
        }
    }

    /// The window after an acknowledgement of `serial`.
    pub open spec fn acked(self, serial: u32) -> Self {
        if self.wait_ack_configure && self.next_configure_serial == Some(serial) {
            MappedWindow { next_configure_serial: None, wait_ack_configure: false, ..self }
        } else {
            self
        }
    }

    /// What an acknowledgement of `serial` amounts to.
    pub open spec fn ack_outcome(self, serial: u32) -> AckOutcome {
        if !self.wait_ack_configure {
            AckOutcome::NotWaiting
        } else {
            match self.next_configure_serial {
                None => AckOutcome::NoSerial,
                Some(awaited) => if awaited == serial {
                    AckOutcome::Confirmed
                } else {
                    AckOutcome::IncorrectSerial
                },
            }
        }
    }

    pub fn new(window: u64) -> (mapped: Self)
        ensures
            mapped == (MappedWindow {
                window,
                pending: blank_state(),
                has_pending_changes: false,
                wait_ack_configure: false,
                next_configure_serial: None,
            }),
            mapped.wf(),
    {
        MappedWindow {
            window,
            pending: ToplevelState::new(),
            has_pending_changes: false,
            wait_ack_configure: false,
            next_configure_serial: None,
        }
    }

    /// The window with a rewritten pending state, which the next configure
    /// carries.
    pub open spec fn with_pending(self, pending: ToplevelState) -> Self {
        MappedWindow { pending, has_pending_changes: true, ..self }
    }

    /// The window after its client was asked for a size.
    pub open spec fn with_size(self, width: i32, height: i32) -> Self {
        self.with_pending(
            ToplevelState { size: Some(Size { width, height }), ..self.pending },
        )
    }

    /// Asks the client for a size with the next configure.
    pub fn set_window_size(&mut self, width: i32, height: i32)
        ensures
            *final(self) == old(self).with_size(width, height),
            final(self).pending.size == Some(Size { width, height }),
            final(self).pending.activated == old(self).pending.activated,
            final(self).pending.resizing == old(self).pending.resizing,
            final(self).pending.decoration_mode == old(self).pending.decoration_mode,
            final(self).has_pending_changes,
    {
        self.pending.size = Some(Size { width, height });
        self.has_pending_changes = true;
    }

    /// The window after it was activated or deactivated.
    pub open spec fn with_activated(self, activated: bool) -> Self {
        MappedWindow { pending: ToplevelState { activated, ..self.pending }, ..self }
    }

    /// Activates or deactivates the window. That alone makes no configure due.
    pub fn set_activated(&mut self, activated: bool)
        ensures
            *final(self) == old(self).with_activated(activated),
            final(self).pending.activated == activated,
    {
        self.pending.activated = activated;
    }

    /// Rewrites the pending state; the next configure carries the result.
    pub fn with_pending_state<F: FnOnce(ToplevelState) -> ToplevelState>(&mut self, f: F)
        requires
            f.requires((old(self).pending,)),
        ensures
            f.ensures((old(self).pending,), final(self).pending),
            *final(self) == old(self).with_pending(final(self).pending),
    {
        let pending = f(self.pending);
        self.pending = pending;
        self.has_pending_changes = true;
    }

    /// Whether the configure step has anything to hand to the client
    /// connection. Where it has not, the connection is not asked to send.
    pub fn wants_configure(&self) -> (due: bool)
        ensures
            due == self.configure_due(),
    {
        self.has_pending_changes && !self.wait_ack_configure
    }

    /// The configure step. `reply` is what the client connection answered: the
    /// serial of the configure that it sent, or `None` where its pending state
    /// held nothing new. From a sent configure on, no further one is due until
    /// its serial is acknowledged.
    pub fn send_pending_configure(&mut self, reply: Option<u32>)
        ensures
            *final(self) == old(self).configured(reply),
            old(self).wf() ==> final(self).wf(),
    {
        if self.has_pending_changes && !self.wait_ack_configure {
            if let Some(serial) = reply {
                self.next_configure_serial = Some(serial);
                self.wait_ack_configure = true;
            }
        }
    }

    /// An acknowledgement from the client. Only the awaited serial has an
    /// effect: it lets the next configure through.
    pub fn ack_configure(&mut self, serial: u32) -> (outcome: AckOutcome)
        ensures
            *final(self) == old(self).acked(serial),
            outcome == old(self).ack_outcome(serial),
            old(self).wf() ==> final(self).wf(),
    {
        if !self.wait_ack_configure {
            return AckOutcome::NotWaiting;
        }
        if let Some(awaited) = self.next_configure_serial {
            if awaited == serial {
                self.next_configure_serial = None;
                self.wait_ack_configure = false;
                AckOutcome::Confirmed
            } else {
                AckOutcome::IncorrectSerial
            }
        } else {
            AckOutcome::NoSerial
        }
    }

    /// The surface of the window's toplevel.
    pub fn toplevel(&self) -> (surface: u64)
        ensures
            surface == self.window,
    {
        self.window
    }

    /// The window itself, which is known by the surface of its toplevel.
    pub fn window(&self) -> (window: u64)
        ensures
            window == self.window,
    {
        self.window
    }
}

} // verus!
