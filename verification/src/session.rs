//! Which kind of session the compositor runs in.

use vstd::prelude::*;

verus! {

/// A backend that the user asked for.
#[derive(Clone, Copy, PartialEq, Eq, Structural, Debug)]
pub enum Session {
    Winit,
    Udev,
}

/// The kind of session that the compositor is started from.
#[derive(Debug)]
pub enum SessionType {
    TTY,
    Wayland,
    Other(String),
}

/// The session type for a choice of the user's and the session type that the
/// environment names.
pub open spec fn session_type_is(
    session: SessionType,
    custom: Option<Session>,
    environment: Option<String>,
) -> bool {
    match custom {
        Some(Session::Winit) => session is Wayland,
        Some(Session::Udev) => session is TTY,
        None => {
            let named = environment->0@;
            if named == "tty"@ {
                session is TTY
            } else if named == "wayland"@ {
                session is Wayland
            } else {
                session matches SessionType::Other(other) && other@ == named
            }
        },
    }
}

/// The user's choice decides; without one it is the session type that the
/// environment names, which then has to be there.
pub fn define_session_type(custom: Option<Session>, environment: Option<String>) -> (session:
    SessionType)
    requires
        custom is None ==> environment is Some,
    ensures
        session_type_is(session, custom, environment),
{
    if let Some(custom) = custom {
        return match custom {
            Session::Winit => SessionType::Wayland,
            Session::Udev => SessionType::TTY,
        };
    }
    let named = environment.unwrap();
    proof {
        reveal_strlit("tty");
        reveal_strlit("wayland");
    }
    if named == "tty".to_owned() {
        SessionType::TTY
    } else if named == "wayland".to_owned() {
        SessionType::Wayland
    } else {
        SessionType::Other(named)
    }
}

} // verus!
