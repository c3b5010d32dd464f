//! Mode selection: a configured, non-empty remote address switches the
//! system into client mode; otherwise the embedded engine is used.

use vstd::prelude::*;

verus! {

/// How the store is reached.
pub enum Mode {
    /// Speak the wire protocol to the given address.
    Remote(String),
    /// Run the in-process engine.
    Embedded,
}

/// Decides the mode from the configured remote address, if any.
pub fn choose_mode(remote_addr: Option<String>) -> (r: Mode)
    ensures
        match remote_addr {
            Some(a) => {
                if a@.len() > 0 {
                    r == Mode::Remote(a)
                } else {
                    r == Mode::Embedded
                }
            },
            None => r == Mode::Embedded,
        },
{
    match remote_addr {
        Some(a) => {
            if a.as_str().unicode_len() > 0 {
                Mode::Remote(a)
            } else {
                Mode::Embedded
            }
        },
        None => Mode::Embedded,
    }
}

} // verus!
