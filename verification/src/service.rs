//! The daemon as a Windows service: how it is entered with the service manager,
//! and what it makes of the manager's calls.

use crate::system::{request_stop, StopFlag};
use crate::text::join2;
use vstd::prelude::*;

verus! {

/// The service's name at the service manager.
pub const SERVICE_NAME: &'static str = "BlueHashAgent";

/// The service's name as users see it.
pub const DISPLAY_NAME: &'static str = "BlueHash Identity Agent";

/// What the service is, as users see it.
pub const DESCRIPTION: &'static str = "Hardware-bound identity agent for BlueHash. Manages encryption keys, file watching, and broker sync.";

/// The system's error code when the program was not started by the service
/// manager.
pub const ERROR_NOT_UNDER_SCM: i32 = 1063;

/// Why the program could not be handed to the service manager.
#[derive(Debug)]
pub struct DispatchError {
    /// The system's error code, where a system call failed and left one.
    pub os_code: Option<i32>,
    pub message: String,
}

/// What the outcome of handing the program to the service manager means: `true`
/// when it ran as a service and is done, `false` when it was not started by the
/// service manager and is to run by itself.
pub fn try_dispatch(started: Result<(), DispatchError>) -> (r: Result<bool, String>)
    ensures
        match started {
            Ok(_) => r == Ok::<bool, String>(true),
            Err(e) => if e.os_code == Some(ERROR_NOT_UNDER_SCM) {
                r == Ok::<bool, String>(false)
            } else {
                r is Err && r->Err_0@ == "service_dispatcher::start failed: "@ + e.message@
            },
        },
{
    match started {
        Ok(_) => Ok(true),
        Err(e) => match e.os_code {
            Some(code) if code == ERROR_NOT_UNDER_SCM => Ok(false),
            _ => Err(join2("service_dispatcher::start failed: ", &e.message)),
        },
    }
}

/// What the service manager tells a service.
#[derive(Debug, Clone, Copy, PartialEq, Eq, Structural)]
pub enum Control {
    Interrogate,
    Stop,
    Shutdown,
    /// Anything else.
    Other,
}

/// What the service answers.
#[derive(Debug, Clone, Copy, PartialEq, Eq, Structural)]
pub enum ControlReply {
    NoError,
    NotImplemented,
}

/// Does what the service manager tells: it can ask, stop the daemon, and no
/// more.
pub fn control(flag: &mut StopFlag, told: Control) -> (r: ControlReply)
    ensures
        final(flag).stop == (old(flag).stop || told == Control::Stop || told == Control::Shutdown),
        r == (if told == Control::Other {
            ControlReply::NotImplemented
        } else {
            ControlReply::NoError
        }),
{
    match told {
        Control::Interrogate => ControlReply::NoError,
        Control::Stop => {
            request_stop(flag);
            ControlReply::NoError
        },
        Control::Shutdown => {
            request_stop(flag);
            ControlReply::NoError
        },
        Control::Other => ControlReply::NotImplemented,
    }
}

/// What the service reports of itself.
#[derive(Debug, Clone, Copy, PartialEq, Eq, Structural)]
pub struct ServiceReport {
    pub running: bool,
    pub accepts_stop: bool,
    pub accepts_shutdown: bool,
    pub exit_code: u32,
    pub checkpoint: u32,
}

/// The report while the daemon runs, and the one when it has stopped.
pub fn report(running: bool) -> (r: ServiceReport)
    ensures
        r == (ServiceReport {
            running,
            accepts_stop: true,
            accepts_shutdown: true,
            exit_code: 0,
            checkpoint: 0,
        }),
{
    ServiceReport {
        running,
        accepts_stop: true,
        accepts_shutdown: true,
        exit_code: 0,
        checkpoint: 0,
    }
}

} // verus!
