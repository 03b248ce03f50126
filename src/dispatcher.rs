//! Where the dispatchers route decoded messages.

use vstd::prelude::*;
use crate::center_message;
use crate::worker_message;

verus! {

/// The route of a worker message.
#[derive(Clone, Copy, PartialEq, Eq, Structural, Debug)]
pub enum WorkerRoute {
    /// To the controller registered for the message's worker id.
    ToController,
    /// Out through the backend connector, to the worker process.
    ToWorker,
    /// Dropped with a warning.
    Drop,
}

/// A worker message that came in from the router: controller and client
/// messages go to the controller; a message for the worker cannot come in.
pub fn route_inbound_worker(dest: worker_message::Dest) -> (r: WorkerRoute)
    ensures
        r == (if dest == worker_message::Dest::Controller || dest == worker_message::Dest::Client {
            WorkerRoute::ToController
        } else {
            WorkerRoute::Drop
        }),
{
    match dest {
        worker_message::Dest::Controller | worker_message::Dest::Client => WorkerRoute::ToController,
        _ => WorkerRoute::Drop,
    }
}

/// A typed worker message handed to the dispatcher: messages for the worker
/// go out to it.
pub fn route_outbound_worker(dest: worker_message::Dest) -> (r: WorkerRoute)
    ensures
        r == (if dest == worker_message::Dest::Controller || dest == worker_message::Dest::Client {
            WorkerRoute::ToController
        } else if dest == worker_message::Dest::Worker {
            WorkerRoute::ToWorker
        } else {
            WorkerRoute::Drop
        }),
{
    match dest {
        worker_message::Dest::Controller | worker_message::Dest::Client => WorkerRoute::ToController,
        worker_message::Dest::Worker => WorkerRoute::ToWorker,
        _ => WorkerRoute::Drop,
    }
}

/// The route of a center message.
#[derive(Clone, Copy, PartialEq, Eq, Structural, Debug)]
pub enum CenterRoute {
    /// Its data is a control message for the control registry.
    Control,
    /// To the entity registered for its entity id.
    Entity,
    /// Dropped with a warning.
    Drop,
}

/// A center message that came in: those for the app go to the control
/// registry (subject `Control`) or to their entity; one for the center cannot
/// come in.
pub fn route_center(dest: center_message::Dest, subject: center_message::Subject) -> (r: CenterRoute)
    ensures
        r == (if dest == center_message::Dest::App {
            if subject == center_message::Subject::Control { CenterRoute::Control } else { CenterRoute::Entity }
        } else {
            CenterRoute::Drop
        }),
{
    match dest {
        center_message::Dest::App => match subject {
            center_message::Subject::Control => CenterRoute::Control,
            _ => CenterRoute::Entity,
        },
        _ => CenterRoute::Drop,
    }
}

} // verus!
