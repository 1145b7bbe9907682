//! Connection status of the controller link, as the front end sees it.

use vstd::prelude::*;

verus! {

/// Connection status.
#[derive(Debug, Clone, Copy, PartialEq, Eq, Structural)]
pub enum StatusKind {
    Connecting,
    Online,
    Reconnecting,
    Offline,
}

/// The status name sent with the `plc::status` event.
pub open spec fn status_name(s: StatusKind) -> Seq<char> {
    match s {
        StatusKind::Connecting => "connecting"@,
        StatusKind::Online => "online"@,
        StatusKind::Reconnecting => "reconnecting"@,
        StatusKind::Offline => "offline"@,
    }
}

impl StatusKind {
    /// The status name.
    pub fn as_str(self) -> (s: &'static str)
        ensures
            s@ == status_name(self),
    {
        match self {
            StatusKind::Connecting => "connecting",
            StatusKind::Online => "online",
            StatusKind::Reconnecting => "reconnecting",
            StatusKind::Offline => "offline",
        }
    }
}

} // verus!
