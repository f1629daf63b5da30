//! The command line: send a directory, or start receiving.
use vstd::prelude::*;

verus! {

/// The parsed command line.
pub struct Cli {
    pub command: Command,
}

/// What the program is asked to do.
pub enum Command {
    StartSender(StartArgs),
    StartReceiver(ReceiverArgs),
}

/// The arguments of the sender: the directory to send, and an optional name.
pub struct StartArgs {
    pub directory: std::path::PathBuf,
    pub name: Option<String>,
}

/// The arguments of the receiver: whether to keep receiving, confirming each
/// transfer through a desktop notification.
pub struct ReceiverArgs {
    pub daemon: bool,
}

impl ReceiverArgs {
    /// How the receiver confirms transfers: through notifications in daemon mode,
    /// on the terminal otherwise.
    pub fn confirm_mode(&self) -> (r: crate::discovery::receiver::ConfirmMode)
        ensures
            r == (if self.daemon {
                crate::discovery::receiver::ConfirmMode::Notification
            } else {
                crate::discovery::receiver::ConfirmMode::Terminal
            }),
    {
        if self.daemon {
            crate::discovery::receiver::ConfirmMode::Notification
        } else {
            crate::discovery::receiver::ConfirmMode::Terminal
        }
    }
}

} // verus!
