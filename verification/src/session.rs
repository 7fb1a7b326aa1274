//! The per-session state machine.
//!
//! A session holds the working directory, the optional login name and
//! the single data channel. Dispatching a command yields exactly one
//! primary reply, one new state and at most one channel action; the
//! connection loop performs the action (accepting the data connection,
//! streaming a listing) and reports its outcome back through
//! `pasv_done` and `finish_list`.

use vstd::prelude::*;
use crate::command::{Command, SpecCommand};
use crate::numeric::dec_digits;
use crate::numeric::u64_to_string;
use crate::result_code::ResultCode;

verus! {

/// The fixed port the passive-mode listener binds.
pub const DATA_PORT: u16 = 43210;

/// Per-connection state: the single mutable entity of the protocol
/// engine.
pub struct Session {
    pub working_directory: String,
    pub username: Option<String>,
    pub data_open: bool,
}

/// The mathematical shape of a session.
pub ghost struct SpecSession {
    pub working_directory: Seq<char>,
    pub username: Option<Seq<char>>,
    pub data_open: bool,
}

impl View for Session {
    type V = SpecSession;

    open spec fn view(&self) -> SpecSession {
        SpecSession {
            working_directory: self.working_directory@,
            username: match self.username {
                Some(ref n) => Some(n@),
                None => None,
            },
            data_open: self.data_open,
        }
    }
}

/// What the connection loop must do after a reply.
#[derive(Clone, Copy, Debug, PartialEq, Eq, Structural)]
pub enum Action {
    /// Nothing beyond sending the reply.
    DoNothing,
    /// Bind the passive-mode listener on this port and block for one
    /// inbound connection, then report the outcome to `pasv_done`.
    OpenChannel(u16),
    /// Stream the formatted listing over the data channel, then close
    /// it through `finish_list`.
    SendListing,
}

/// One dispatch outcome: the primary reply and the follow-up action.
pub struct Step {
    pub code: ResultCode,
    pub message: String,
    pub action: Action,
}

/// The mathematical shape of a dispatch outcome.
pub ghost struct SpecStep {
    pub code: ResultCode,
    pub message: Seq<char>,
    pub action: Action,
}

impl View for Step {
    type V = SpecStep;

    open spec fn view(&self) -> SpecStep {
        SpecStep { code: self.code, message: self.message@, action: self.action }
    }
}

/// The dispatch table: what one command does to a session and what is
/// replied. Every command yields exactly one reply; only a listing
/// request with an open channel or a passive-mode request with a
/// closed one carries a follow-up action.
pub open spec fn step_spec(s: SpecSession, cmd: SpecCommand) -> (SpecSession, SpecStep) {
    match cmd {
        SpecCommand::Auth => (
            s,
            SpecStep {
                code: ResultCode::CommandNotImplemented,
                message: "Not Implemented"@,
                action: Action::DoNothing,
            },
        ),
        SpecCommand::Cwd(_) => (
            s,
            SpecStep {
                code: ResultCode::CommandOk,
                message: "Hahahahaha"@,
                action: Action::DoNothing,
            },
        ),
        SpecCommand::List => if s.data_open {
            (
                s,
                SpecStep {
                    code: ResultCode::DataConnectionAlreadyOpen,
                    message: "Starting to list directory..."@,
                    action: Action::SendListing,
                },
            )
        } else {
            (
                s,
                SpecStep {
                    code: ResultCode::ConnectionClosed,
                    message: "No opened data connection"@,
                    action: Action::DoNothing,
                },
            )
        },
        SpecCommand::NoOp => (
            s,
            SpecStep {
                code: ResultCode::CommandOk,
                message: "Doing nothing..."@,
                action: Action::DoNothing,
            },
        ),
        SpecCommand::Pwd => if s.working_directory.len() > 0 {
            (
                s,
                SpecStep {
                    code: ResultCode::PATHNAMECreated,
                    message: "\""@ + s.working_directory + "\" "@,
                    action: Action::DoNothing,
                },
            )
        } else {
            (
                s,
                SpecStep {
                    code: ResultCode::FileNotFound,
                    message: "No such file or directory"@,
                    action: Action::DoNothing,
                },
            )
        },
        SpecCommand::Pasv => if s.data_open {
            (
                s,
                SpecStep {
                    code: ResultCode::DataConnectionAlreadyOpen,
                    message: "Already listening..."@,
                    action: Action::DoNothing,
                },
            )
        } else {
            (
                s,
                SpecStep {
                    code: ResultCode::EnteringPassiveMode,
                    message: "127,0,0,1,"@ + dec_digits((DATA_PORT >> 8) as nat) + ","@
                        + dec_digits((DATA_PORT & 0xFF) as nat),
                    action: Action::OpenChannel(DATA_PORT),
                },
            )
        },
        SpecCommand::Syst => (
            s,
            SpecStep { code: ResultCode::CommandOk, message: "No"@, action: Action::DoNothing },
        ),
        SpecCommand::Type => (
            s,
            SpecStep {
                code: ResultCode::CommandOk,
                message: "Transfer type changed successfully"@,
                action: Action::DoNothing,
            },
        ),
        SpecCommand::User(name) => if name.len() == 0 {
            (
                s,
                SpecStep {
                    code: ResultCode::InvalidParameterOrArgument,
                    message: "Invalid username"@,
                    action: Action::DoNothing,
                },
            )
        } else {
            (
                SpecSession {
                    working_directory: s.working_directory,
                    username: Some(name),
                    data_open: s.data_open,
                },
                SpecStep {
                    code: ResultCode::UserLoggedIn,
                    message: "Welcome "@ + name + "!"@,
                    action: Action::DoNothing,
                },
            )
        },
        SpecCommand::Unknown(text) => (
            s,
            SpecStep {
                code: ResultCode::UnknownCommand,
                message: "Unknown command "@ + text,
                action: Action::DoNothing,
            },
        ),
    }
}

/// Outcome of the blocking accept after a passive-mode reply: success
/// opens the channel silently; failure leaves it closed and reports
/// the service as unavailable.
pub open spec fn pasv_done_spec(s: SpecSession, accepted: bool) -> (SpecSession, Option<
    SpecStep,
>) {
    if accepted {
        (
            SpecSession {
                working_directory: s.working_directory,
                username: s.username,
                data_open: true,
            },
            None,
        )
    } else {
        (
            s,
            Some(
                SpecStep {
                    code: ResultCode::ServiceNotAvailable,
                    message: "bad things happen to good servers..."@,
                    action: Action::DoNothing,
                },
            ),
        )
    }
}

/// After a listing transfer the channel is consumed and its closing is
/// announced.
pub open spec fn finish_list_spec(s: SpecSession) -> (SpecSession, SpecStep) {
    (
        SpecSession {
            working_directory: s.working_directory,
            username: s.username,
            data_open: false,
        },
        SpecStep {
            code: ResultCode::ClosingDataConnection,
            message: "Transfer done"@,
            action: Action::DoNothing,
        },
    )
}

impl Session {
    /// A fresh session: root working directory, nobody logged in, no
    /// data channel.
    pub fn new() -> (s: Session)
        ensures
            s@ == (SpecSession { working_directory: "/"@, username: None, data_open: false }),
    {
        Session {
            working_directory: String::from_str("/"),
            username: None,
            data_open: false,
        }
    }

    /// The reply that greets every new connection.
    pub fn greeting() -> (r: Step)
        ensures
            r@ == (SpecStep {
                code: ResultCode::ServiceReadyForNewUser,
                message: "Welcome to this FTP server!"@,
                action: Action::DoNothing,
            }),
    {
        Step {
            code: ResultCode::ServiceReadyForNewUser,
            message: String::from_str("Welcome to this FTP server!"),
            action: Action::DoNothing,
        }
    }

    /// Dispatches one command, exactly as `step_spec` describes.
    pub fn handle_cmd(&mut self, cmd: Command) -> (r: Step)
        ensures
            final(self)@ == step_spec(old(self)@, cmd@).0,
            r@ == step_spec(old(self)@, cmd@).1,
    {
        match cmd {
            Command::Auth => Step {
                code: ResultCode::CommandNotImplemented,
                message: String::from_str("Not Implemented"),
                action: Action::DoNothing,
            },
            Command::Cwd(_) => Step {
                code: ResultCode::CommandOk,
                message: String::from_str("Hahahahaha"),
                action: Action::DoNothing,
            },
            Command::List => {
                if self.data_open {
                    Step {
                        code: ResultCode::DataConnectionAlreadyOpen,
                        message: String::from_str("Starting to list directory..."),
                        action: Action::SendListing,
                    }
                } else {
                    Step {
                        code: ResultCode::ConnectionClosed,
                        message: String::from_str("No opened data connection"),
                        action: Action::DoNothing,
                    }
                }
            },
            Command::NoOp => Step {
                code: ResultCode::CommandOk,
                message: String::from_str("Doing nothing..."),
                action: Action::DoNothing,
            },
            Command::Pwd => {
                if !self.working_directory.as_str().is_empty() {
                    let mut message = String::from_str("\"");
                    message.append(self.working_directory.as_str());
                    message.append("\" ");
                    proof {
                        assert(message@ =~= "\""@ + self@.working_directory + "\" "@);
                    }
                    Step {
                        code: ResultCode::PATHNAMECreated,
                        message,
                        action: Action::DoNothing,
                    }
                } else {
                    Step {
                        code: ResultCode::FileNotFound,
                        message: String::from_str("No such file or directory"),
                        action: Action::DoNothing,
                    }
                }
            },
            Command::Pasv => {
                if self.data_open {
                    Step {
                        code: ResultCode::DataConnectionAlreadyOpen,
                        message: String::from_str("Already listening..."),
                        action: Action::DoNothing,
                    }
                } else {
                    let high = u64_to_string((DATA_PORT >> 8) as u64);
                    let low = u64_to_string((DATA_PORT & 0xFF) as u64);
                    let mut message = String::from_str("127,0,0,1,");
                    message.append(high.as_str());
                    message.append(",");
                    message.append(low.as_str());
                    proof {
                        assert(message@ =~= "127,0,0,1,"@ + dec_digits((DATA_PORT >> 8) as nat)
                            + ","@ + dec_digits((DATA_PORT & 0xFF) as nat));
                    }
                    Step {
                        code: ResultCode::EnteringPassiveMode,
                        message,
                        action: Action::OpenChannel(DATA_PORT),
                    }
                }
            },
            Command::Syst => Step {
                code: ResultCode::CommandOk,
                message: String::from_str("No"),
                action: Action::DoNothing,
            },
            Command::Type => Step {
                code: ResultCode::CommandOk,
                message: String::from_str("Transfer type changed successfully"),
                action: Action::DoNothing,
            },
            Command::User(name) => {
                if name.as_str().is_empty() {
                    Step {
                        code: ResultCode::InvalidParameterOrArgument,
                        message: String::from_str("Invalid username"),
                        action: Action::DoNothing,
                    }
                } else {
                    let mut message = String::from_str("Welcome ");
                    message.append(name.as_str());
                    message.append("!");
                    proof {
                        assert(message@ =~= "Welcome "@ + name@ + "!"@);
                    }
                    self.username = Some(name);
                    Step {
                        code: ResultCode::UserLoggedIn,
                        message,
                        action: Action::DoNothing,
                    }
                }
            },
            Command::Unknown(text) => {
                let mut message = String::from_str("Unknown command ");
                message.append(text.as_str());
                proof {
                    assert(message@ =~= "Unknown command "@ + text@);
                }
                Step {
                    code: ResultCode::UnknownCommand,
                    message,
                    action: Action::DoNothing,
                }
            },
        }
    }

    /// Reports the outcome of the blocking accept, exactly as
    /// `pasv_done_spec` describes.
    pub fn pasv_done(&mut self, accepted: bool) -> (r: Option<Step>)
        ensures
            final(self)@ == pasv_done_spec(old(self)@, accepted).0,
            match r {
                Some(st) => pasv_done_spec(old(self)@, accepted).1 == Some(st@),
                None => pasv_done_spec(old(self)@, accepted).1 is None,
            },
    {
        if accepted {
            self.data_open = true;
            None
        } else {
            Some(
                Step {
                    code: ResultCode::ServiceNotAvailable,
                    message: String::from_str("bad things happen to good servers..."),
                    action: Action::DoNothing,
                },
            )
        }
    }

    /// Closes the data channel after a listing transfer and returns the
    /// closing reply, exactly as `finish_list_spec` describes.
    pub fn finish_list(&mut self) -> (r: Step)
        ensures
            final(self)@ == finish_list_spec(old(self)@).0,
            r@ == finish_list_spec(old(self)@).1,
    {
        self.data_open = false;
        Step {
            code: ResultCode::ClosingDataConnection,
            message: String::from_str("Transfer done"),
            action: Action::DoNothing,
        }
    }
}

/// Law: at most one data channel. A passive-mode request while the
/// channel is already open is answered "already listening", carries no
/// action, and leaves the session — the open channel included —
/// untouched.
pub proof fn lemma_single_data_channel(s: SpecSession)
    requires
        s.data_open,
    ensures
        ({
            let (s2, st) = step_spec(s, SpecCommand::Pasv);
            &&& s2 == s
            &&& st.code == ResultCode::DataConnectionAlreadyOpen
            &&& st.action == Action::DoNothing
        }),
{
}

/// Law: two passive-mode requests in a row never open two channels.
/// From a closed channel, the first request asks for one accept and
/// opens the channel; the second is rejected as already open and
/// changes nothing.
pub proof fn lemma_second_pasv_rejected(s: SpecSession)
    requires
        !s.data_open,
    ensures
        ({
            let (s1, st1) = step_spec(s, SpecCommand::Pasv);
            let (s2, follow) = pasv_done_spec(s1, true);
            let (s3, st2) = step_spec(s2, SpecCommand::Pasv);
            &&& st1.action == Action::OpenChannel(DATA_PORT)
            &&& follow is None
            &&& s2.data_open
            &&& st2.code == ResultCode::DataConnectionAlreadyOpen
            &&& st2.action == Action::DoNothing
            &&& s3 == s2
        }),
{
}

/// Law: an unknown command is echoed. The reply names the unknown
/// verb: its message is the fixed prefix followed by the verb's text,
/// so the text stands verbatim at the message's end.
pub proof fn lemma_unknown_echo(s: SpecSession, text: Seq<char>)
    ensures
        ({
            let (s2, st) = step_spec(s, SpecCommand::Unknown(text));
            &&& s2 == s
            &&& st.code == ResultCode::UnknownCommand
            &&& st.message == "Unknown command "@ + text
            &&& st.message.subrange(
                st.message.len() - text.len(),
                st.message.len() as int,
            ) == text
        }),
{
    let (s2, st) = step_spec(s, SpecCommand::Unknown(text));
    assert(st.message.subrange(st.message.len() - text.len(), st.message.len() as int)
        =~= text);
}

} // verus!
