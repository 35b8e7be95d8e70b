//! The request and response shapes shared by every command, and the two
//! canned responses the dispatcher produces itself.

use vstd::prelude::*;

verus! {

/// A structured directive for the caller to act on, such as a redirect.
#[derive(Debug)]
pub struct CommandAction {
    pub action_type: String,
    pub target: String,
}

/// The summary of an inbound token's validation, set by the dispatcher
/// (never by individual commands) after checking a submitted token.
#[derive(Debug)]
pub struct TokenStatus {
    pub valid: bool,
    pub expired: bool,
    pub expired_for: Option<String>,
}

/// The uniform shape every command invocation produces.
#[derive(Debug)]
pub struct CommandResponse {
    pub success: bool,
    pub message: String,
    pub action: Option<CommandAction>,
    pub token_status: Option<TokenStatus>,
    pub request_password: Option<String>,
}

/// The per-request context a command executes in, built by the dispatcher
/// and discarded when the call returns.
#[derive(Debug)]
pub struct CommandContext {
    pub command_text: String,
    pub args: Vec<String>,
    pub is_authenticated: bool,
    pub client_ip: Option<String>,
}

/// An inbound command request: the raw text and optional credentials.
#[derive(Debug)]
pub struct CommandRequest {
    pub command: String,
    pub password: Option<String>,
    pub token: Option<String>,
}

/// A response carrying only a verdict and a message: no action, no token
/// summary, no password prompt.
pub open spec fn plain_response(r: CommandResponse, success: bool, msg: Seq<char>) -> bool {
    &&& r.success == success
    &&& r.message@ == msg
    &&& r.action is None
    &&& r.token_status is None
    &&& r.request_password is None
}

/// The message pointing an unknown command at `help`.
pub open spec fn spec_unknown_message(command: Seq<char>) -> Seq<char> {
    "unknown command: "@ + command + "\ntype 'help' to list available commands"@
}

/// The canned failure for a command name the registry does not know.
pub fn unknown_command_response(command: &str) -> (r: CommandResponse)
    ensures
        plain_response(r, false, spec_unknown_message(command@)),
{
    let mut message = "unknown command: ".to_owned();
    message.append(command);
    message.append("\ntype 'help' to list available commands");
    proof {
        assert(message@ =~= spec_unknown_message(command@));
    }
    CommandResponse {
        success: false,
        message,
        action: Option::None,
        token_status: Option::None,
        request_password: Option::None,
    }
}

/// The canned refusal for an authentication-gated command invoked without
/// authentication: a failure that prompts for the password.
pub open spec fn is_unauthorized_response(r: CommandResponse) -> bool {
    &&& r.success == false
    &&& r.message@ == "you are not allowed to run this command"@
    &&& r.action is None
    &&& r.token_status is None
    &&& r.request_password is Some
    &&& r.request_password->0@ == "enter the password to gain access"@
}

/// Builds the canned unauthorized refusal.
pub fn unauthorized_response() -> (r: CommandResponse)
    ensures
        is_unauthorized_response(r),
{
    CommandResponse {
        success: false,
        message: "you are not allowed to run this command".to_owned(),
        action: Option::None,
        token_status: Option::None,
        request_password: Option::Some("enter the password to gain access".to_owned()),
    }
}

} // verus!
