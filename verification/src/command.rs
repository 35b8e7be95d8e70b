//! The command dispatcher: parses raw input, validates an optional bearer
//! token against the caller's address, resolves the command in the
//! standard registry, enforces the authorization gate, and overlays the
//! token summary onto whatever the command produced.
//!
//! A submitted password is never consulted here: authentication comes from
//! a valid token alone, so a request carrying an invalid token cannot fall
//! back to its password in the same request.

use vstd::prelude::*;

use crate::authenticate::TokenData;
use crate::authenticate::TokenStore;
use crate::authenticate::check_token;
use crate::authenticate::opt_str_view;
use crate::authenticate::spec_format_duration;
use crate::authenticate::spec_lookup;
use crate::authenticate::spec_sweep;
use crate::authenticate::spec_validate;
use crate::authenticate::tokens_unique;
use crate::commands::Command;
use crate::commands::CommandKind;
use crate::commands::EchoCommand;
use crate::commands::EnterCommand;
use crate::commands::HelpCommand;
use crate::commands::PasswordCommand;
use crate::commands::SystemCommand;
use crate::commands::TokenCommand;
use crate::commands::parse_command;
use crate::commands::spec_kind_needs_auth;
use crate::config::AuthConfig;
use crate::registry::CommandRegistry;
use crate::registry::spec_resolve_in;
use crate::registry::spec_standard_entries;
use crate::response::CommandContext;
use crate::response::CommandResponse;
use crate::response::TokenStatus;
use crate::response::plain_response;
use crate::response::spec_unknown_message;
use crate::response::unauthorized_response;
use crate::response::unknown_command_response;
use crate::text::lower;
use crate::text::spec_trim;
use crate::text::split_ws;
use crate::text::to_lowercase;
use crate::text::trim;

verus! {

/// What `execute` of the command of kind `k` promises.
pub open spec fn spec_kind_ens(
    k: CommandKind,
    prior: Seq<TokenData>,
    cfg: AuthConfig,
    now: u64,
    ctx: CommandContext,
    post: Seq<TokenData>,
    r: CommandResponse,
) -> bool {
    match k {
        CommandKind::Help => (HelpCommand {  }).ens(prior, cfg, now, ctx, post, r),
        CommandKind::Password => (PasswordCommand {  }).ens(prior, cfg, now, ctx, post, r),
        CommandKind::System => (SystemCommand {  }).ens(prior, cfg, now, ctx, post, r),
        CommandKind::Echo => (EchoCommand {  }).ens(prior, cfg, now, ctx, post, r),
        CommandKind::Enter => (EnterCommand {  }).ens(prior, cfg, now, ctx, post, r),
        CommandKind::Token => (TokenCommand {  }).ens(prior, cfg, now, ctx, post, r),
    }
}

/// How the token summary set by the dispatcher must relate to the swept
/// store: for an absent value everything is cleared; otherwise validity
/// follows the validation outcome and expiry follows the entry's state.
pub open spec fn token_summary_matches(
    swept: Seq<TokenData>,
    t: Seq<char>,
    ip: Option<Seq<char>>,
    ts: TokenStatus,
) -> bool {
    match spec_lookup(swept, t) {
        Option::None => {
            &&& ts.valid == false
            &&& ts.expired == false
            &&& ts.expired_for is None
        },
        Option::Some(e) => {
            &&& ts.valid == (spec_validate(swept, t, ip) is Valid)
            &&& ts.expired == (e.status is Expired)
            &&& match e.status {
                crate::authenticate::TokenStatus::Active => ts.expired_for is None,
                crate::authenticate::TokenStatus::Expired(d) => ts.expired_for is Some
                    && ts.expired_for->0@ == spec_format_duration(d),
            }
        },
    }
}

/// Whether a context is the one the dispatcher builds for this request.
pub open spec fn ctx_matches(
    ctx: CommandContext,
    text: Seq<char>,
    args: Seq<Seq<char>>,
    authed: bool,
    ip: Option<Seq<char>>,
) -> bool {
    &&& ctx.command_text@ == text
    &&& ctx.args.deep_view() == args
    &&& ctx.is_authenticated == authed
    &&& match ip {
        Option::Some(a) => ctx.client_ip is Some && ctx.client_ip->0@ == a,
        Option::None => ctx.client_ip is None,
    }
}

/// The dispatcher ran the resolved command: for the context this request
/// builds, the response is the executed command's own, except for the
/// overlaid token summary.
pub open spec fn executed_ok(
    kind: CommandKind,
    mid: Seq<TokenData>,
    cfg: AuthConfig,
    now: u64,
    text: Seq<char>,
    args: Seq<Seq<char>>,
    authed: bool,
    ip: Option<Seq<char>>,
    post: Seq<TokenData>,
    r: CommandResponse,
) -> bool {
    exists|ctx: CommandContext, r0: CommandResponse|
        {
            &&& ctx_matches(ctx, text, args, authed, ip)
            &&& #[trigger] spec_kind_ens(kind, mid, cfg, now, ctx, post, r0)
            &&& r.success == r0.success
            &&& r.message == r0.message
            &&& r.action == r0.action
            &&& r.request_password == r0.request_password
        }
}

/// The dispatcher's whole contract. Empty input (after trimming) is
/// answered at once, with nothing looked at and nothing changed. Otherwise
/// a submitted non-empty token sweeps the store and sets the summary;
/// authentication holds exactly when that token validated as `Valid`. The
/// command name is the first word, lower-cased; an unresolved name earns
/// the unknown-command response; a gated command without authentication is
/// refused without running; otherwise the response is the executed
/// command's, with the token summary overlaid. The submitted password is
/// ignored throughout: `dispatch_post` does not depend on it.
pub open spec fn dispatch_post(
    prior: Seq<TokenData>,
    cfg: AuthConfig,
    now: u64,
    command: Seq<char>,
    password: Option<Seq<char>>,
    token: Option<Seq<char>>,
    ip: Option<Seq<char>>,
    post: Seq<TokenData>,
    r: CommandResponse,
) -> bool {
    let text = lower(spec_trim(command));
    if text.len() == 0 {
        &&& post == prior
        &&& plain_response(r, false, "enter a command"@)
    } else {
        let swept = spec_sweep(prior, now, cfg.token_expiration_seconds);
        let mid = if token is Some && token->0.len() > 0 {
            swept
        } else {
            prior
        };
        let authed = match token {
            Option::None => false,
            Option::Some(t) => t.len() > 0 && spec_validate(swept, t, ip) is Valid,
        };
        let words = split_ws(text);
        let name = if words.len() > 0 {
            lower(words[0])
        } else {
            Seq::<char>::empty()
        };
        let args = if words.len() > 0 {
            words.drop_first()
        } else {
            Seq::<Seq<char>>::empty()
        };
        let ts_ok = match token {
            Option::None => r.token_status is None,
            Option::Some(t) => r.token_status is Some && (if t.len() == 0 {
                &&& r.token_status->0.valid == false
                &&& r.token_status->0.expired == false
                &&& r.token_status->0.expired_for is None
            } else {
                token_summary_matches(swept, t, ip, r.token_status->0)
            }),
        };
        &&& ts_ok
        &&& match spec_resolve_in(spec_standard_entries(), lower(name)) {
            Option::None => {
                &&& post == mid
                &&& r.success == false
                &&& r.message@ == spec_unknown_message(text)
                &&& r.action is None
                &&& r.request_password is None
            },
            Option::Some(kind) => (if spec_kind_needs_auth(kind) && !authed {
                &&& post == mid
                &&& r.success == false
                &&& r.message@ == "you are not allowed to run this command"@
                &&& r.action is None
                &&& r.request_password is Some
                &&& r.request_password->0@ == "enter the password to gain access"@
            } else {
                executed_ok(kind, mid, cfg, now, text, args, authed, ip, post, r)
            }),
        }
    }
}

/// Law: the dispatcher never consults the password. Its contract is the
/// same whatever password accompanies a request, so a correct password can
/// never compensate for a missing or invalid token.
pub proof fn lemma_password_ignored(
    prior: Seq<TokenData>,
    cfg: AuthConfig,
    now: u64,
    command: Seq<char>,
    pw1: Option<Seq<char>>,
    pw2: Option<Seq<char>>,
    token: Option<Seq<char>>,
    ip: Option<Seq<char>>,
    post: Seq<TokenData>,
    r: CommandResponse,
)
    ensures
        dispatch_post(prior, cfg, now, command, pw1, token, ip, post, r) == dispatch_post(
            prior,
            cfg,
            now,
            command,
            pw2,
            token,
            ip,
            post,
            r,
        ),
{
}

/// Law: a request that presents an invalid token executes unauthenticated,
/// whatever password it carries: a command gated on authentication is
/// refused with a password prompt, and its behaviour never runs.
pub proof fn lemma_invalid_token_refused(
    prior: Seq<TokenData>,
    cfg: AuthConfig,
    now: u64,
    command: Seq<char>,
    password: Option<Seq<char>>,
    t: Seq<char>,
    ip: Option<Seq<char>>,
    post: Seq<TokenData>,
    r: CommandResponse,
    kind: CommandKind,
)
    requires
        dispatch_post(prior, cfg, now, command, password, Option::Some(t), ip, post, r),
        lower(spec_trim(command)).len() > 0,
        !(spec_validate(
            spec_sweep(prior, now, cfg.token_expiration_seconds),
            t,
            ip,
        ) is Valid),
        ({
            let text = lower(spec_trim(command));
            let words = split_ws(text);
            let name = if words.len() > 0 {
                lower(words[0])
            } else {
                Seq::<char>::empty()
            };
            spec_resolve_in(spec_standard_entries(), lower(name)) == Option::Some(kind)
        }),
        spec_kind_needs_auth(kind),
    ensures
        r.success == false,
        r.request_password is Some,
{
}

/// Dispatches one raw command line: the full pipeline from trimming and
/// parsing through token validation, registry resolution, the
/// authorization gate, execution and the token-summary overlay.
pub fn process_command_with_auth(
    store: &mut TokenStore,
    cfg: &AuthConfig,
    now: u64,
    command: &str,
    password: Option<&str>,
    token: Option<&str>,
    client_ip: Option<&str>,
) -> (r: CommandResponse)
    requires
        tokens_unique(old(store)@),
    ensures
        tokens_unique(final(store)@),
        dispatch_post(
            old(store)@,
            *cfg,
            now,
            command@,
            opt_str_view(password),
            opt_str_view(token),
            opt_str_view(client_ip),
            final(store)@,
            r,
        ),
{
    let ghost prior = store@;
    let trimmed = trim(command);
    let text = to_lowercase(trimmed.as_str());
    if text.as_str().unicode_len() == 0 {
        let resp = CommandResponse {
            success: false,
            message: "enter a command".to_owned(),
            action: Option::None,
            token_status: Option::None,
            request_password: Option::None,
        };
        return resp;
    }
    let mut token_status: Option<TokenStatus> = Option::None;
    let mut authed = false;
    match token {
        Option::Some(t) => {
            match check_token(store, cfg, now, t, client_ip) {
                Option::Some(info) => {
                    authed = info.is_valid;
                    token_status = Option::Some(
                        TokenStatus {
                            valid: info.is_valid,
                            expired: info.is_expired,
                            expired_for: info.expired_time,
                        },
                    );
                },
                Option::None => {
                    token_status = Option::Some(
                        TokenStatus { valid: false, expired: false, expired_for: Option::None },
                    );
                },
            }
        },
        Option::None => {},
    }
    let ghost mid = store@;
    let (name, args) = parse_command(text.as_str());
    let registry = CommandRegistry::standard();
    let resolved = registry.resolve(name.as_str());
    match resolved {
        Option::None => {
            let mut resp = unknown_command_response(text.as_str());
            resp.token_status = token_status;
            resp
        },
        Option::Some(kind) => {
            if kind.needs_auth() && !authed {
                let mut resp = unauthorized_response();
                resp.token_status = token_status;
                resp
            } else {
                let ctx = CommandContext {
                    command_text: text,
                    args,
                    is_authenticated: authed,
                    client_ip: match client_ip {
                        Option::Some(s) => Option::Some(s.to_owned()),
                        Option::None => Option::None,
                    },
                };
                let ghost gctx = ctx;
                let mut resp = match kind {
                    CommandKind::Help => HelpCommand::new().execute(store, cfg, now, ctx),
                    CommandKind::Password => PasswordCommand::new().execute(store, cfg, now, ctx),
                    CommandKind::System => SystemCommand::new().execute(store, cfg, now, ctx),
                    CommandKind::Echo => EchoCommand::new().execute(store, cfg, now, ctx),
                    CommandKind::Enter => EnterCommand::new().execute(store, cfg, now, ctx),
                    CommandKind::Token => TokenCommand::new().execute(store, cfg, now, ctx),
                };
                let ghost r0 = resp;
                resp.token_status = token_status;
                proof {
                    let text_s = lower(spec_trim(command@));
                    let swept_s = spec_sweep(prior, now, cfg.token_expiration_seconds);
                    let words_s = split_ws(text_s);
                    let args_s = if words_s.len() > 0 {
                        words_s.drop_first()
                    } else {
                        Seq::<Seq<char>>::empty()
                    };
                    let authed_s = match opt_str_view(token) {
                        Option::None => false,
                        Option::Some(t) => t.len() > 0 && spec_validate(
                            swept_s,
                            t,
                            opt_str_view(client_ip),
                        ) is Valid,
                    };
                    assert(ctx_matches(gctx, text_s, args_s, authed_s, opt_str_view(client_ip)));
                    assert(spec_kind_ens(kind, mid, *cfg, now, gctx, store@, r0));
                    assert(executed_ok(
                        kind,
                        mid,
                        *cfg,
                        now,
                        text_s,
                        args_s,
                        authed_s,
                        opt_str_view(client_ip),
                        store@,
                        resp,
                    ));
                }
                resp
            }
        },
    }
}

} // verus!
