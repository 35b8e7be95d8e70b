//! The built-in commands. Each command is a unit struct implementing
//! `Command`; its metadata and the exact postcondition of its `execute` are
//! stated as spec functions on the trait, so the dispatcher's contract can
//! speak of every command's behaviour.

use vstd::prelude::*;

use crate::authenticate::TokenData;
use crate::authenticate::TokenDisplayInfo;
use crate::authenticate::TokenStore;
use crate::authenticate::display_matches;
use crate::authenticate::get_token_details;
use crate::authenticate::has_token;
use crate::authenticate::lemma_others_absent;
use crate::authenticate::others;
use crate::authenticate::revoke_token;
use crate::authenticate::spec_sweep;
use crate::authenticate::tokens_unique;
use crate::config::AuthConfig;
use crate::response::CommandAction;
use crate::response::CommandContext;
use crate::response::CommandResponse;
use crate::response::is_unauthorized_response;
use crate::response::plain_response;
use crate::response::unauthorized_response;
use crate::text::all_digits;
use crate::text::dec_str;
use crate::text::dec_value;
use crate::text::join_commas;
use crate::text::join_spaces;
use crate::text::lower;
use crate::text::parse_dec;
use crate::text::spec_join_commas;
use crate::text::spec_join_spaces;
use crate::text::split_whitespace;
use crate::text::split_ws;
use crate::text::str_eq;
use crate::text::to_lowercase;
use crate::text::u64_to_string;

verus! {

/// The built-in command kinds, one per command.
#[derive(Clone, Copy, Debug, PartialEq, Eq, Structural)]
pub enum CommandKind {
    Help,
    Password,
    System,
    Echo,
    Enter,
    Token,
}

/// The canonical name of a kind.
pub open spec fn spec_kind_name(k: CommandKind) -> Seq<char> {
    match k {
        CommandKind::Help => "help"@,
        CommandKind::Password => "password"@,
        CommandKind::System => "system"@,
        CommandKind::Echo => "echo"@,
        CommandKind::Enter => "enter"@,
        CommandKind::Token => "token"@,
    }
}

/// The aliases of a kind.
pub open spec fn spec_kind_aliases(k: CommandKind) -> Seq<Seq<char>> {
    match k {
        CommandKind::Help => seq!["h"@, "?"@],
        CommandKind::Password => seq!["pass"@, "p"@, "login"@],
        CommandKind::System => seq!["sys"@, "info"@, "status"@],
        CommandKind::Echo => seq!["e"@, "print"@],
        CommandKind::Enter => seq!["goto"@, "open"@],
        CommandKind::Token => seq!["tokens"@, "t"@, "tokenlist"@],
    }
}

/// Whether a kind may only run authenticated.
pub open spec fn spec_kind_needs_auth(k: CommandKind) -> bool {
    match k {
        CommandKind::System => true,
        CommandKind::Token => true,
        _ => false,
    }
}

/// The human description of a kind.
pub open spec fn spec_kind_description(k: CommandKind) -> Seq<char> {
    match k {
        CommandKind::Help => "show help information"@,
        CommandKind::Password => "authenticate with a password"@,
        CommandKind::System => "show system information (requires authentication)"@,
        CommandKind::Echo => "echo the given text"@,
        CommandKind::Enter => "jump to a named target (enter <target>)"@,
        CommandKind::Token => "show or manage tokens (requires authentication)\nusage: token [revoke <id>]"@,
    }
}

impl CommandKind {
    /// The canonical name.
    pub fn name(&self) -> (r: &'static str)
        ensures
            r@ == spec_kind_name(*self),
    {
        match self {
            CommandKind::Help => "help",
            CommandKind::Password => "password",
            CommandKind::System => "system",
            CommandKind::Echo => "echo",
            CommandKind::Enter => "enter",
            CommandKind::Token => "token",
        }
    }

    /// The aliases.
    pub fn aliases(&self) -> (r: Vec<&'static str>)
        ensures
            r.deep_view() == spec_kind_aliases(*self),
    {
        let r: Vec<&'static str> = match self {
            CommandKind::Help => vec!["h", "?"],
            CommandKind::Password => vec!["pass", "p", "login"],
            CommandKind::System => vec!["sys", "info", "status"],
            CommandKind::Echo => vec!["e", "print"],
            CommandKind::Enter => vec!["goto", "open"],
            CommandKind::Token => vec!["tokens", "t", "tokenlist"],
        };
        proof {
            assert(r.deep_view() =~= spec_kind_aliases(*self));
        }
        r
    }

    /// Whether the command is gated on authentication.
    pub fn needs_auth(&self) -> (r: bool)
        ensures
            r == spec_kind_needs_auth(*self),
    {
        match self {
            CommandKind::System => true,
            CommandKind::Token => true,
            _ => false,
        }
    }

    /// The human description.
    pub fn description(&self) -> (r: &'static str)
        ensures
            r@ == spec_kind_description(*self),
    {
        match self {
            CommandKind::Help => "show help information",
            CommandKind::Password => "authenticate with a password",
            CommandKind::System => "show system information (requires authentication)",
            CommandKind::Echo => "echo the given text",
            CommandKind::Enter => "jump to a named target (enter <target>)",
            CommandKind::Token => "show or manage tokens (requires authentication)\nusage: token [revoke <id>]",
        }
    }
}

/// Every command: static metadata plus an `execute` whose exact behaviour
/// is stated by the implementing type through `ens`.
pub trait Command: Sized {
    /// The canonical name.
    spec fn spec_name(&self) -> Seq<char>;

    /// The alias names.
    spec fn spec_aliases(&self) -> Seq<Seq<char>>;

    /// Whether execution requires an authenticated caller.
    spec fn spec_needs_auth(&self) -> bool;

    /// The human description.
    spec fn spec_description(&self) -> Seq<char>;

    /// What `execute` promises: how the store after the call and the
    /// response relate to the store before it and the context.
    spec fn ens(
        &self,
        prior: Seq<TokenData>,
        cfg: AuthConfig,
        now: u64,
        ctx: CommandContext,
        post: Seq<TokenData>,
        r: CommandResponse,
    ) -> bool;

    fn name(&self) -> (r: &'static str)
        ensures
            r@ == self.spec_name(),
    ;

    fn aliases(&self) -> (r: Vec<&'static str>)
        ensures
            r.deep_view() == self.spec_aliases(),
    ;

    fn needs_auth(&self) -> (r: bool)
        ensures
            r == self.spec_needs_auth(),
    ;

    fn description(&self) -> (r: &'static str)
        ensures
            r@ == self.spec_description(),
    ;

    fn execute(&self, store: &mut TokenStore, cfg: &AuthConfig, now: u64, ctx: CommandContext) -> (
        r: CommandResponse)
        requires
            tokens_unique(old(store)@),
        ensures
            tokens_unique(final(store)@),
            self.ens(old(store)@, *cfg, now, ctx, final(store)@, r),
    ;
}

/// The unique command kinds, in registration order.
pub open spec fn spec_all_kinds() -> Seq<CommandKind> {
    seq![
        CommandKind::Help,
        CommandKind::Password,
        CommandKind::System,
        CommandKind::Echo,
        CommandKind::Token,
        CommandKind::Enter,
    ]
}

/// Every registered command once, whatever aliases it carries.
pub fn get_all_commands() -> (r: Vec<CommandKind>)
    ensures
        r@ == spec_all_kinds(),
{
    let r: Vec<CommandKind> = vec![
        CommandKind::Help,
        CommandKind::Password,
        CommandKind::System,
        CommandKind::Echo,
        CommandKind::Token,
        CommandKind::Enter,
    ];
    proof {
        assert(r@ =~= spec_all_kinds());
    }
    r
}

/// The alias annotation of one help line, empty for a command without
/// aliases.
pub open spec fn spec_alias_text(k: CommandKind) -> Seq<char> {
    if spec_kind_aliases(k).len() == 0 {
        Seq::empty()
    } else {
        " (aliases: "@ + spec_join_commas(spec_kind_aliases(k)) + ")"@
    }
}

/// One help line: name, an `[auth]` mark on gated commands, aliases and
/// description.
pub open spec fn spec_help_line(k: CommandKind) -> Seq<char> {
    "- "@ + spec_kind_name(k) + (if spec_kind_needs_auth(k) {
        " [auth]"@
    } else {
        Seq::<char>::empty()
    }) + spec_alias_text(k) + ": "@ + spec_kind_description(k) + "\n"@
}

/// The help lines for the given kinds, hiding gated commands from
/// unauthenticated callers.
pub open spec fn spec_help_lines(ks: Seq<CommandKind>, authed: bool) -> Seq<char>
    decreases ks.len(),
{
    if ks.len() == 0 {
        Seq::empty()
    } else {
        spec_help_lines(ks.drop_last(), authed) + (if spec_kind_needs_auth(ks.last()) && !authed {
            Seq::<char>::empty()
        } else {
            spec_help_line(ks.last())
        })
    }
}

/// The whole help message for a caller at the given authentication level.
pub open spec fn spec_help_message(authed: bool) -> Seq<char> {
    "available commands:\n"@ + spec_help_lines(spec_all_kinds(), authed) + (if authed {
        "\n[auth] marks commands that require authentication"@
    } else {
        Seq::<char>::empty()
    })
}

/// Builds the help text listing every command visible at the caller's
/// authentication level.
pub fn help_message(authed: bool) -> (r: String)
    ensures
        r@ == spec_help_message(authed),
{
    let kinds = get_all_commands();
    let mut out = "available commands:\n".to_owned();
    let n = kinds.len();
    let mut i: usize = 0;
    proof {
        assert(out@ =~= "available commands:\n"@ + spec_help_lines(spec_all_kinds().take(0), authed));
    }
    while i < n
        invariant
            i <= n,
            n == spec_all_kinds().len(),
            kinds@ == spec_all_kinds(),
            out@ == "available commands:\n"@ + spec_help_lines(spec_all_kinds().take(i as int), authed),
        decreases n - i,
    {
        let k = kinds[i];
        proof {
            assert(spec_all_kinds().take(i + 1).drop_last() =~= spec_all_kinds().take(i as int));
            assert(spec_all_kinds().take(i + 1).last() == spec_all_kinds()[i as int]);
        }
        if !(k.needs_auth() && !authed) {
            let mut line = "- ".to_owned();
            line.append(k.name());
            if k.needs_auth() {
                line.append(" [auth]");
            }
            let al = k.aliases();
            if al.len() > 0 {
                line.append(" (aliases: ");
                line.append(join_commas(&al).as_str());
                line.append(")");
            }
            line.append(": ");
            line.append(k.description());
            line.append("\n");
            proof {
                assert(line@ =~= spec_help_line(k));
            }
            out.append(line.as_str());
        }
        proof {
            assert(out@ =~= "available commands:\n"@ + spec_help_lines(
                spec_all_kinds().take(i + 1),
                authed,
            ));
        }
        i += 1;
    }
    proof {
        assert(spec_all_kinds().take(n as int) =~= spec_all_kinds());
    }
    if authed {
        out.append("\n[auth] marks commands that require authentication");
    }
    proof {
        assert(out@ =~= spec_help_message(authed));
    }
    out
}

/// Lists every command visible at the caller's authentication level.
pub struct HelpCommand {}

impl HelpCommand {
    pub fn new() -> (r: Self)
        ensures
            r == (HelpCommand {  }),
    {
        HelpCommand {  }
    }
}

impl Command for HelpCommand {
    open spec fn spec_name(&self) -> Seq<char> {
        spec_kind_name(CommandKind::Help)
    }

    open spec fn spec_aliases(&self) -> Seq<Seq<char>> {
        spec_kind_aliases(CommandKind::Help)
    }

    open spec fn spec_needs_auth(&self) -> bool {
        spec_kind_needs_auth(CommandKind::Help)
    }

    open spec fn spec_description(&self) -> Seq<char> {
        spec_kind_description(CommandKind::Help)
    }

    /// Leaves the store alone and reports the help text for the caller's
    /// authentication level.
    open spec fn ens(
        &self,
        prior: Seq<TokenData>,
        cfg: AuthConfig,
        now: u64,
        ctx: CommandContext,
        post: Seq<TokenData>,
        r: CommandResponse,
    ) -> bool {
        &&& post == prior
        &&& plain_response(r, true, spec_help_message(ctx.is_authenticated))
    }

    fn name(&self) -> (r: &'static str) {
        CommandKind::Help.name()
    }

    fn aliases(&self) -> (r: Vec<&'static str>) {
        CommandKind::Help.aliases()
    }

    fn needs_auth(&self) -> (r: bool) {
        CommandKind::Help.needs_auth()
    }

    fn description(&self) -> (r: &'static str) {
        CommandKind::Help.description()
    }

    fn execute(&self, store: &mut TokenStore, cfg: &AuthConfig, now: u64, ctx: CommandContext) -> (
        r: CommandResponse) {
        CommandResponse {
            success: true,
            message: help_message(ctx.is_authenticated),
            action: Option::None,
            token_status: Option::None,
            request_password: Option::None,
        }
    }
}

/// Always prompts the caller to submit the password.
pub struct PasswordCommand {}

impl PasswordCommand {
    pub fn new() -> (r: Self)
        ensures
            r == (PasswordCommand {  }),
    {
        PasswordCommand {  }
    }
}

impl Command for PasswordCommand {
    open spec fn spec_name(&self) -> Seq<char> {
        spec_kind_name(CommandKind::Password)
    }

    open spec fn spec_aliases(&self) -> Seq<Seq<char>> {
        spec_kind_aliases(CommandKind::Password)
    }

    open spec fn spec_needs_auth(&self) -> bool {
        spec_kind_needs_auth(CommandKind::Password)
    }

    open spec fn spec_description(&self) -> Seq<char> {
        spec_kind_description(CommandKind::Password)
    }

    /// Leaves the store alone and asks for the password.
    open spec fn ens(
        &self,
        prior: Seq<TokenData>,
        cfg: AuthConfig,
        now: u64,
        ctx: CommandContext,
        post: Seq<TokenData>,
        r: CommandResponse,
    ) -> bool {
        &&& post == prior
        &&& r.success == true
        &&& r.message@ == "enter the password to authenticate"@
        &&& r.action is None
        &&& r.token_status is None
        &&& r.request_password is Some
        &&& r.request_password->0@ == "enter the password to authenticate"@
    }

    fn name(&self) -> (r: &'static str) {
        CommandKind::Password.name()
    }

    fn aliases(&self) -> (r: Vec<&'static str>) {
        CommandKind::Password.aliases()
    }

    fn needs_auth(&self) -> (r: bool) {
        CommandKind::Password.needs_auth()
    }

    fn description(&self) -> (r: &'static str) {
        CommandKind::Password.description()
    }

    fn execute(&self, store: &mut TokenStore, cfg: &AuthConfig, now: u64, ctx: CommandContext) -> (
        r: CommandResponse) {
        CommandResponse {
            success: true,
            message: "enter the password to authenticate".to_owned(),
            action: Option::None,
            token_status: Option::None,
            request_password: Option::Some("enter the password to authenticate".to_owned()),
        }
    }
}

/// Echoes its arguments joined by single spaces.
pub struct EchoCommand {}

impl EchoCommand {
    pub fn new() -> (r: Self)
        ensures
            r == (EchoCommand {  }),
    {
        EchoCommand {  }
    }
}

impl Command for EchoCommand {
    open spec fn spec_name(&self) -> Seq<char> {
        spec_kind_name(CommandKind::Echo)
    }

    open spec fn spec_aliases(&self) -> Seq<Seq<char>> {
        spec_kind_aliases(CommandKind::Echo)
    }

    open spec fn spec_needs_auth(&self) -> bool {
        spec_kind_needs_auth(CommandKind::Echo)
    }

    open spec fn spec_description(&self) -> Seq<char> {
        spec_kind_description(CommandKind::Echo)
    }

    /// Leaves the store alone; echoes the joined arguments, or explains
    /// the usage when none were given.
    open spec fn ens(
        &self,
        prior: Seq<TokenData>,
        cfg: AuthConfig,
        now: u64,
        ctx: CommandContext,
        post: Seq<TokenData>,
        r: CommandResponse,
    ) -> bool {
        &&& post == prior
        &&& if ctx.args@.len() == 0 {
            plain_response(r, false, "usage: echo <text>"@)
        } else {
            plain_response(r, true, "echo: "@ + spec_join_spaces(ctx.args.deep_view()))
        }
    }

    fn name(&self) -> (r: &'static str) {
        CommandKind::Echo.name()
    }

    fn aliases(&self) -> (r: Vec<&'static str>) {
        CommandKind::Echo.aliases()
    }

    fn needs_auth(&self) -> (r: bool) {
        CommandKind::Echo.needs_auth()
    }

    fn description(&self) -> (r: &'static str) {
        CommandKind::Echo.description()
    }

    fn execute(&self, store: &mut TokenStore, cfg: &AuthConfig, now: u64, ctx: CommandContext) -> (
        r: CommandResponse) {
        if ctx.args.len() == 0 {
            CommandResponse {
                success: false,
                message: "usage: echo <text>".to_owned(),
                action: Option::None,
                token_status: Option::None,
                request_password: Option::None,
            }
        } else {
            let mut message = "echo: ".to_owned();
            message.append(join_spaces(&ctx.args).as_str());
            CommandResponse {
                success: true,
                message,
                action: Option::None,
                token_status: Option::None,
                request_password: Option::None,
            }
        }
    }
}

/// The system report, assembled from the given readings.
pub open spec fn spec_system_message(
    os: Seq<char>,
    cores: int,
    mem_text: Seq<char>,
    hours: int,
) -> Seq<char> {
    "system information:\n- os: "@ + os + "\n- cpu cores: "@ + dec_str(cores) + "\n- memory: "@
        + mem_text + " MB\n- uptime: "@ + dec_str(hours) + " h"@
}

/// Renders the system report from the host readings handed in: the
/// operating system name, the core count, the total memory in MB (as text,
/// `unknown` where the host does not say) and the uptime in hours.
pub fn system_message(os: &str, cores: u64, memory_mb_text: &str, uptime_hours: u64) -> (r: String)
    ensures
        r@ == spec_system_message(os@, cores as int, memory_mb_text@, uptime_hours as int),
{
    let mut out = "system information:\n- os: ".to_owned();
    out.append(os);
    out.append("\n- cpu cores: ");
    out.append(u64_to_string(cores).as_str());
    out.append("\n- memory: ");
    out.append(memory_mb_text);
    out.append(" MB\n- uptime: ");
    out.append(u64_to_string(uptime_hours).as_str());
    out.append(" h");
    proof {
        assert(out@ =~= spec_system_message(
            os@,
            cores as int,
            memory_mb_text@,
            uptime_hours as int,
        ));
    }
    out
}

/// Reports host facts: operating system, core count, memory and uptime.
pub struct SystemCommand {}

impl SystemCommand {
    pub fn new() -> (r: Self)
        ensures
            r == (SystemCommand {  }),
    {
        SystemCommand {  }
    }
}

impl Command for SystemCommand {
    open spec fn spec_name(&self) -> Seq<char> {
        spec_kind_name(CommandKind::System)
    }

    open spec fn spec_aliases(&self) -> Seq<Seq<char>> {
        spec_kind_aliases(CommandKind::System)
    }

    open spec fn spec_needs_auth(&self) -> bool {
        spec_kind_needs_auth(CommandKind::System)
    }

    open spec fn spec_description(&self) -> Seq<char> {
        spec_kind_description(CommandKind::System)
    }

    /// Leaves the store alone. Unauthenticated callers are refused; for
    /// the rest the message is the system report for host readings the
    /// contract cannot pin down, with the uptime computed from `now`.
    open spec fn ens(
        &self,
        prior: Seq<TokenData>,
        cfg: AuthConfig,
        now: u64,
        ctx: CommandContext,
        post: Seq<TokenData>,
        r: CommandResponse,
    ) -> bool {
        &&& post == prior
        &&& if !ctx.is_authenticated {
            is_unauthorized_response(r)
        } else {
            &&& r.success
            &&& r.action is None
            &&& r.token_status is None
            &&& r.request_password is None
            &&& exists|os: Seq<char>, cores: int, mem: Seq<char>|
                1 <= cores && r.message@ == #[trigger] spec_system_message(
                    os,
                    cores,
                    mem,
                    (now / 3600) as int,
                )
        }
    }

    fn name(&self) -> (r: &'static str) {
        CommandKind::System.name()
    }

    fn aliases(&self) -> (r: Vec<&'static str>) {
        CommandKind::System.aliases()
    }

    fn needs_auth(&self) -> (r: bool) {
        CommandKind::System.needs_auth()
    }

    fn description(&self) -> (r: &'static str) {
        CommandKind::System.description()
    }

    fn execute(&self, store: &mut TokenStore, cfg: &AuthConfig, now: u64, ctx: CommandContext) -> (
        r: CommandResponse) {
        if !ctx.is_authenticated {
            return unauthorized_response();
        }
        let os = match crate::host::os_type_name() {
            Option::Some(s) => s,
            Option::None => "unknown".to_owned(),
        };
        let cores = crate::host::cpu_count();
        let mem = match crate::host::total_memory_kb() {
            Option::Some(kb) => u64_to_string(kb / 1024),
            Option::None => "unknown".to_owned(),
        };
        let hours = now / 3600;
        let message = system_message(os.as_str(), cores as u64, mem.as_str(), hours);
        CommandResponse {
            success: true,
            message,
            action: Option::None,
            token_status: Option::None,
            request_password: Option::None,
        }
    }
}

/// The listing of the jump targets shown by `enter`.
pub open spec fn spec_targets_text(authed: bool) -> Seq<char> {
    "available targets:\n- home: homepage\n- git: Git repository\n- tv: TV platform\n"@ + (
    if authed {
        "\n[auth] marks targets that require authentication"@
    } else {
        Seq::<char>::empty()
    })
}

/// The jump target registered under `n`: its name, URL and whether it is
/// gated on authentication.
pub open spec fn spec_find_target(n: Seq<char>) -> Option<(Seq<char>, Seq<char>, bool)> {
    if n == "home"@ {
        Option::Some(("home"@, "https://lycrex.com"@, false))
    } else if n == "git"@ {
        Option::Some(("git"@, "https://git.lycrex.com"@, false))
    } else if n == "tv"@ {
        Option::Some(("tv"@, "https://tv.lycrex.com"@, false))
    } else {
        Option::None
    }
}

/// Target selection: the invoking command name itself wins; otherwise the
/// first argument, lower-cased, is tried.
pub open spec fn spec_process_target(cmd: Seq<char>, args: Seq<Seq<char>>) -> Option<
    (Seq<char>, Seq<char>, bool),
> {
    if spec_find_target(cmd) is Some {
        spec_find_target(cmd)
    } else if args.len() > 0 {
        spec_find_target(lower(args[0]))
    } else {
        Option::None
    }
}

/// Jumps to a named target, either by `enter <target>` or through one of
/// the direct shortcut names.
pub struct EnterCommand {}

impl EnterCommand {
    pub fn new() -> (r: Self)
        ensures
            r == (EnterCommand {  }),
    {
        EnterCommand {  }
    }

    /// The target listing for the caller's authentication level.
    pub fn get_targets(&self, is_authenticated: bool) -> (r: String)
        ensures
            r@ == spec_targets_text(is_authenticated),
    {
        let mut out =
            "available targets:\n- home: homepage\n- git: Git repository\n- tv: TV platform\n".to_owned();
        if is_authenticated {
            out.append("\n[auth] marks targets that require authentication");
        }
        proof {
            assert(out@ =~= spec_targets_text(is_authenticated));
        }
        out
    }

    /// The target registered under exactly `name`.
    fn find_target(name: &str) -> (r: Option<(&'static str, &'static str, bool)>)
        ensures
            (r is Some) == (spec_find_target(name@) is Some),
            r is Some ==> ({
                let found = r->0;
                let t = spec_find_target(name@)->0;
                &&& found.0@ == t.0
                &&& found.1@ == t.1
                &&& found.2 == t.2
            }),
    {
        if str_eq(name, "home") {
            Option::Some(("home", "https://lycrex.com", false))
        } else if str_eq(name, "git") {
            Option::Some(("git", "https://git.lycrex.com", false))
        } else if str_eq(name, "tv") {
            Option::Some(("tv", "https://tv.lycrex.com", false))
        } else {
            Option::None
        }
    }

    /// Resolves a jump target from the invoking command name or, failing
    /// that, from the first argument.
    pub fn process_target(&self, cmd: &str, args: &Vec<String>) -> (r: Option<
        (&'static str, &'static str, bool),
    >)
        ensures
            (r is Some) == (spec_process_target(cmd@, args.deep_view()) is Some),
            r is Some ==> ({
                let found = r->0;
                let t = spec_process_target(cmd@, args.deep_view())->0;
                &&& found.0@ == t.0
                &&& found.1@ == t.1
                &&& found.2 == t.2
            }),
    {
        match Self::find_target(cmd) {
            Option::Some(t) => Option::Some(t),
            Option::None => {
                if args.len() > 0 {
                    let lowered = to_lowercase(args[0].as_str());
                    proof {
                        assert(args.deep_view()[0] == args@[0]@);
                    }
                    Self::find_target(lowered.as_str())
                } else {
                    Option::None
                }
            },
        }
    }
}

impl Command for EnterCommand {
    open spec fn spec_name(&self) -> Seq<char> {
        spec_kind_name(CommandKind::Enter)
    }

    open spec fn spec_aliases(&self) -> Seq<Seq<char>> {
        spec_kind_aliases(CommandKind::Enter)
    }

    open spec fn spec_needs_auth(&self) -> bool {
        spec_kind_needs_auth(CommandKind::Enter)
    }

    open spec fn spec_description(&self) -> Seq<char> {
        spec_kind_description(CommandKind::Enter)
    }

    /// Leaves the store alone. A resolved target yields a redirect action
    /// (refused where the target is gated and the caller unauthenticated);
    /// the `enter` family without a valid target explains the usage; any
    /// other invoking name reports an unknown target. Both failure texts
    /// list the targets visible at the caller's authentication level.
    open spec fn ens(
        &self,
        prior: Seq<TokenData>,
        cfg: AuthConfig,
        now: u64,
        ctx: CommandContext,
        post: Seq<TokenData>,
        r: CommandResponse,
    ) -> bool {
        let parts = split_ws(ctx.command_text@);
        let cmd_name = if parts.len() > 0 {
            lower(parts[0])
        } else {
            Seq::<char>::empty()
        };
        &&& post == prior
        &&& match spec_process_target(cmd_name, ctx.args.deep_view()) {
            Option::Some(t) => (if t.2 && !ctx.is_authenticated {
                is_unauthorized_response(r)
            } else {
                &&& r.success
                &&& r.message@ == "redirecting to "@ + t.0 + "..."@
                &&& r.action is Some
                &&& r.action->0.action_type@ == "redirect"@
                &&& r.action->0.target@ == t.1
                &&& r.token_status is None
                &&& r.request_password is None
            }),
            Option::None => (if cmd_name == "enter"@ || cmd_name == "goto"@ || cmd_name
                == "open"@ {
                plain_response(
                    r,
                    false,
                    "usage: enter <target>\n"@ + spec_targets_text(ctx.is_authenticated),
                )
            } else {
                plain_response(
                    r,
                    false,
                    "unknown target: "@ + cmd_name + "\n"@ + spec_targets_text(
                        ctx.is_authenticated,
                    ),
                )
            }),
        }
    }

    fn name(&self) -> (r: &'static str) {
        CommandKind::Enter.name()
    }

    fn aliases(&self) -> (r: Vec<&'static str>) {
        CommandKind::Enter.aliases()
    }

    fn needs_auth(&self) -> (r: bool) {
        CommandKind::Enter.needs_auth()
    }

    fn description(&self) -> (r: &'static str) {
        CommandKind::Enter.description()
    }

    fn execute(&self, store: &mut TokenStore, cfg: &AuthConfig, now: u64, ctx: CommandContext) -> (
        r: CommandResponse) {
        let parts = split_whitespace(ctx.command_text.as_str());
        let cmd_name = if parts.len() > 0 {
            proof {
                assert(parts.deep_view()[0] == parts@[0]@);
            }
            to_lowercase(parts[0].as_str())
        } else {
            String::new()
        };
        match self.process_target(cmd_name.as_str(), &ctx.args) {
            Option::Some((nm, url, na)) => {
                if na && !ctx.is_authenticated {
                    unauthorized_response()
                } else {
                    let mut message = "redirecting to ".to_owned();
                    message.append(nm);
                    message.append("...");
                    CommandResponse {
                        success: true,
                        message,
                        action: Option::Some(
                            CommandAction {
                                action_type: "redirect".to_owned(),
                                target: url.to_owned(),
                            },
                        ),
                        token_status: Option::None,
                        request_password: Option::None,
                    }
                }
            },
            Option::None => {
                let is_enter_family = str_eq(cmd_name.as_str(), "enter") || str_eq(
                    cmd_name.as_str(),
                    "goto",
                ) || str_eq(cmd_name.as_str(), "open");
                let mut message = if is_enter_family {
                    "usage: enter <target>\n".to_owned()
                } else {
                    let mut m = "unknown target: ".to_owned();
                    m.append(cmd_name.as_str());
                    m.append("\n");
                    m
                };
                message.append(self.get_targets(ctx.is_authenticated).as_str());
                CommandResponse {
                    success: false,
                    message,
                    action: Option::None,
                    token_status: Option::None,
                    request_password: Option::None,
                }
            },
        }
    }
}

/// One entry of the token listing, under its one-based display index.
pub open spec fn spec_token_line(i: int, d: TokenDisplayInfo) -> Seq<char> {
    dec_str(i + 1) + ". token: "@ + d.token_masked@ + "\n   ip: "@ + d.ip_address@
        + "\n   created: "@ + d.created_at@ + "\n   expires: "@ + d.expires_at@ + "\n   status: "@
        + d.status@ + "\n   revoke: token revoke "@ + dec_str(i + 1) + "\n\n"@
}

/// The lines of the token listing, in order.
pub open spec fn spec_token_lines(ds: Seq<TokenDisplayInfo>) -> Seq<char>
    decreases ds.len(),
{
    if ds.len() == 0 {
        Seq::empty()
    } else {
        spec_token_lines(ds.drop_last()) + spec_token_line(ds.len() - 1, ds.last())
    }
}

/// The whole token listing: a count, one block per token, and a
/// revocation hint.
pub open spec fn spec_token_list_message(ds: Seq<TokenDisplayInfo>) -> Seq<char> {
    "total "@ + dec_str(ds.len() as int) + " tokens:\n\n"@ + spec_token_lines(ds)
        + "hint: use 'token revoke <id>' to revoke a token"@
}

/// Renders the token listing for the given display rows.
pub fn token_list_message(details: &Vec<TokenDisplayInfo>) -> (r: String)
    ensures
        r@ == spec_token_list_message(details@),
{
    let n = details.len();
    let mut out = "total ".to_owned();
    out.append(u64_to_string(n as u64).as_str());
    out.append(" tokens:\n\n");
    let ghost head = out@;
    let mut i: usize = 0;
    proof {
        assert(out@ =~= head + spec_token_lines(details@.take(0)));
    }
    while i < n
        invariant
            i <= n,
            n == details@.len(),
            out@ == head + spec_token_lines(details@.take(i as int)),
        decreases n - i,
    {
        let idx = u64_to_string((i + 1) as u64);
        let mut line = idx.clone();
        line.append(". token: ");
        line.append(details[i].token_masked.as_str());
        line.append("\n   ip: ");
        line.append(details[i].ip_address.as_str());
        line.append("\n   created: ");
        line.append(details[i].created_at.as_str());
        line.append("\n   expires: ");
        line.append(details[i].expires_at.as_str());
        line.append("\n   status: ");
        line.append(details[i].status.as_str());
        line.append("\n   revoke: token revoke ");
        line.append(idx.as_str());
        line.append("\n\n");
        proof {
            assert(line@ =~= spec_token_line(i as int, details@[i as int]));
        }
        out.append(line.as_str());
        proof {
            assert(details@.take(i + 1).drop_last() =~= details@.take(i as int));
            assert(details@.take(i + 1).last() == details@[i as int]);
            assert(out@ =~= head + spec_token_lines(details@.take(i + 1)));
        }
        i += 1;
    }
    out.append("hint: use 'token revoke <id>' to revoke a token");
    proof {
        assert(details@.take(n as int) =~= details@);
        assert(out@ =~= spec_token_list_message(details@));
    }
    out
}

/// What the token command does. Unauthenticated callers are refused and
/// the store stays as it was. Without arguments the store is swept and
/// listed. `revoke <id>` sweeps and removes one token, addressed by its
/// one-based display index where `<id>` parses as one and is in range,
/// else by its literal value; an unknown id removes nothing. Any other
/// argument is answered with the usage text, the store untouched.
pub open spec fn token_execute_post(
    prior: Seq<TokenData>,
    cfg: AuthConfig,
    now: u64,
    ctx: CommandContext,
    post: Seq<TokenData>,
    r: CommandResponse,
) -> bool {
    let swept = spec_sweep(prior, now, cfg.token_expiration_seconds);
    if !ctx.is_authenticated {
        post == prior && is_unauthorized_response(r)
    } else if ctx.args@.len() == 0 {
        &&& post == swept
        &&& if swept.len() == 0 {
            plain_response(r, true, "no active tokens"@)
        } else {
            &&& r.success
            &&& r.action is None
            &&& r.token_status is None
            &&& r.request_password is None
            &&& exists|ds: Seq<TokenDisplayInfo>|
                {
                    &&& ds.len() == swept.len()
                    &&& (forall|i: int| 0 <= i < ds.len() ==> display_matches(swept[i], ds[i]))
                    &&& r.message@ == #[trigger] spec_token_list_message(ds)
                }
        }
    } else if lower(ctx.args@[0]@) == "revoke"@ && ctx.args@.len() > 1 {
        let id = ctx.args@[1]@;
        if all_digits(id) && id.len() > 0 && dec_value(id) <= u64::MAX && 1 <= dec_value(id)
            && dec_value(id) <= swept.len() {
            &&& post == others(swept, swept[dec_value(id) - 1].token@)
            &&& plain_response(r, true, "revoked token #"@ + dec_str(dec_value(id)))
        } else if has_token(swept, id) {
            &&& post == others(swept, id)
            &&& plain_response(
                r,
                true,
                "revoked token: "@ + (if id.len() <= 5 {
                    id
                } else {
                    id.take(5)
                }) + "***"@,
            )
        } else {
            &&& post == swept
            &&& plain_response(r, false, "no such token; nothing was revoked"@)
        }
    } else {
        &&& post == prior
        &&& plain_response(
            r,
            false,
            "unknown token subcommand; available:\n- token  - list all tokens\n- token revoke <id>  - revoke one token"@,
        )
    }
}

/// Lists the stored tokens or revokes one of them.
pub struct TokenCommand {}

impl TokenCommand {
    pub fn new() -> (r: Self)
        ensures
            r == (TokenCommand {  }),
    {
        TokenCommand {  }
    }
}

impl Command for TokenCommand {
    open spec fn spec_name(&self) -> Seq<char> {
        spec_kind_name(CommandKind::Token)
    }

    open spec fn spec_aliases(&self) -> Seq<Seq<char>> {
        spec_kind_aliases(CommandKind::Token)
    }

    open spec fn spec_needs_auth(&self) -> bool {
        spec_kind_needs_auth(CommandKind::Token)
    }

    open spec fn spec_description(&self) -> Seq<char> {
        spec_kind_description(CommandKind::Token)
    }

    open spec fn ens(
        &self,
        prior: Seq<TokenData>,
        cfg: AuthConfig,
        now: u64,
        ctx: CommandContext,
        post: Seq<TokenData>,
        r: CommandResponse,
    ) -> bool {
        token_execute_post(prior, cfg, now, ctx, post, r)
    }

    fn name(&self) -> (r: &'static str) {
        CommandKind::Token.name()
    }

    fn aliases(&self) -> (r: Vec<&'static str>) {
        CommandKind::Token.aliases()
    }

    fn needs_auth(&self) -> (r: bool) {
        CommandKind::Token.needs_auth()
    }

    fn description(&self) -> (r: &'static str) {
        CommandKind::Token.description()
    }

    fn execute(&self, store: &mut TokenStore, cfg: &AuthConfig, now: u64, ctx: CommandContext) -> (
        r: CommandResponse) {
        let ghost prior = store@;
        if !ctx.is_authenticated {
            return unauthorized_response();
        }
        if ctx.args.len() == 0 {
            let details = get_token_details(store, cfg, now);
            if details.len() == 0 {
                return CommandResponse {
                    success: true,
                    message: "no active tokens".to_owned(),
                    action: Option::None,
                    token_status: Option::None,
                    request_password: Option::None,
                };
            }
            let message = token_list_message(&details);
            proof {
                assert(details@.len() == store@.len() && (forall|i: int|
                    0 <= i < details@.len() ==> display_matches(store@[i], details@[i]))
                    && message@ == spec_token_list_message(details@));
            }
            return CommandResponse {
                success: true,
                message,
                action: Option::None,
                token_status: Option::None,
                request_password: Option::None,
            };
        }
        let sub = to_lowercase(ctx.args[0].as_str());
        if str_eq(sub.as_str(), "revoke") && ctx.args.len() > 1 {
            let details = get_token_details(store, cfg, now);
            let id = &ctx.args[1];
            let parsed = parse_dec(id.as_str());
            let idx_opt = if parsed.is_some() && 1 <= parsed.unwrap() && parsed.unwrap()
                <= details.len() as u64 {
                parsed
            } else {
                Option::None
            };
            match idx_opt {
                Option::Some(idx) => {
                    let victim = details[(idx - 1) as usize].token.clone();
                    proof {
                        assert(display_matches(store@[idx - 1], details@[idx - 1]));
                        assert(victim@ == store@[idx - 1].token@);
                        assert(has_token(store@, victim@));
                    }
                    let _ = revoke_token(store, victim.as_str());
                    let mut message = "revoked token #".to_owned();
                    message.append(u64_to_string(idx).as_str());
                    proof {
                        assert(message@ =~= "revoked token #"@ + dec_str(idx as int));
                    }
                    CommandResponse {
                        success: true,
                        message,
                        action: Option::None,
                        token_status: Option::None,
                        request_password: Option::None,
                    }
                },
                Option::None => {
                    let removed = revoke_token(store, id.as_str());
                    if removed {
                        let prefix = if id.as_str().unicode_len() <= 5 {
                            id.clone()
                        } else {
                            id.as_str().substring_char(0, 5).to_owned()
                        };
                        let mut message = "revoked token: ".to_owned();
                        message.append(prefix.as_str());
                        message.append("***");
                        proof {
                            if id@.len() > 5 {
                                assert(id@.take(5) =~= id@.subrange(0, 5));
                            }
                            assert(message@ =~= "revoked token: "@ + (if id@.len() <= 5 {
                                id@
                            } else {
                                id@.take(5)
                            }) + "***"@);
                        }
                        CommandResponse {
                            success: true,
                            message,
                            action: Option::None,
                            token_status: Option::None,
                            request_password: Option::None,
                        }
                    } else {
                        proof {
                            lemma_others_absent(
                                spec_sweep(prior, now, cfg.token_expiration_seconds),
                                id@,
                            );
                        }
                        CommandResponse {
                            success: false,
                            message: "no such token; nothing was revoked".to_owned(),
                            action: Option::None,
                            token_status: Option::None,
                            request_password: Option::None,
                        }
                    }
                },
            }
        } else {
            CommandResponse {
                success: false,
                message: "unknown token subcommand; available:\n- token  - list all tokens\n- token revoke <id>  - revoke one token".to_owned(),
                action: Option::None,
                token_status: Option::None,
                request_password: Option::None,
            }
        }
    }
}

/// Splits raw command text into the lower-cased command name and its
/// arguments; empty or all-whitespace text yields an empty name and no
/// arguments.
pub fn parse_command(command_text: &str) -> (r: (String, Vec<String>))
    ensures
        split_ws(command_text@).len() == 0 ==> r.0@ == Seq::<char>::empty()
            && r.1.deep_view() == Seq::<Seq<char>>::empty(),
        split_ws(command_text@).len() > 0 ==> r.0@ == lower(split_ws(command_text@)[0])
            && r.1.deep_view() == split_ws(command_text@).drop_first(),
{
    let parts = split_whitespace(command_text);
    if parts.len() == 0 {
        let empty_args: Vec<String> = Vec::new();
        proof {
            assert(empty_args.deep_view() =~= Seq::<Seq<char>>::empty());
        }
        return (String::new(), empty_args);
    }
    proof {
        assert(parts.deep_view()[0] == parts@[0]@);
    }
    let name = to_lowercase(parts[0].as_str());
    let mut args: Vec<String> = Vec::new();
    let n = parts.len();
    let mut i: usize = 1;
    proof {
        assert(args.deep_view() =~= parts.deep_view().subrange(1, 1));
    }
    while i < n
        invariant
            1 <= i <= n,
            n == parts@.len(),
            parts.deep_view() == split_ws(command_text@),
            args.deep_view() == parts.deep_view().subrange(1, i as int),
        decreases n - i,
    {
        let ghost pre = args.deep_view();
        args.push(parts[i].clone());
        proof {
            assert(args.deep_view() =~= pre.push(parts@[i as int]@));
            assert(parts.deep_view()[i as int] == parts@[i as int]@);
            assert(parts.deep_view().subrange(1, i + 1) =~= parts.deep_view().subrange(
                1,
                i as int,
            ).push(parts.deep_view()[i as int]));
        }
        i += 1;
    }
    proof {
        assert(parts.deep_view().subrange(1, n as int) =~= parts.deep_view().drop_first());
    }
    (name, args)
}

} // verus!
