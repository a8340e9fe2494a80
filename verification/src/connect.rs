//! Connecting to a host and staying connected.

use vstd::prelude::*;

use crate::config::Config;
use crate::config::ForwardError;
use crate::config::Forwards;
use crate::text::clone_opt;
use crate::text::clone_texts;
use crate::text::debug_text;
use crate::text::decimal_text;
use crate::tmux::build_remote_command;
use crate::tmux::with_alt_screen_watcher;
use crate::vault::HostSettings;
use crate::vault::SettingsModel;

verus! {

/// The status with which ssh reports its own failures. Any other is that of the
/// remote command.
pub const SSH_FAILURE: i32 = 255;

/// How long a session has to last to count as established, in seconds.
pub const ESTABLISHED_AFTER: u64 = 30;

/// When and how often a dropped session is taken up again.
#[derive(Debug, Clone, Copy, PartialEq, Eq, Structural)]
pub struct ReconnectPolicy {
    pub enabled: bool,
    pub max_attempts: u32,
    pub initial_delay_secs: u64,
    pub max_delay_secs: u64,
}

/// The wait before an attempt, counted from one: it doubles each time, up to a limit.
pub open spec fn backoff(policy: ReconnectPolicy, attempt: u32) -> nat {
    let doublings = if attempt == 0 {
        0
    } else {
        (attempt - 1) as nat
    };
    let secs = policy.initial_delay_secs as nat * vstd::arithmetic::power2::pow2(doublings);
    if secs < policy.max_delay_secs {
        secs
    } else {
        policy.max_delay_secs as nat
    }
}

/// The policy of a configuration.
pub open spec fn policy_of(config: Config, disabled_by_flag: bool) -> ReconnectPolicy {
    ReconnectPolicy {
        enabled: config.settings.reconnect && !disabled_by_flag,
        max_attempts: config.settings.reconnect_max_attempts,
        initial_delay_secs: config.settings.reconnect_delay_secs,
        max_delay_secs: config.settings.reconnect_max_delay_secs,
    }
}

impl ReconnectPolicy {
    /// The policy of a configuration.
    pub fn from_config(config: &Config, disabled_by_flag: bool) -> (r: ReconnectPolicy)
        ensures
            r == policy_of(*config, disabled_by_flag),
    {
        ReconnectPolicy {
            enabled: config.settings.reconnect && !disabled_by_flag,
            max_attempts: config.settings.reconnect_max_attempts,
            initial_delay_secs: config.settings.reconnect_delay_secs,
            max_delay_secs: config.settings.reconnect_max_delay_secs,
        }
    }

    /// The wait before an attempt, in seconds. A large number of attempts never wraps
    /// around into a short wait.
    pub fn delay_for(&self, attempt: u32) -> (r: u64)
        ensures
            r == backoff(*self, attempt),
    {
        let max: u64 = self.max_delay_secs;
        let mut secs: u64 = self.initial_delay_secs;
        proof {
            vstd::arithmetic::power2::lemma2_to64();
            assert(self.initial_delay_secs as nat * 1nat == self.initial_delay_secs);
        }
        if secs == 0 {
            assert(0nat * vstd::arithmetic::power2::pow2((attempt - 1) as nat) == 0) by (nonlinear_arith);
            return 0;
        }
        let mut n: u32 = 1;
        while n < attempt
            invariant
                1 <= n,
                n == 1 || n <= attempt,
                max == self.max_delay_secs,
                secs > 0,
                secs == self.initial_delay_secs as nat * vstd::arithmetic::power2::pow2((n - 1) as nat),
            decreases attempt - n,
        {
            if secs >= max || secs > 0x7fff_ffff_ffff_ffff {
                proof {
                    lemma_more_doublings(self.initial_delay_secs as nat, n as nat, attempt as nat);
                }
                return max;
            }
            proof {
                let k = (n - 1) as nat;
                let base = self.initial_delay_secs as nat;
                vstd::arithmetic::power2::lemma_pow2_unfold(n as nat);
                let p = vstd::arithmetic::power2::pow2(k);
                assert(base * (2 * p) == 2 * (base * p)) by (nonlinear_arith);
            }
            secs = secs * 2;
            n = n + 1;
        }
        if secs < max {
            secs
        } else {
            max
        }
    }
}

/// One more doubling at least doubles.
proof fn lemma_more_doublings(base: nat, n: nat, attempt: nat)
    requires
        1 <= n < attempt,
    ensures
        base * vstd::arithmetic::power2::pow2((attempt - 1) as nat) >= 2 * (base
            * vstd::arithmetic::power2::pow2((n - 1) as nat)),
    decreases attempt - n,
{
    let p = vstd::arithmetic::power2::pow2((n - 1) as nat);
    let q = vstd::arithmetic::power2::pow2(n);
    vstd::arithmetic::power2::lemma_pow2_unfold(n);
    assert(base * (2 * p) == 2 * (base * p)) by (nonlinear_arith);
    if n + 1 < attempt {
        lemma_more_doublings(base, n + 1, attempt);
        assert(2 * (base * q) >= base * q);
    }
}

/// What can be varied about one connection.
#[derive(Debug)]
pub struct ConnectOptions {
    /// Edit ordinary shell lines locally.
    pub local_echo: bool,
    /// Exit when the connection drops.
    pub no_reconnect: bool,
    /// Forwards from the command line.
    pub forwards: Forwards,
    /// Attach as a viewer.
    pub read_only: bool,
    /// How many lines of history to replay, in place of the configured number.
    pub scrollback: Option<u32>,
}

impl Clone for ConnectOptions {
    fn clone(&self) -> (r: ConnectOptions)
        ensures
            r.local_echo == self.local_echo,
            r.no_reconnect == self.no_reconnect,
            crate::text::texts(r.forwards.local@) == crate::text::texts(self.forwards.local@),
            crate::text::texts(r.forwards.remote@) == crate::text::texts(self.forwards.remote@),
            crate::text::texts(r.forwards.dynamic@) == crate::text::texts(self.forwards.dynamic@),
            r.read_only == self.read_only,
            r.scrollback == self.scrollback,
    {
        ConnectOptions {
            local_echo: self.local_echo,
            no_reconnect: self.no_reconnect,
            forwards: self.forwards.clone(),
            read_only: self.read_only,
            scrollback: self.scrollback,
        }
    }
}

/// Why a connection is not made, or is given up.
#[derive(Debug)]
pub enum ConnectError {
    /// No layout of this name is configured.
    LayoutNotFound(String),
    /// A forward is refused.
    Forward(ForwardError),
    /// The connection failed and is not tried again.
    Failed { alias: String },
    /// The connection failed too often.
    GaveUp { alias: String, attempts: u32 },
}

impl ConnectError {
    /// The error in words.
    pub open spec fn text(&self) -> Seq<char> {
        match self {
            ConnectError::LayoutNotFound(name) => "layout "@ + crate::text::debug_quoted(name@)
                + " not found in config"@,
            ConnectError::Forward(e) => e.text(),
            ConnectError::Failed { alias } => "ssh connection to "@ + alias@ + " failed"@,
            ConnectError::GaveUp { alias, attempts } => "ssh connection to "@ + alias@
                + " failed after "@ + crate::text::decimal(*attempts as nat)
                + " reconnect attempts"@,
        }
    }

    /// What to tell the user.
    pub fn message(&self) -> (r: String)
        ensures
            r@ == self.text(),
    {
        match self {
            ConnectError::LayoutNotFound(name) => {
                let mut out = "layout ".to_string();
                out.append(debug_text(name.as_str()).as_str());
                out.append(" not found in config");
                out
            },
            ConnectError::Forward(e) => e.message(),
            ConnectError::Failed { alias } => {
                let mut out = "ssh connection to ".to_string();
                out.append(alias.as_str());
                out.append(" failed");
                out
            },
            ConnectError::GaveUp { alias, attempts } => {
                let mut out = "ssh connection to ".to_string();
                out.append(alias.as_str());
                out.append(" failed after ");
                out.append(decimal_text(*attempts as u64).as_str());
                out.append(" reconnect attempts");
                out
            },
        }
    }
}

/// All that is settled before the first attempt.
#[derive(Debug)]
pub struct ConnectPlan {
    /// The command of the first attempt.
    pub first_attach: String,
    /// The command of every later attempt.
    pub reattach: String,
    pub forward_args: Vec<String>,
    pub policy: ReconnectPolicy,
    /// Whether lines are edited locally.
    pub local_echo: bool,
}

/// Whether lines are edited locally: it is asked for, there is something to type
/// into, and there is a terminal to draw on.
pub open spec fn edits_locally(opts: ConnectOptions, terminal: bool) -> bool {
    opts.local_echo && !opts.read_only && terminal
}

/// The layout that is used for a host.
pub open spec fn chosen_layout(config: Config, alias: Seq<char>, asked: Option<Seq<char>>) -> Option<
    Seq<crate::config::WindowModel>,
> {
    match config.layout_name(alias, asked) {
        Some(n) => if config.layouts@.dom().contains(n) {
            Some(config.layouts@[n]@)
        } else {
            None
        },
        None => None,
    }
}

/// The command of an attempt that replays `lines` lines of history.
pub open spec fn attempt_command(
    config: Config,
    alias: Seq<char>,
    asked: Option<Seq<char>>,
    opts: ConnectOptions,
    terminal: bool,
    lines: u32,
) -> Seq<char> {
    let session = config.session_name(alias);
    let command = crate::tmux::remote_command(
        session,
        chosen_layout(config, alias, asked),
        opts.read_only,
        lines,
        edits_locally(opts, terminal),
    );
    if edits_locally(opts, terminal) {
        crate::tmux::watched_command(session, command)
    } else {
        command
    }
}

/// How much history the first attempt replays.
pub open spec fn first_lines(config: Config, opts: ConnectOptions) -> u32 {
    match opts.scrollback {
        Some(n) => n,
        None => config.settings.scrollback_lines,
    }
}

/// The command of an attempt.
fn attempt_text(
    session: &str,
    layout: Option<&crate::config::Layout>,
    read_only: bool,
    lines: u32,
    local_echo: bool,
) -> (r: String)
    ensures
        r@ == ({
            let command = crate::tmux::remote_command(
                session@,
                crate::tmux::layout_model(layout),
                read_only,
                lines,
                local_echo,
            );
            if local_echo {
                crate::tmux::watched_command(session@, command)
            } else {
                command
            }
        }),
{
    let command = build_remote_command(session, layout, read_only, lines, local_echo);
    if local_echo {
        with_alt_screen_watcher(session, command.as_str())
    } else {
        command
    }
}

/// Whether a layout is asked for that is not configured.
pub open spec fn layout_missing(config: Config, alias: Seq<char>, asked: Option<Seq<char>>) -> bool {
    asked is Some && chosen_layout(config, alias, asked) is None
}

/// Whether a plan is the one for a connection.
pub open spec fn is_plan(
    plan: ConnectPlan,
    config: Config,
    alias: Seq<char>,
    asked: Option<Seq<char>>,
    opts: ConnectOptions,
    terminal: bool,
) -> bool {
    &&& plan.first_attach@ == attempt_command(
        config,
        alias,
        asked,
        opts,
        terminal,
        first_lines(config, opts),
    )
    &&& plan.reattach@ == attempt_command(config, alias, asked, opts, terminal, 0)
    &&& crate::text::texts(plan.forward_args@) == crate::config::forward_words(
        crate::config::all_forwards(config.meta_of(alias), opts.forwards),
    )
    &&& plan.policy == policy_of(config, opts.no_reconnect)
    &&& plan.local_echo == edits_locally(opts, terminal)
}

/// Settles what a connection will do. History is replayed on the first attempt only:
/// the terminal still shows it on the others. `terminal` says whether input and
/// output are a terminal that lines can be edited on.
pub fn plan_connect(
    alias: &str,
    config: &Config,
    layout_override: Option<&str>,
    opts: &ConnectOptions,
    terminal: bool,
) -> (r: Result<ConnectPlan, ConnectError>)
    ensures
        ({
            let asked = crate::text::opt_str(layout_override);
            let missing = layout_missing(*config, alias@, asked);
            let pairs = crate::config::all_forwards(config.meta_of(alias@), opts.forwards);
            match r {
                Ok(p) => {
                    &&& !missing
                    &&& is_plan(p, *config, alias@, asked, *opts, terminal)
                    &&& crate::config::all_sound(pairs)
                },
                Err(ConnectError::LayoutNotFound(name)) => missing && asked == Some(name@),
                Err(ConnectError::Forward(e)) => !missing && crate::config::is_first_fault(
                    pairs,
                    e@,
                ),
                Err(_) => false,
            }
        }),
{
    let session = config.session_for(alias);
    let layout = config.resolve_layout(alias, layout_override);
    assert(crate::tmux::layout_model(layout) == chosen_layout(
        *config,
        alias@,
        crate::text::opt_str(layout_override),
    ));
    if let Some(name) = layout_override {
        if layout.is_none() {
            return Err(ConnectError::LayoutNotFound(name.to_string()));
        }
    }
    let lines: u32 = match opts.scrollback {
        Some(n) => n,
        None => config.settings.scrollback_lines,
    };
    let policy = ReconnectPolicy::from_config(config, opts.no_reconnect);
    let forward_args = match config.forward_args(alias, &opts.forwards) {
        Ok(args) => args,
        Err(e) => return Err(ConnectError::Forward(e)),
    };
    let local_echo = opts.local_echo && !opts.read_only && terminal;
    let first_attach = attempt_text(session.as_str(), layout, opts.read_only, lines, local_echo);
    let reattach = attempt_text(session.as_str(), layout, opts.read_only, 0, local_echo);
    Ok(ConnectPlan { first_attach, reattach, forward_args, policy, local_echo })
}

/// Where and as whom to connect.
#[derive(Debug)]
pub struct Target {
    pub address: String,
    pub username: Option<String>,
    pub password: Option<String>,
}

/// The address, the user and the password to connect with: what the vault says, else
/// the alias for the address.
pub open spec fn target_parts(alias: Seq<char>, settings: Option<SettingsModel>) -> (
    Seq<char>,
    Option<Seq<char>>,
    Option<Seq<char>>,
) {
    match settings {
        Some(s) => (
            match s.address {
                Some(a) => a,
                None => alias,
            },
            s.username,
            s.password,
        ),
        None => (alias, None, None),
    }
}

/// Where and as whom to connect: what the vault says, else the alias.
pub fn target_of(alias: &str, settings: &Option<HostSettings>) -> (r: Target)
    ensures
        (r.address@, crate::text::opt_text(r.username), crate::text::opt_text(r.password))
            == target_parts(alias@, crate::vault::opt_settings(*settings)),
{
    match settings {
        Some(s) => {
            let address = match &s.address {
                Some(a) => a.clone(),
                None => alias.to_string(),
            };
            Target { address, username: clone_opt(&s.username), password: clone_opt(&s.password) }
        },
        None => Target { address: alias.to_string(), username: None, password: None },
    }
}

/// The arguments of ssh for an attempt. Forwards come before what was passed through,
/// which therefore has the last word.
pub open spec fn connect_words(
    mux: Seq<Seq<char>>,
    forwards: Seq<Seq<char>>,
    passthrough: Seq<Seq<char>>,
    username: Option<Seq<char>>,
    address: Seq<char>,
    remote: Seq<char>,
) -> Seq<Seq<char>> {
    let login = match username {
        Some(u) => seq!["-l"@, u],
        None => Seq::empty(),
    };
    seq!["-t"@] + mux + forwards + passthrough + login + seq![address, remote]
}

/// The arguments of ssh for an attempt.
pub fn connect_args(
    mux: &Vec<String>,
    forwards: &Vec<String>,
    passthrough: &Vec<String>,
    target: &Target,
    remote: &str,
) -> (r: Vec<String>)
    ensures
        crate::text::texts(r@) == connect_words(
            crate::text::texts(mux@),
            crate::text::texts(forwards@),
            crate::text::texts(passthrough@),
            crate::text::opt_text(target.username),
            target.address@,
            remote@,
        ),
{
    let mut out: Vec<String> = Vec::new();
    let mut a = clone_texts(mux);
    let mut b = clone_texts(forwards);
    let mut c = clone_texts(passthrough);
    assert(crate::text::texts(a@).len() == a@.len());
    assert(crate::text::texts(b@).len() == b@.len());
    assert(crate::text::texts(c@).len() == c@.len());
    out.push("-t".to_string());
    out.append(&mut a);
    out.append(&mut b);
    out.append(&mut c);
    if let Some(u) = &target.username {
        out.push("-l".to_string());
        out.push(u.clone());
    }
    out.push(target.address.clone());
    out.push(remote.to_string());
    proof {
        let want = connect_words(
            crate::text::texts(mux@),
            crate::text::texts(forwards@),
            crate::text::texts(passthrough@),
            crate::text::opt_text(target.username),
            target.address@,
            remote@,
        );
        assert(crate::text::texts(out@) =~= want);
    }
    out
}

/// What follows when ssh has ended.
#[derive(Debug)]
pub enum Verdict {
    /// The session is over.
    Done,
    /// The connection is given up.
    Fail(ConnectError),
    /// The session is taken up again after a wait.
    Retry { attempt: u32, delay_secs: u64 },
}

/// How many attempts count against the budget when a session of `elapsed_secs` drops:
/// one that was established earns a fresh budget.
pub open spec fn attempts_spent(attempt: u32, elapsed_secs: u64) -> u32 {
    if elapsed_secs >= ESTABLISHED_AFTER {
        0
    } else {
        attempt
    }
}

/// Whether a verdict is the one that follows when ssh has ended with a status.
pub open spec fn is_verdict(
    policy: ReconnectPolicy,
    alias: Seq<char>,
    attempt: u32,
    code: Option<i32>,
    elapsed_secs: u64,
    verdict: Verdict,
) -> bool {
    let spent = attempts_spent(attempt, elapsed_secs);
    match verdict {
        Verdict::Done => code != Some(SSH_FAILURE),
        Verdict::Fail(ConnectError::Failed { alias: a }) => code == Some(SSH_FAILURE)
            && !policy.enabled && a@ == alias,
        Verdict::Fail(ConnectError::GaveUp { alias: a, attempts }) => code == Some(SSH_FAILURE)
            && policy.enabled && spent >= policy.max_attempts && a@ == alias && attempts
            == policy.max_attempts,
        Verdict::Fail(_) => false,
        Verdict::Retry { attempt: next, delay_secs } => code == Some(SSH_FAILURE) && policy.enabled
            && spent < policy.max_attempts && next == spent + 1 && delay_secs == backoff(
            policy,
            next,
        ),
    }
}

/// Decides what follows when ssh has ended with a status, none where a signal ended
/// it. A clean exit, and a failure of the remote command, end the session; only the
/// connection failing brings another attempt.
pub fn after_exit(
    policy: &ReconnectPolicy,
    alias: &str,
    attempt: u32,
    code: Option<i32>,
    elapsed_secs: u64,
) -> (r: Verdict)
    ensures
        is_verdict(*policy, alias@, attempt, code, elapsed_secs, r),
{
    let failed = match code {
        Some(c) => c == SSH_FAILURE,
        None => false,
    };
    if !failed {
        return Verdict::Done;
    }
    if !policy.enabled {
        return Verdict::Fail(ConnectError::Failed { alias: alias.to_string() });
    }
    let spent: u32 = if elapsed_secs >= ESTABLISHED_AFTER {
        0
    } else {
        attempt
    };
    if spent >= policy.max_attempts {
        return Verdict::Fail(
            ConnectError::GaveUp { alias: alias.to_string(), attempts: policy.max_attempts },
        );
    }
    let next: u32 = spent + 1;
    Verdict::Retry { attempt: next, delay_secs: policy.delay_for(next) }
}

/// What is said before an attempt.
pub open spec fn reconnect_text(
    alias: Seq<char>,
    attempt: nat,
    delay_secs: nat,
    max_attempts: nat,
) -> Seq<char> {
    "Connection to "@ + alias + " lost — reconnecting in "@ + crate::text::decimal(delay_secs)
        + "s (attempt "@ + crate::text::decimal(attempt) + "/"@ + crate::text::decimal(max_attempts)
        + ")…"@
}

/// What is said before an attempt.
pub fn reconnect_notice(alias: &str, attempt: u32, delay_secs: u64, max_attempts: u32) -> (r: String)
    ensures
        r@ == reconnect_text(alias@, attempt as nat, delay_secs as nat, max_attempts as nat),
{
    let mut out = "Connection to ".to_string();
    out.append(alias);
    out.append(" lost — reconnecting in ");
    out.append(decimal_text(delay_secs).as_str());
    out.append("s (attempt ");
    out.append(decimal_text(attempt as u64).as_str());
    out.append("/");
    out.append(decimal_text(max_attempts as u64).as_str());
    out.append(")…");
    out
}

/// The wait never shrinks from one attempt to the next, and never exceeds the limit.
pub proof fn law_waits_grow_to_the_limit(policy: ReconnectPolicy, attempt: u32)
    requires
        attempt < u32::MAX,
    ensures
        backoff(policy, attempt) <= backoff(policy, (attempt + 1) as u32),
        backoff(policy, attempt) <= policy.max_delay_secs,
{
    if attempt > 0 {
        lemma_more_doublings(
            policy.initial_delay_secs as nat,
            attempt as nat,
            (attempt + 1) as nat,
        );
    }
}

/// As long as the limit is not reached, the wait doubles.
pub proof fn law_waits_double(policy: ReconnectPolicy, attempt: u32)
    requires
        1 <= attempt < u32::MAX,
        2 * backoff(policy, attempt) < policy.max_delay_secs,
    ensures
        backoff(policy, (attempt + 1) as u32) == 2 * backoff(policy, attempt),
{
    let base = policy.initial_delay_secs as nat;
    let p = vstd::arithmetic::power2::pow2((attempt - 1) as nat);
    vstd::arithmetic::power2::lemma_pow2_unfold(attempt as nat);
    assert(base * (2 * p) == 2 * (base * p)) by (nonlinear_arith);
}

/// Only the first attempt replays history: the command of every later one is the
/// attach, with nothing before it but the mark for the line editor.
pub proof fn law_reattach_replays_nothing(
    config: Config,
    alias: Seq<char>,
    asked: Option<Seq<char>>,
    opts: ConnectOptions,
    terminal: bool,
)
    ensures
        ({
            let session = config.session_name(alias);
            let attach = crate::tmux::ready_command(edits_locally(opts, terminal))
                + crate::tmux::attach_command(
                session,
                chosen_layout(config, alias, asked),
                opts.read_only,
            );
            attempt_command(config, alias, asked, opts, terminal, 0) == if edits_locally(opts, terminal) {
                crate::tmux::watched_command(session, attach)
            } else {
                attach
            }
        }),
{
    let session = config.session_name(alias);
    let ready = crate::tmux::ready_command(edits_locally(opts, terminal));
    let attach = crate::tmux::attach_command(
        session,
        chosen_layout(config, alias, asked),
        opts.read_only,
    );
    assert(crate::tmux::replay_command(session, 0) + ready + attach =~= ready + attach);
}

/// The attempt that follows some drops in a row, each of a session that lasted so
/// many seconds; none where the connection was given up.
pub open spec fn attempt_after(policy: ReconnectPolicy, drops: Seq<u64>) -> Option<u32>
    decreases drops.len(),
{
    if drops.len() == 0 {
        Some(0)
    } else {
        match attempt_after(policy, drops.drop_last()) {
            Some(attempt) => {
                let spent = attempts_spent(attempt, drops.last());
                if spent < policy.max_attempts {
                    Some((spent + 1) as u32)
                } else {
                    None
                }
            },
            None => None,
        }
    }
}

/// A host that never lets a session get established is tried as often as the policy
/// says, and then given up.
pub proof fn law_budget_is_kept(policy: ReconnectPolicy, drops: Seq<u64>)
    requires
        forall|i: int| 0 <= i < drops.len() ==> #[trigger] drops[i] < ESTABLISHED_AFTER,
    ensures
        attempt_after(policy, drops) == if drops.len() <= policy.max_attempts {
            Some(drops.len() as u32)
        } else {
            None
        },
    decreases drops.len(),
{
    if drops.len() > 0 {
        let front = drops.drop_last();
        assert forall|i: int| 0 <= i < front.len() implies #[trigger] front[i] < ESTABLISHED_AFTER by {
            assert(front[i] == drops[i]);
        }
        assert(drops[drops.len() - 1] < ESTABLISHED_AFTER);
        law_budget_is_kept(policy, front);
    }
}

/// A session that was established earns a fresh budget: its drop is followed by the
/// first attempt again.
pub proof fn law_established_earns_fresh_budget(policy: ReconnectPolicy, drops: Seq<u64>, lasted: u64)
    requires
        policy.max_attempts > 0,
        attempt_after(policy, drops) is Some,
        lasted >= ESTABLISHED_AFTER,
    ensures
        attempt_after(policy, drops.push(lasted)) == Some(1u32),
{
    assert(drops.push(lasted).drop_last() =~= drops);
}

} // verus!
