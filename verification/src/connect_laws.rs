//! What holds of every configuration and of every connection that is made by it.

use vstd::prelude::*;

use crate::config::Config;
use crate::config::Forwards;
use crate::config::MetaModel;
use crate::connect::ConnectError;
use crate::connect::ConnectOptions;
use crate::connect::ConnectPlan;
use crate::connect::ReconnectPolicy;
use crate::connect::Verdict;
use crate::vault::SettingsModel;

verus! {

/// A host has the session that is configured for it, else the default one.
pub proof fn law_session_names(config: Config, alias: Seq<char>)
    ensures
        config.hosts@.dom().contains(alias) && config.hosts@[alias]@.session is Some
            ==> config.session_name(alias) == config.hosts@[alias]@.session->0,
        config.hosts@.dom().contains(alias) && config.hosts@[alias]@.session is None
            ==> config.session_name(alias) == config.settings.default_session@,
        !config.hosts@.dom().contains(alias) ==> config.session_name(alias)
            == config.settings.default_session@,
{
}

/// The layout that is asked for comes before the one that is configured, and a name
/// that no layout has stands for none.
pub proof fn law_layout_choice(config: Config, alias: Seq<char>, name: Seq<char>)
    ensures
        config.layouts@.dom().contains(name) ==> crate::connect::chosen_layout(
            config,
            alias,
            Some(name),
        ) == Some(config.layouts@[name]@),
        !config.layouts@.dom().contains(name) ==> crate::connect::chosen_layout(
            config,
            alias,
            Some(name),
        ) is None,
        config.hosts@.dom().contains(alias) && config.hosts@[alias]@.layout == Some(name)
            ==> crate::connect::chosen_layout(config, alias, None) == crate::connect::chosen_layout(
            config,
            alias,
            Some(name),
        ),
        !config.hosts@.dom().contains(alias) || config.hosts@[alias]@.layout is None
            ==> crate::connect::chosen_layout(config, alias, None) is None,
{
}

/// Each local forward is given with `-L`, each remote one with `-R`, each dynamic one
/// with `-D`; of each, those of the configuration come before those of the command
/// line, and none is lost.
pub proof fn law_every_forward_is_given(meta: MetaModel, extra: Forwards, i: int)
    ensures
        ({
            let all = crate::config::all_forwards(meta, extra);
            let l = meta.local.len() as int;
            let el = l + extra.local@.len();
            let r = el + meta.remote.len();
            let er = r + extra.remote@.len();
            let d = er + meta.dynamic.len();
            let ed = d + extra.dynamic@.len();
            &&& all.len() == ed
            &&& 0 <= i < l ==> all[i] == ("-L"@, meta.local[i])
            &&& l <= i < el ==> all[i] == ("-L"@, extra.local@[i - l]@)
            &&& el <= i < r ==> all[i] == ("-R"@, meta.remote[i - el])
            &&& r <= i < er ==> all[i] == ("-R"@, extra.remote@[i - r]@)
            &&& er <= i < d ==> all[i] == ("-D"@, meta.dynamic[i - er])
            &&& d <= i < ed ==> all[i] == ("-D"@, extra.dynamic@[i - d]@)
        }),
{
}

/// A forward is two arguments: its flag and then the forward.
pub proof fn law_forward_arguments(pairs: Seq<(Seq<char>, Seq<char>)>, pair: (Seq<char>, Seq<char>))
    ensures
        crate::config::forward_words(Seq::empty()) == Seq::<Seq<char>>::empty(),
        crate::config::forward_words(pairs.push(pair)) == crate::config::forward_words(pairs)
            + seq![pair.0, pair.1],
{
    let all = crate::config::forward_words(pairs.push(pair));
    let some = crate::config::forward_words(pairs);
    assert(crate::config::forward_words(Seq::empty()) =~= Seq::<Seq<char>>::empty());
    assert forall|i: int| 0 <= i < some.len() implies all[i] == some[i] by {
        assert(pairs.push(pair)[i / 2] == pairs[i / 2]);
    }
    assert(all =~= some + seq![pair.0, pair.1]);
}

/// A text of white space alone has no words.
proof fn lemma_blank_has_no_words(s: Seq<char>)
    requires
        crate::text_laws::is_blank(s),
    ensures
        crate::text::words(s) == Seq::<Seq<char>>::empty(),
    decreases s.len(),
{
    if s.len() > 0 {
        assert(crate::text::is_space(s[0]));
        assert forall|i: int| 0 <= i < s.skip(1).len() implies crate::text::is_space(
            #[trigger] s.skip(1)[i],
        ) by {
            assert(s.skip(1)[i] == s[i + 1]);
        }
        lemma_blank_has_no_words(s.skip(1));
    }
}

/// A blank forward is refused, and one that holds white space; every other one is left
/// to ssh.
pub proof fn law_refused_forwards(
    flag: Seq<char>,
    blank: Seq<char>,
    solid: Seq<char>,
    space: char,
    rest: Seq<char>,
)
    requires
        crate::text_laws::is_blank(blank),
        crate::text_laws::is_solid(solid),
        solid.len() > 0,
        crate::text::is_space(space),
    ensures
        crate::config::forward_fault(flag, blank) == Some((true, flag, Seq::<char>::empty())),
        crate::config::forward_fault(flag, solid) is None,
        crate::config::forward_fault(flag, solid + seq![space] + rest) == Some(
            (false, flag, solid + seq![space] + rest),
        ),
{
    lemma_blank_has_no_words(blank);
    crate::text_laws::law_words(solid, space, rest);
    let whole = solid + seq![space] + rest;
    assert(whole[solid.len() as int] == space);
}

/// Reconnecting goes by the configuration, and the flag turns it off.
pub proof fn law_policy(config: Config, flag: bool)
    ensures
        ({
            let p = crate::connect::policy_of(config, flag);
            &&& p.enabled <==> config.settings.reconnect && !flag
            &&& p.max_attempts == config.settings.reconnect_max_attempts
            &&& p.initial_delay_secs == config.settings.reconnect_delay_secs
            &&& p.max_delay_secs == config.settings.reconnect_max_delay_secs
        }),
{
}

/// The first wait is the configured one, and no wait is longer than the limit.
pub proof fn law_first_wait(policy: ReconnectPolicy)
    ensures
        crate::connect::backoff(policy, 0) == crate::connect::backoff(policy, 1),
        policy.initial_delay_secs <= policy.max_delay_secs ==> crate::connect::backoff(policy, 1)
            == policy.initial_delay_secs,
        policy.initial_delay_secs > policy.max_delay_secs ==> crate::connect::backoff(policy, 1)
            == policy.max_delay_secs,
{
    vstd::arithmetic::power2::lemma2_to64();
    assert(policy.initial_delay_secs as nat * 1nat == policy.initial_delay_secs);
}

/// Only ssh's own failure, status 255, is followed by another attempt: a clean exit, a
/// failure of the remote command and a signal end the session. Without reconnecting
/// the failure is final.
pub proof fn law_only_lost_connections_are_retried(
    policy: ReconnectPolicy,
    alias: Seq<char>,
    attempt: u32,
    code: Option<i32>,
    elapsed: u64,
    verdict: Verdict,
)
    requires
        crate::connect::is_verdict(policy, alias, attempt, code, elapsed, verdict),
    ensures
        code != Some(255i32) <==> verdict is Done,
        code == Some(255i32) && !policy.enabled ==> (verdict matches Verdict::Fail(
            ConnectError::Failed { alias: a },
        ) && a@ == alias),
        verdict is Retry ==> policy.enabled,
{
}

/// A connection that is lost is taken up again while attempts are left, with the wait
/// that the number of the attempt asks for; a session that lasted half a minute has
/// used up none. Then it is given up.
pub proof fn law_attempts_are_counted(
    policy: ReconnectPolicy,
    alias: Seq<char>,
    attempt: u32,
    elapsed: u64,
    verdict: Verdict,
)
    requires
        policy.enabled,
        crate::connect::is_verdict(policy, alias, attempt, Some(255i32), elapsed, verdict),
    ensures
        elapsed < 30 && attempt < policy.max_attempts ==> (verdict matches Verdict::Retry {
            attempt: n,
            delay_secs,
        } && n == attempt + 1 && delay_secs == crate::connect::backoff(policy, n)),
        elapsed >= 30 && policy.max_attempts > 0 ==> (verdict matches Verdict::Retry {
            attempt: n,
            delay_secs,
        } && n == 1 && delay_secs == crate::connect::backoff(policy, 1)),
        elapsed < 30 && attempt >= policy.max_attempts ==> (verdict matches Verdict::Fail(
            ConnectError::GaveUp { alias: a, attempts },
        ) && a@ == alias && attempts == policy.max_attempts),
        policy.max_attempts == 0 ==> verdict is Fail,
{
}

/// The vault says where and as whom to connect; what it does not say is the alias for
/// the address, and nothing for the user and the password.
pub proof fn law_vault_settles_the_target(alias: Seq<char>, s: SettingsModel)
    ensures
        ({
            let (address, user, password) = crate::connect::target_parts(alias, Some(s));
            &&& s.address is Some ==> address == s.address->0
            &&& s.address is None ==> address == alias
            &&& user == s.username
            &&& password == s.password
        }),
        crate::connect::target_parts(alias, None) == (
            alias,
            None::<Seq<char>>,
            None::<Seq<char>>,
        ),
{
}

/// The arguments of ssh: a terminal, the shared connection, the forwards, what was
/// passed through, the user where one is known, and at the end the address and the
/// command.
pub proof fn law_ssh_arguments(
    mux: Seq<Seq<char>>,
    forwards: Seq<Seq<char>>,
    passed: Seq<Seq<char>>,
    user: Seq<char>,
    address: Seq<char>,
    remote: Seq<char>,
)
    ensures
        crate::connect::connect_words(mux, forwards, passed, None, address, remote) == seq!["-t"@]
            + mux + forwards + passed + seq![address, remote],
        crate::connect::connect_words(mux, forwards, passed, Some(user), address, remote) == seq![
            "-t"@,
        ] + mux + forwards + passed + seq!["-l"@, user, address, remote],
{
    assert(crate::connect::connect_words(mux, forwards, passed, None, address, remote) =~= seq![
        "-t"@,
    ] + mux + forwards + passed + seq![address, remote]);
    assert(crate::connect::connect_words(mux, forwards, passed, Some(user), address, remote)
        =~= seq!["-t"@] + mux + forwards + passed + seq!["-l"@, user, address, remote]);
}

/// Lines are edited here only where that was asked for, on a terminal, and not by a
/// viewer; then a watcher runs beside the command, and else the command alone.
pub proof fn law_attempts(
    config: Config,
    alias: Seq<char>,
    asked: Option<Seq<char>>,
    opts: ConnectOptions,
    terminal: bool,
    lines: u32,
)
    ensures
        ({
            let session = config.session_name(alias);
            let layout = crate::connect::chosen_layout(config, alias, asked);
            let command = crate::connect::attempt_command(
                config,
                alias,
                asked,
                opts,
                terminal,
                lines,
            );
            let edits = opts.local_echo && !opts.read_only && terminal;
            &&& edits <==> crate::connect::edits_locally(opts, terminal)
            &&& edits ==> command == crate::tmux::watched_command(
                session,
                crate::tmux::remote_command(session, layout, false, lines, true),
            )
            &&& !edits ==> command == crate::tmux::remote_command(
                session,
                layout,
                opts.read_only,
                lines,
                false,
            )
        }),
{
}

/// Only a layout that is asked for by a name that no layout has is missing; one that
/// is configured by such a name is passed over.
pub proof fn law_missing_layouts(config: Config, alias: Seq<char>, name: Seq<char>)
    ensures
        crate::connect::layout_missing(config, alias, Some(name))
            <==> !config.layouts@.dom().contains(name),
        !crate::connect::layout_missing(config, alias, None),
{
}

/// A plan for a connection without line editing: the first attempt runs the command
/// with the history that was asked for, every later one the command without any, and
/// nothing else about them differs.
pub proof fn law_plain_plan(
    plan: ConnectPlan,
    config: Config,
    alias: Seq<char>,
    asked: Option<Seq<char>>,
    opts: ConnectOptions,
    terminal: bool,
    lines: u32,
)
    requires
        crate::connect::is_plan(plan, config, alias, asked, opts, terminal),
        opts.scrollback == Some(lines),
        !opts.local_echo || opts.read_only || !terminal,
    ensures
        plan.first_attach@ == crate::tmux::replay_command(config.session_name(alias), lines)
            + plan.reattach@,
        plan.reattach@ == crate::tmux::remote_command(
            config.session_name(alias),
            crate::connect::chosen_layout(config, alias, asked),
            opts.read_only,
            0,
            false,
        ),
        !plan.local_echo,
        plan.policy.enabled <==> config.settings.reconnect && !opts.no_reconnect,
{
    let session = config.session_name(alias);
    let layout = crate::connect::chosen_layout(config, alias, asked);
    crate::tmux_laws::law_ready_mark(session, layout, opts.read_only, lines);
}

/// A plan for a connection with line editing: both commands are watched, and mark
/// where the attach begins.
pub proof fn law_edited_plan(
    plan: ConnectPlan,
    config: Config,
    alias: Seq<char>,
    asked: Option<Seq<char>>,
    opts: ConnectOptions,
    lines: u32,
)
    requires
        crate::connect::is_plan(plan, config, alias, asked, opts, true),
        opts.scrollback == Some(lines),
        opts.local_echo,
        !opts.read_only,
    ensures
        ({
            let session = config.session_name(alias);
            let layout = crate::connect::chosen_layout(config, alias, asked);
            &&& plan.first_attach@ == crate::tmux::watched_command(
                session,
                crate::tmux::remote_command(session, layout, false, lines, true),
            )
            &&& plan.reattach@ == crate::tmux::watched_command(
                session,
                crate::tmux::remote_command(session, layout, false, 0, true),
            )
        }),
        plan.local_echo,
{
}

/// The first attempt replays as much history as was asked for, or else as much as is
/// configured.
pub proof fn law_history(config: Config, opts: ConnectOptions)
    ensures
        opts.scrollback is Some ==> crate::connect::first_lines(config, opts) == opts.scrollback->0,
        opts.scrollback is None ==> crate::connect::first_lines(config, opts)
            == config.settings.scrollback_lines,
{
}


/// A configuration that says nothing: sessions are called `main`, lost connections are
/// taken up again up to ten times with waits from one second to half a minute,
/// connections are shared for ten minutes, and no history is replayed.
pub proof fn law_defaults(s: crate::config::Settings)
    requires
        s.is_default(),
    ensures
        s.default_session@ == "main"@,
        s.reconnect && s.reconnect_max_attempts == 10,
        s.reconnect_delay_secs == 1 && s.reconnect_max_delay_secs == 30,
        s.multiplex && s.control_persist_secs == 600,
        s.scrollback_lines == 0,
{
}

/// A host that the configuration does not name has no metadata.
pub proof fn law_unnamed_hosts(config: Config, alias: Seq<char>)
    ensures
        config.hosts@.dom().contains(alias) ==> config.meta_of(alias) == config.hosts@[alias]@,
        !config.hosts@.dom().contains(alias) ==> config.meta_of(alias).session is None
            && config.meta_of(alias).layout is None && config.meta_of(alias).notes is None
            && config.meta_of(alias).local.len() == 0 && config.meta_of(alias).remote.len() == 0
            && config.meta_of(alias).dynamic.len() == 0,
{
}

/// Something is forwarded where there is a forward of any sort.
pub proof fn law_forwarding_nothing(f: Forwards)
    ensures
        f.local@.len() > 0 || f.remote@.len() > 0 || f.dynamic@.len() > 0
            <==> !f.forwards_nothing(),
{
}


/// One forward that is refused refuses them all, whichever it is, and the first one is
/// the one that the user is told of.
pub proof fn law_first_fault_is_told(
    pairs: Seq<(Seq<char>, Seq<char>)>,
    e: (bool, Seq<char>, Seq<char>),
    i: int,
)
    requires
        0 <= i < pairs.len(),
        crate::config::forward_fault(pairs[i].0, pairs[i].1) is Some,
    ensures
        !crate::config::all_sound(pairs),
        (forall|j: int|
            0 <= j < i ==> crate::config::forward_fault((#[trigger] pairs[j]).0, pairs[j].1) is None)
            ==> (crate::config::is_first_fault(pairs, e) <==> crate::config::forward_fault(
            pairs[i].0,
            pairs[i].1,
        ) == Some(e)),
{
    assert(pairs[i] == pairs[i]);
}

} // verus!
