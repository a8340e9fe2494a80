//! What holds of the command line, of the places of files, and of time in words.

use vstd::prelude::*;

use crate::cli::Cli;
use crate::cli::CliError;
use crate::config::Config;
use crate::connect::ConnectOptions;
use crate::model::HostModel;
use crate::paths::Root;
use crate::vault::SettingsModel;

verus! {

/// A command does not go with anything that is said about a connection, each argument
/// by itself; and local echo does not go with Mosh.
pub proof fn law_refusals(cli: Cli)
    ensures
        cli.mosh && cli.local_echo ==> cli.refusal() == Some(CliError::MoshWithLocalEcho),
        !(cli.mosh && cli.local_echo) && cli.command is Some && (cli.host is Some || cli.layout is Some
            || cli.no_reconnect || cli.local_echo || cli.mosh || cli.local_forward@.len() > 0
            || cli.remote_forward@.len() > 0 || cli.dynamic_forward@.len() > 0 || cli.read_only
            || cli.scrollback is Some || cli.ssh_args@.len() > 0) ==> cli.refusal() == Some(
            CliError::ArgumentsWithCommand,
        ),
        cli.command is None && !(cli.mosh && cli.local_echo) ==> cli.refusal() is None,
        cli.host is None && cli.layout is None && !cli.no_reconnect && !cli.local_echo && !cli.mosh
            && cli.local_forward@.len() == 0 && cli.remote_forward@.len() == 0
            && cli.dynamic_forward@.len() == 0 && !cli.read_only && cli.scrollback is None
            && cli.ssh_args@.len() == 0 ==> cli.refusal() is None,
{
}

/// What the command line says about forwards is what ssh is given: `-L` for the local
/// ones, `-R` for the remote ones and `-D` for the dynamic ones, in this order.
pub proof fn law_forwards_are_passed_on(cli: Cli, opts: ConnectOptions, i: int)
    requires
        cli.asks_for(opts),
    ensures
        ({
            let all = crate::config::all_forwards(crate::config::no_meta(), opts.forwards);
            let l = cli.local_forward@.len() as int;
            let r = l + cli.remote_forward@.len();
            let d = r + cli.dynamic_forward@.len();
            &&& all.len() == d
            &&& 0 <= i < l ==> all[i] == ("-L"@, cli.local_forward@[i]@)
            &&& l <= i < r ==> all[i] == ("-R"@, cli.remote_forward@[i - l]@)
            &&& r <= i < d ==> all[i] == ("-D"@, cli.dynamic_forward@[i - r]@)
        }),
        opts.read_only <==> cli.read_only,
        opts.local_echo <==> cli.local_echo,
        opts.no_reconnect <==> cli.no_reconnect,
        opts.scrollback == cli.scrollback,
{
    crate::connect_laws::law_every_forward_is_given(crate::config::no_meta(), opts.forwards, i);
    assert(crate::text::texts(opts.forwards.local@).len() == opts.forwards.local@.len());
    assert(crate::text::texts(cli.local_forward@).len() == cli.local_forward@.len());
    assert(crate::text::texts(opts.forwards.remote@).len() == opts.forwards.remote@.len());
    assert(crate::text::texts(cli.remote_forward@).len() == cli.remote_forward@.len());
    assert(crate::text::texts(opts.forwards.dynamic@).len() == opts.forwards.dynamic@.len());
    assert(crate::text::texts(cli.dynamic_forward@).len() == cli.dynamic_forward@.len());
    let l = cli.local_forward@.len() as int;
    let r = l + cli.remote_forward@.len();
    if 0 <= i < l {
        assert(crate::text::texts(opts.forwards.local@)[i] == crate::text::texts(
            cli.local_forward@,
        )[i]);
    } else if l <= i < r {
        assert(crate::text::texts(opts.forwards.remote@)[i - l] == crate::text::texts(
            cli.remote_forward@,
        )[i - l]);
    } else if r <= i < r + cli.dynamic_forward@.len() {
        assert(crate::text::texts(opts.forwards.dynamic@)[i - r] == crate::text::texts(
            cli.dynamic_forward@,
        )[i - r]);
    }
}

/// The listing of hosts has one line for each host, and the line is its alias.
pub proof fn law_listing_is_read_back(hosts: Seq<HostModel>)
    requires
        forall|i: int|
            0 <= i < hosts.len() ==> !(#[trigger] hosts[i]).alias.contains('\n') && (
            hosts[i].alias.len() > 0 ==> hosts[i].alias.last() != '\r'),
    ensures
        crate::text::lines(crate::cli::alias_lines(hosts)) == Seq::new(
            hosts.len(),
            |i: int| hosts[i].alias,
        ),
    decreases hosts.len(),
{
    lemma_alias_lines(hosts, Seq::empty());
    let text = crate::cli::alias_lines(hosts);
    assert(text + Seq::<char>::empty() =~= text);
    crate::text_laws::law_lines(Seq::empty(), Seq::empty());
    let aliases = Seq::new(hosts.len(), |i: int| hosts[i].alias);
    assert(aliases + Seq::<Seq<char>>::empty() =~= aliases);
}

proof fn lemma_alias_lines(hosts: Seq<HostModel>, rest: Seq<char>)
    requires
        forall|i: int|
            0 <= i < hosts.len() ==> !(#[trigger] hosts[i]).alias.contains('\n') && (
            hosts[i].alias.len() > 0 ==> hosts[i].alias.last() != '\r'),
    ensures
        crate::text::lines(crate::cli::alias_lines(hosts) + rest) == Seq::new(
            hosts.len(),
            |i: int| hosts[i].alias,
        ) + crate::text::lines(rest),
    decreases hosts.len(),
{
    let aliases = Seq::new(hosts.len(), |i: int| hosts[i].alias);
    if hosts.len() == 0 {
        assert(crate::cli::alias_lines(hosts) + rest =~= rest);
        assert(aliases + crate::text::lines(rest) =~= crate::text::lines(rest));
    } else {
        let front = hosts.drop_last();
        let h = hosts[hosts.len() - 1];
        assert forall|i: int| 0 <= i < front.len() implies !(#[trigger] front[i]).alias.contains('\n')
            && (front[i].alias.len() > 0 ==> front[i].alias.last() != '\r') by {
            assert(front[i] == hosts[i]);
        }
        reveal_strlit("\n");
        assert("\n"@ =~= seq!['\n']);
        let more = h.alias + seq!['\n'] + rest;
        lemma_alias_lines(front, more);
        assert(crate::cli::alias_lines(hosts) + rest =~= crate::cli::alias_lines(front) + more);
        crate::text_laws::law_lines(h.alias, rest);
        let before = Seq::new(front.len(), |i: int| front[i].alias);
        assert(before + (seq![h.alias] + crate::text::lines(rest)) =~= aliases + crate::text::lines(
            rest,
        ));
    }
}

/// The editor is that of the first variable that is set, and `vi` without any.
pub proof fn law_editors(a: Seq<char>, b: Option<Seq<char>>, c: Seq<char>)
    ensures
        crate::cli::chosen_editor(Some(a), b) == a,
        crate::cli::chosen_editor(None, Some(c)) == c,
        crate::cli::chosen_editor(None, None) == "vi"@,
{
}

/// A command means the session that it names, and without a name the one that
/// connecting to the host would attach to.
pub proof fn law_meant_sessions(config: Config, host: Seq<char>, name: Seq<char>)
    ensures
        crate::cli::meant_session(config, host, Some(name)) == name,
        crate::cli::meant_session(config, host, None) == config.session_name(host),
{
}

/// What the questions for a host's settings offer: what is stored, field by field, and
/// else what is known of the host; a password only where one is stored.
pub proof fn law_offers(
    s: SettingsModel,
    alias: Seq<char>,
    address: Option<Seq<char>>,
    user: Option<Seq<char>>,
)
    ensures
        ({
            let o = crate::cli::offered(Some(s), alias, address, user);
            &&& s.name is Some ==> o.name == s.name
            &&& s.name is None ==> o.name == Some(alias)
            &&& s.address is Some ==> o.address == s.address
            &&& s.address is None ==> o.address == address
            &&& s.username is Some ==> o.username == s.username
            &&& s.username is None ==> o.username == user
            &&& o.password == s.password
        }),
        ({
            let o = crate::cli::offered(None, alias, address, user);
            o.name == Some(alias) && o.address == address && o.username == user && o.password is None
        }),
{
}

/// The line of a host in the vault's listing: its alias in the first twenty columns,
/// and its address or a dash.
pub proof fn law_vault_listing(alias: Seq<char>, s: SettingsModel)
    ensures
        ({
            let line = crate::cli::entry_line(alias, s);
            let column = line.take(
                if alias.len() < 20 {
                    20
                } else {
                    alias.len() as int
                },
            );
            &&& line.take(alias.len() as int) == alias
            &&& forall|i: int| alias.len() <= i < column.len() ==> #[trigger] column[i] == ' '
            &&& s.address is Some ==> line == column + " address="@ + s.address->0
            &&& s.address is None ==> line == column + " address=-"@
        }),
{
    let line = crate::cli::entry_line(alias, s);
    let n = if alias.len() < 20 {
        20
    } else {
        alias.len() as int
    };
    let column = crate::view::padded(alias, 20);
    assert(column.len() == n);
    assert(line.take(n) =~= column);
    assert(line.take(alias.len() as int) =~= alias);
    if s.address is None {
        reveal_strlit(" address=");
        reveal_strlit("-");
        reveal_strlit(" address=-");
        assert(" address=-"@ =~= " address="@ + "-"@);
        assert(line =~= column + " address=-"@);
    }
}

/// Where the files of the program lie: where the environment says, else under the home
/// directory, and nowhere without one.
pub proof fn law_places(home: bool, xdg: bool)
    ensures
        crate::config::config_place(true, home) == Some(
            (Root::XdgConfig, seq!["ssht"@, "config.toml"@]),
        ),
        crate::config::config_place(false, true) == Some(
            (Root::Home, seq![".config"@, "ssht"@, "config.toml"@]),
        ),
        crate::config::config_place(false, false) is None,
        crate::state::state_place(true, home) == Some((Root::XdgData, seq!["ssht"@, "state.db"@])),
        crate::state::state_place(false, true) == Some(
            (Root::Home, seq![".local"@, "share"@, "ssht"@, "state.db"@]),
        ),
        crate::state::state_place(false, false) is None,
        crate::vault::vault_place(true, xdg, home) == Some((Root::Override, Seq::<Seq<char>>::empty())),
        crate::vault::vault_place(false, true, home) == Some(
            (Root::XdgConfig, seq!["ssht"@, "vault.age"@]),
        ),
        crate::vault::vault_place(false, false, true) == Some(
            (Root::Home, seq![".config"@, "ssht"@, "vault.age"@]),
        ),
        crate::vault::vault_place(false, false, false) is None,
{
}

/// How long ago something was: whole weeks, or else whole days, hours or minutes, and
/// what is left over does not count.
pub proof fn law_time_in_words(n: int, left: int)
    ensures
        left < 60 ==> crate::util::ago(left) == "just now"@,
        1 <= n < 60 && 0 <= left < 60 ==> crate::util::ago(60 * n + left) == crate::text::decimal(
            n as nat,
        ) + "m ago"@,
        1 <= n < 24 && 0 <= left < 3600 ==> crate::util::ago(3600 * n + left)
            == crate::text::decimal(n as nat) + "h ago"@,
        1 <= n < 7 && 0 <= left < 86400 ==> crate::util::ago(86400 * n + left)
            == crate::text::decimal(n as nat) + "d ago"@,
        1 <= n && 0 <= left < 604800 ==> crate::util::ago(604800 * n + left)
            == crate::text::decimal(n as nat) + "w ago"@,
{
}


/// What never was is said so, whatever the time is; what was is as long ago as the
/// clock says.
pub proof fn law_never(ts: i64, now: int)
    ensures
        crate::util::last_time(None, now) == "never"@,
        crate::util::last_time(Some(ts), now) == crate::util::ago(now - ts),
{
}

} // verus!
