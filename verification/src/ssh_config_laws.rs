//! How the lines of the ssh configuration and of the known hosts are read.

use vstd::prelude::*;

use crate::model::HostModel;
use crate::model::HostSource;
use crate::ssh_config::DirectiveModel;

verus! {

/// Whether a text begins and ends with something other than white space, or is empty.
pub open spec fn is_tight(s: Seq<char>) -> bool {
    s.len() == 0 || (!crate::text::is_space(s[0]) && !crate::text::is_space(s.last()))
}

/// Whether a text can be the key of a line.
pub open spec fn is_key(k: Seq<char>) -> bool {
    k.len() > 0 && crate::text_laws::is_solid(k) && !k.contains('=') && !k.contains('#')
}

/// Whether a text can stand between the key and the value of a line: white space, or an
/// equals sign with or without white space around it.
pub open spec fn is_gap(gap: Seq<char>) -> bool {
    ||| gap.len() > 0 && crate::text_laws::is_blank(gap)
    ||| exists|a: Seq<char>, b: Seq<char>|
        gap == #[trigger] (a + seq!['='] + b) && crate::text_laws::is_blank(a)
            && crate::text_laws::is_blank(b)
}

/// A comment says nothing: a line is read up to its first `#`.
pub proof fn law_comments(line: Seq<char>, comment: Seq<char>)
    requires
        !line.contains('#'),
    ensures
        crate::ssh_config::uncommented(line) == line,
        crate::ssh_config::uncommented(line + seq!['#'] + comment) == line,
        crate::ssh_config::directive(line + seq!['#'] + comment) == crate::ssh_config::directive(
            line,
        ),
{
    let n = line.len() as int;
    let whole = line + seq!['#'] + comment;
    assert forall|j: int| 0 <= j < n implies line[j] != '#' by {
        if line[j] == '#' {
            assert(line.contains('#'));
        }
    }
    crate::text::lemma_find_is(line, '#', n);
    assert forall|j: int| 0 <= j < n implies whole[j] != '#' by {
        assert(whole[j] == line[j]);
    }
    crate::text::lemma_find_is(whole, '#', n);
    assert(line.take(n) =~= line);
    assert(whole.take(n) =~= line);
}

/// White space in a blank text is all there is to trim.
proof fn lemma_blank_trimmed(s: Seq<char>)
    requires
        crate::text_laws::is_blank(s),
    ensures
        crate::text::trimmed(s) == Seq::<char>::empty(),
{
    let none = Seq::<char>::empty();
    crate::text_laws::law_trimming(s, none, none);
    assert(s + none + none =~= s);
}

/// Where the key of a line ends that goes on with white space or an equals sign.
proof fn lemma_key_end(key: Seq<char>, rest: Seq<char>)
    requires
        is_key(key),
        rest.len() == 0 || rest[0] == '=' || crate::text::is_space(rest[0]),
    ensures
        crate::ssh_config::key_end(key + rest) == key.len(),
{
    let t = key + rest;
    let n = key.len() as int;
    crate::text::lemma_find(t, '=');
    crate::text::lemma_find_space(t);
    let eq = crate::text::find(t, '=');
    let sp = crate::text::find_space(t);
    assert forall|j: int| 0 <= j < n implies t[j] != '=' && !crate::text::is_space(t[j]) by {
        assert(t[j] == key[j]);
        if key[j] == '=' {
            assert(key.contains('='));
        }
    }
    assert(eq >= n) by {
        if eq < n {
            assert(t[eq] == '=');
        }
    }
    assert(sp >= n) by {
        if sp < n {
            assert(crate::text::is_space(t[sp]));
        }
    }
    if rest.len() > 0 {
        assert(t[n] == rest[0]);
        if rest[0] == '=' {
            assert(eq == n) by {
                if eq > n {
                    assert(t[n] != '=');
                }
            }
            assert(!crate::text::is_space('='));
            assert(sp > n) by {
                if sp == n {
                    assert(crate::text::is_space(t[sp]));
                }
            }
        } else {
            assert(sp == n) by {
                if sp > n {
                    assert(!crate::text::is_space(t[n]));
                }
            }
        }
    }
}

/// A line with a key and a value is read as these, whatever white space stands around
/// and between them, and with or without an equals sign between them. An equals sign
/// inside the value belongs to it.
pub proof fn law_key_and_value(
    before: Seq<char>,
    key: Seq<char>,
    gap: Seq<char>,
    value: Seq<char>,
    after: Seq<char>,
)
    requires
        crate::text_laws::is_blank(before),
        crate::text_laws::is_blank(after),
        is_key(key),
        is_gap(gap),
        is_tight(value),
        value.len() > 0,
        value[0] != '=',
    ensures
        crate::ssh_config::key_value(before + key + gap + value + after) == Some((key, value)),
{
    let line = before + key + gap + value + after;
    let t = key + gap + value;
    assert(line =~= before + t + after);
    assert(t[0] == key[0] && t.last() == value.last());
    crate::text_laws::law_trimming(before, t, after);
    let rest = gap + value;
    assert(t =~= key + rest);
    let none = Seq::<char>::empty();
    if gap.len() > 0 && crate::text_laws::is_blank(gap) {
        assert(rest[0] == gap[0]);
        assert(crate::text::is_space(gap[0]));
        lemma_key_end(key, rest);
        assert(t.skip(key.len() as int) =~= rest);
        crate::text_laws::law_trimming(gap, value, none);
        assert(gap + value + none =~= rest);
    } else {
        let (a, b) = choose|a: Seq<char>, b: Seq<char>|
            gap == #[trigger] (a + seq!['='] + b) && crate::text_laws::is_blank(a)
                && crate::text_laws::is_blank(b);
        if a.len() > 0 {
            assert(rest[0] == a[0]);
            assert(crate::text::is_space(a[0]));
        } else {
            assert(rest[0] == '=');
        }
        lemma_key_end(key, rest);
        assert(t.skip(key.len() as int) =~= rest);
        let behind = seq!['='] + b + value;
        assert(!crate::text::is_space('='));
        assert(behind[0] == '=' && behind.last() == value.last());
        crate::text_laws::law_trimming(a, behind, none);
        assert(a + behind + none =~= rest);
        assert(behind.skip(1) =~= b + value + none);
        crate::text_laws::law_trimming(b, value, none);
        assert(key.contains(key[0]));
    }
    assert(t.take(key.len() as int) =~= key);
}

/// An empty line says nothing, and a key may stand without a value.
pub proof fn law_bare_lines(blank: Seq<char>, key: Seq<char>)
    requires
        crate::text_laws::is_blank(blank),
        is_key(key),
    ensures
        crate::ssh_config::key_value(blank) is None,
        crate::ssh_config::key_value(key) == Some((key, Seq::<char>::empty())),
{
    let none = Seq::<char>::empty();
    lemma_blank_trimmed(blank);
    crate::text_laws::law_trimming(none, key, none);
    assert(none + key + none =~= key);
    lemma_key_end(key, none);
    assert(key + none =~= key);
    let n = key.len() as int;
    assert(key.skip(n) =~= none);
    lemma_blank_trimmed(none);
    assert(key.take(n) =~= key);
    assert(key.contains(key[0]));
}

/// What a line says goes by its key, in any case: `Host` begins a block for the words
/// behind it, `Include` names files, `HostName`, `User` and `Port` are options, `Match`
/// begins a block for no alias, and any other key says nothing here.
pub proof fn law_keys(
    before: Seq<char>,
    key: Seq<char>,
    gap: Seq<char>,
    value: Seq<char>,
    after: Seq<char>,
)
    requires
        crate::text_laws::is_blank(before),
        crate::text_laws::is_blank(after),
        is_key(key),
        is_gap(gap),
        is_tight(value),
        value.len() > 0,
        value[0] != '=',
        !value.contains('#'),
    ensures
        ({
            let says = crate::ssh_config::directive(before + key + gap + value + after);
            let k = crate::text::lowercase(key);
            &&& k == "host"@ ==> says == DirectiveModel::Host(crate::text::words(value))
            &&& k == "match"@ ==> says == DirectiveModel::Match
            &&& k == "include"@ ==> says == DirectiveModel::Include(crate::text::words(value))
            &&& k == "hostname"@ ==> says == DirectiveModel::HostName(value)
            &&& k == "user"@ ==> says == DirectiveModel::User(value)
            &&& k == "port"@ ==> forall|p: u16|
                value == crate::text::decimal(p as nat) ==> says == DirectiveModel::Port(p)
            &&& k == "port"@ && (forall|p: nat| #[trigger] crate::text::number(value) == Some(p) ==> p
                > 65535) ==> says == DirectiveModel::Other
            &&& k != "host"@ && k != "match"@ && k != "include"@ && k != "hostname"@ && k != "user"@
                && k != "port"@ ==> says == DirectiveModel::Other
        }),
{
    let line = before + key + gap + value + after;
    law_key_and_value(before, key, gap, value, after);
    lemma_no_comment(before, key, gap, value, after);
    law_comments(line, Seq::empty());
    lemma_keys_differ();
    assert forall|p: u16| value == crate::text::decimal(p as nat) implies crate::text::number_up_to(
        value,
        65535,
    ) == Some(p as nat) by {
        crate::text_laws::law_decimal_reads_back(p as nat);
    }
}

proof fn lemma_no_comment(
    before: Seq<char>,
    key: Seq<char>,
    gap: Seq<char>,
    value: Seq<char>,
    after: Seq<char>,
)
    requires
        crate::text_laws::is_blank(before),
        crate::text_laws::is_blank(after),
        is_key(key),
        is_gap(gap),
        !value.contains('#'),
    ensures
        !(before + key + gap + value + after).contains('#'),
{
    let line = before + key + gap + value + after;
    assert(!crate::text::is_space('#'));
    assert(!gap.contains('#')) by {
        if gap.contains('#') {
            let j = choose|j: int| 0 <= j < gap.len() && gap[j] == '#';
            if gap.len() > 0 && crate::text_laws::is_blank(gap) {
                assert(crate::text::is_space(gap[j]));
            } else {
                let (a, b) = choose|a: Seq<char>, b: Seq<char>|
                    gap == #[trigger] (a + seq!['='] + b) && crate::text_laws::is_blank(a)
                        && crate::text_laws::is_blank(b);
                if j < a.len() {
                    assert(crate::text::is_space(a[j]));
                } else if j > a.len() {
                    assert(crate::text::is_space(b[j - a.len() - 1]));
                }
            }
        }
    }
    if line.contains('#') {
        let j = choose|j: int| 0 <= j < line.len() && line[j] == '#';
        let n1 = before.len();
        let n2 = n1 + key.len();
        let n3 = n2 + gap.len();
        let n4 = n3 + value.len();
        if j < n1 {
            assert(crate::text::is_space(before[j]));
        } else if j < n2 {
            assert(key[j - n1] == '#');
            assert(key.contains('#'));
        } else if j < n3 {
            assert(gap[j - n2] == '#');
            assert(gap.contains('#'));
        } else if j < n4 {
            assert(value[j - n3] == '#');
            assert(value.contains('#'));
        } else {
            assert(crate::text::is_space(after[j - n4]));
        }
    }
}

proof fn lemma_keys_differ()
    ensures
        "host"@ != "match"@,
        "host"@ != "include"@,
        "host"@ != "hostname"@,
        "host"@ != "user"@,
        "host"@ != "port"@,
        "match"@ != "include"@,
        "match"@ != "hostname"@,
        "match"@ != "user"@,
        "match"@ != "port"@,
        "include"@ != "hostname"@,
        "include"@ != "user"@,
        "include"@ != "port"@,
        "hostname"@ != "user"@,
        "hostname"@ != "port"@,
        "user"@ != "port"@,
{
    reveal_strlit("host");
    reveal_strlit("match");
    reveal_strlit("include");
    reveal_strlit("hostname");
    reveal_strlit("user");
    reveal_strlit("port");
    assert("host"@.len() == 4 && "host"@[0] == 'h');
    assert("user"@.len() == 4 && "user"@[0] == 'u');
    assert("port"@.len() == 4 && "port"@[0] == 'p');
    assert("match"@.len() == 5);
    assert("include"@.len() == 7);
    assert("hostname"@.len() == 8);
}

/// A pattern names a host where it has no wildcard and is not negated.
pub proof fn law_literal_patterns(p: Seq<char>, a: Seq<char>, b: Seq<char>)
    ensures
        crate::ssh_config::literal(p) <==> (forall|i: int|
            0 <= i < p.len() ==> #[trigger] p[i] != '*' && p[i] != '?') && (p.len() > 0 ==> p[0]
            != '!'),
        !crate::ssh_config::literal(a + seq!['*'] + b),
        !crate::ssh_config::literal(a + seq!['?'] + b),
        !crate::ssh_config::literal(seq!['!'] + b),
{
    assert((a + seq!['*'] + b)[a.len() as int] == '*');
    assert((a + seq!['?'] + b)[a.len() as int] == '?');
    if forall|i: int| 0 <= i < p.len() ==> #[trigger] p[i] != '*' && p[i] != '?' {
        assert(!p.contains('*') && !p.contains('?'));
    }
    if !p.contains('*') && !p.contains('?') {
        assert forall|i: int| 0 <= i < p.len() implies #[trigger] p[i] != '*' && p[i] != '?' by {
            assert(p.contains(p[i]));
        }
    }
}

/// A pattern matches character by character; a question mark takes any one character
/// and a star any run of them, none at all too.
pub proof fn law_wildcards(p: Seq<char>, t: Seq<char>, c: char, d: char, run: Seq<char>)
    ensures
        crate::ssh_config::wildcard(Seq::empty(), t) <==> t.len() == 0,
        c != '*' && c != '?' ==> (crate::ssh_config::wildcard(seq![c] + p, seq![d] + t) <==> c == d
            && crate::ssh_config::wildcard(p, t)),
        crate::ssh_config::wildcard(seq!['?'] + p, seq![d] + t) <==> crate::ssh_config::wildcard(
            p,
            t,
        ),
        c != '*' ==> !crate::ssh_config::wildcard(seq![c] + p, Seq::empty()),
        crate::ssh_config::wildcard(p, t) ==> crate::ssh_config::wildcard(seq!['*'] + p, run + t),
        crate::ssh_config::wildcard(seq!['*'] + p, t) ==> exists|k: int|
            0 <= k <= t.len() && crate::ssh_config::wildcard(p, #[trigger] t.skip(k)),
{
    assert((seq![c] + p).skip(1) =~= p);
    assert((seq!['?'] + p).skip(1) =~= p);
    assert((seq!['*'] + p).skip(1) =~= p);
    assert((seq![d] + t).skip(1) =~= t);
    assert((run + t).skip(run.len() as int) =~= t);
}

/// A pattern of one star matches every name.
pub proof fn law_star_matches_all(t: Seq<char>)
    ensures
        crate::ssh_config::wildcard(seq!['*'], t),
{
    let none = Seq::<char>::empty();
    law_wildcards(none, none, 'a', 'a', t);
    assert(seq!['*'] + none =~= seq!['*']);
    assert(t + none =~= t);
}

/// A known host is named by its token: with a port behind it, by what stands in the
/// brackets; nothing in the brackets names no host.
pub proof fn law_known_host_tokens(host: Seq<char>, rest: Seq<char>)
    requires
        is_tight(host),
        host.len() > 0,
        host[0] != '[',
        !host.contains(']'),
        is_tight(rest),
    ensures
        crate::ssh_config::known_host(host) == Some(host),
        crate::ssh_config::known_host(seq!['['] + host + seq![']'] + rest) == Some(host),
        crate::ssh_config::known_host(seq!['[', ']'] + rest) is None,
        crate::ssh_config::known_host(Seq::empty()) is None,
{
    let none = Seq::<char>::empty();
    assert(!crate::text::is_space('[') && !crate::text::is_space(']'));
    crate::text_laws::law_trimming(none, host, none);
    assert(none + host + none =~= host);
    let t = seq!['['] + host + seq![']'] + rest;
    crate::text_laws::law_trimming(none, t, none);
    assert(none + t + none =~= t);
    let inner = t.skip(1);
    let n = host.len() as int;
    assert forall|j: int| 0 <= j < n implies inner[j] != ']' by {
        assert(inner[j] == host[j]);
        if host[j] == ']' {
            assert(host.contains(']'));
        }
    }
    assert(inner[n] == ']');
    crate::text::lemma_find_is(inner, ']', n);
    assert(t.subrange(1, 1 + n) =~= host);
    let e = seq!['[', ']'] + rest;
    crate::text_laws::law_trimming(none, e, none);
    assert(none + e + none =~= e);
    assert(e.skip(1)[0] == ']');
    crate::text::lemma_find_is(e.skip(1), ']', 0);
    lemma_blank_trimmed(none);
}

/// The hosts of a known-hosts line stand before its first space, with commas between.
pub proof fn law_known_hosts_line(names: Seq<char>, space: char, key: Seq<char>)
    requires
        names.len() > 0,
        crate::text_laws::is_solid(names),
        names[0] != '#',
        names[0] != '@',
        names[0] != '|',
        crate::text::is_space(space),
        is_tight(key),
        key.len() > 0,
    ensures
        crate::discovery::known_names(names + seq![space] + key) == crate::text::split(names, ','),
{
    let line = names + seq![space] + key;
    let none = Seq::<char>::empty();
    assert(line[0] == names[0] && line.last() == key.last());
    crate::text_laws::law_trimming(none, line, none);
    assert(none + line + none =~= line);
    crate::text_laws::law_words(names, space, key);
    assert(crate::text::words(line)[0] == names);
}

/// Comments, markers, hashed names and empty lines name no host.
pub proof fn law_lines_without_known_hosts(mark: char, rest: Seq<char>, blank: Seq<char>)
    requires
        mark == '#' || mark == '@',
        crate::text_laws::is_blank(blank),
        is_tight(rest),
    ensures
        crate::discovery::known_names(blank + seq![mark] + rest) == Seq::<Seq<char>>::empty(),
        crate::discovery::known_names(blank) == Seq::<Seq<char>>::empty(),
        crate::text_laws::is_solid(rest) ==> crate::discovery::known_names(seq!['|'] + rest) == Seq::<
            Seq<char>,
        >::empty(),
{
    let none = Seq::<char>::empty();
    let t = seq![mark] + rest;
    assert(!crate::text::is_space('#') && !crate::text::is_space('@') && !crate::text::is_space(
        '|',
    ));
    crate::text_laws::law_trimming(blank, t, none);
    assert(blank + t + none =~= blank + seq![mark] + rest);
    lemma_blank_trimmed(blank);
    if crate::text_laws::is_solid(rest) {
        let h = seq!['|'] + rest;
        assert(h.last() == if rest.len() > 0 {
            rest.last()
        } else {
            '|'
        });
        crate::text_laws::law_trimming(none, h, none);
        assert(none + h + none =~= h);
        assert forall|i: int| 0 <= i < h.len() implies !crate::text::is_space(#[trigger] h[i]) by {
            if i > 0 {
                assert(h[i] == rest[i - 1]);
            }
        }
        crate::text_laws::law_words(h, ' ', none);
        assert(crate::text::words(h)[0] == h);
    }
}

/// Every host that the known hosts name is found, and nothing that was found before
/// changes: a host that is new comes behind the others, with nothing known but its
/// name.
pub proof fn law_known_hosts_are_added(hosts: Seq<HostModel>, tokens: Seq<Seq<char>>, k: int)
    requires
        0 <= k < tokens.len(),
        crate::ssh_config::known_host(tokens[k]) is Some,
    ensures
        ({
            let after = crate::discovery::known_added(hosts, tokens);
            let name = crate::ssh_config::known_host(tokens[k])->0;
            &&& exists|i: int| 0 <= i < after.len() && (#[trigger] after[i]).alias == name
            &&& after.len() >= hosts.len()
            &&& after.take(hosts.len() as int) == hosts
            &&& forall|i: int|
                hosts.len() <= i < after.len() ==> (#[trigger] after[i]).source
                    == HostSource::KnownHosts && after[i].hostname is None && after[i].user is None
                    && after[i].port is None && after[i].meta.notes is None
        }),
    decreases tokens.len(),
{
    lemma_known_added_keeps(hosts, tokens);
    let after = crate::discovery::known_added(hosts, tokens);
    let fewer = tokens.drop_last();
    let before = crate::discovery::known_added(hosts, fewer);
    let name = crate::ssh_config::known_host(tokens[k])->0;
    if k < fewer.len() {
        assert(fewer[k] == tokens[k]);
        law_known_hosts_are_added(hosts, fewer, k);
        let i = choose|i: int| 0 <= i < before.len() && (#[trigger] before[i]).alias == name;
        assert(after[i] == before[i]);
    } else if crate::discovery::has_alias(before, name) {
        let i = choose|i: int| 0 <= i < before.len() && #[trigger] before[i].alias == name;
        assert(after[i].alias == name);
    } else {
        assert(after[before.len() as int].alias == name);
    }
}

proof fn lemma_known_added_keeps(hosts: Seq<HostModel>, tokens: Seq<Seq<char>>)
    ensures
        ({
            let after = crate::discovery::known_added(hosts, tokens);
            &&& after.len() >= hosts.len()
            &&& after.take(hosts.len() as int) == hosts
            &&& forall|i: int|
                hosts.len() <= i < after.len() ==> (#[trigger] after[i]).source
                    == HostSource::KnownHosts && after[i].hostname is None && after[i].user is None
                    && after[i].port is None && after[i].meta.notes is None
        }),
    decreases tokens.len(),
{
    let after = crate::discovery::known_added(hosts, tokens);
    if tokens.len() > 0 {
        lemma_known_added_keeps(hosts, tokens.drop_last());
        let before = crate::discovery::known_added(hosts, tokens.drop_last());
        assert(after.take(hosts.len() as int) =~= before.take(hosts.len() as int));
    } else {
        assert(after.take(hosts.len() as int) =~= hosts);
    }
}

/// The known hosts are read line by line.
pub proof fn law_known_hosts_in_lines(
    hosts: Seq<HostModel>,
    lines: Seq<Seq<char>>,
    line: Seq<char>,
)
    ensures
        crate::discovery::known_parsed(hosts, Seq::empty()) == hosts,
        crate::discovery::known_parsed(hosts, lines.push(line)) == crate::discovery::known_added(
            crate::discovery::known_parsed(hosts, lines),
            crate::discovery::known_names(line),
        ),
{
    assert(lines.push(line).drop_last() =~= lines);
}


/// A path with wildcards stands for the entries whose names match, each once and by
/// name.
pub proof fn law_matching_entries(
    entries: Seq<crate::ssh_config::DirEntry>,
    pattern: Seq<char>,
    picked: Seq<int>,
    i: int,
)
    requires
        crate::ssh_config::is_selection(entries, pattern, picked),
        0 <= i < entries.len(),
    ensures
        picked.contains(i) <==> crate::ssh_config::wildcard(pattern, entries[i].name@),
        forall|a: int, b: int|
            0 <= a < b < picked.len() ==> #[trigger] picked[a] != #[trigger] picked[b]
                && !crate::order::text_lt(entries[picked[b]].name@, entries[picked[a]].name@),
{
    if picked.contains(i) {
        let k = choose|k: int| 0 <= k < picked.len() && picked[k] == i;
        assert(0 <= picked[k] < entries.len());
    }
    assert forall|a: int, b: int| 0 <= a < b < picked.len() implies #[trigger] picked[a]
        != #[trigger] picked[b] && !crate::order::text_lt(
        entries[picked[b]].name@,
        entries[picked[a]].name@,
    ) by {
        let x = entries[picked[a]].name@;
        let y = entries[picked[b]].name@;
        crate::order::lemma_text_lt_irreflexive(x);
        crate::order::lemma_text_lt_irreflexive(y);
        if crate::order::text_lt(x, y) && crate::order::text_lt(y, x) {
            crate::order::lemma_text_lt_transitive(x, y, x);
        }
    }
}


/// White space around a line of the known hosts, and around a token of one, says
/// nothing; a bracket that is not closed is part of the name.
pub proof fn law_known_hosts_are_trimmed(
    before: Seq<char>,
    token: Seq<char>,
    line: Seq<char>,
    after: Seq<char>,
)
    requires
        crate::text_laws::is_blank(before),
        crate::text_laws::is_blank(after),
        is_tight(token),
        token.len() > 0,
        is_tight(line),
        line.len() > 0,
    ensures
        crate::ssh_config::known_host(before + token + after) == crate::ssh_config::known_host(
            token,
        ),
        crate::discovery::known_names(before + line + after) == crate::discovery::known_names(line),
        !token.contains(']') ==> crate::ssh_config::known_host(token) == Some(token),
{
    let none = Seq::<char>::empty();
    crate::text_laws::law_trimming(before, token, after);
    crate::text_laws::law_trimming(none, token, none);
    assert(none + token + none =~= token);
    crate::text_laws::law_trimming(before, line, after);
    crate::text_laws::law_trimming(none, line, none);
    assert(none + line + none =~= line);
    if !token.contains(']') {
        let rest = token.skip(1);
        assert forall|j: int| 0 <= j < rest.len() implies rest[j] != ']' by {
            assert(token.contains(token[j + 1]));
        }
        crate::text::lemma_find_is(rest, ']', rest.len() as int);
    }
}

} // verus!
