//! Reading hosts out of the ssh configuration and the file of known hosts.

use vstd::prelude::*;

use crate::order::sorted;
use crate::order::SortKey;
use crate::text::chars_of;
use crate::text::char_is_space;
use crate::text::has_char;
use crate::text::parse_number;
use crate::text::part;
use crate::text::position;
use crate::text::same_text;
use crate::text::split_words;
use crate::text::text_of;
use crate::text::to_lowercase;
use crate::text::trim;

verus! {

/// Whether a `Host` pattern is an alias: no wildcard in it, and not negated.
pub open spec fn literal(pattern: Seq<char>) -> bool {
    !pattern.contains('*') && !pattern.contains('?') && !(pattern.len() > 0 && pattern[0] == '!')
}

/// Whether a `Host` pattern is an alias.
pub fn is_literal(pattern: &str) -> (r: bool)
    ensures
        r == literal(pattern@),
{
    let v = chars_of(pattern);
    if v.len() > 0 && v[0] == '!' {
        return false;
    }
    !has_char(pattern, '*') && !has_char(pattern, '?')
}

/// A line up to its first `#`.
pub open spec fn uncommented(line: Seq<char>) -> Seq<char> {
    line.take(crate::text::find(line, '#'))
}

/// A line up to its first `#`: comments run to the end of the line.
pub fn strip_comment(line: &str) -> (r: String)
    ensures
        r@ == uncommented(line@),
{
    match position(line, '#') {
        Some(i) => {
            let r = part(line, 0, i);
            assert(r@ =~= uncommented(line@));
            r
        },
        None => {
            assert(uncommented(line@) =~= line@);
            line.to_string()
        },
    }
}

/// Where the key of a line ends: at the first white space or equals sign. A line that
/// begins with an equals sign has it in its key.
pub open spec fn key_end(t: Seq<char>) -> int {
    let eq = crate::text::find(t, '=');
    let sp = crate::text::find_space(t);
    if 0 < eq < sp {
        eq
    } else {
        sp
    }
}

/// The key and the value of a line, parted by white space or by an equals sign with
/// any white space around it. An equals sign further on belongs to the value.
pub open spec fn key_value(line: Seq<char>) -> Option<(Seq<char>, Seq<char>)> {
    let t = crate::text::trimmed(line);
    let end = key_end(t);
    let rest = crate::text::trimmed(t.skip(end));
    if t.len() == 0 {
        None
    } else if t[0] != '=' && rest.len() > 0 && rest[0] == '=' {
        Some((t.take(end), crate::text::trimmed(rest.skip(1))))
    } else {
        Some((t.take(end), rest))
    }
}

/// Splits a line into key and value.
pub fn split_kv(line: &str) -> (r: Option<(String, String)>)
    ensures
        match r {
            Some((k, v)) => key_value(line@) == Some((k@, v@)),
            None => key_value(line@) is None,
        },
{
    let t = trim(line);
    let v = chars_of(t.as_str());
    if v.len() == 0 {
        return None;
    }
    let mut end: usize = if v[0] == '=' {
        1
    } else {
        0
    };
    while end < v.len() && !char_is_space(v[end]) && (v[0] == '=' || v[end] != '=')
        invariant
            end <= v@.len(),
            v@.len() > 0,
            v@ == t@,
            forall|j: int| 0 <= j < end ==> !crate::text::is_space(v@[j]),
            v@[0] == '=' || forall|j: int| 0 <= j < end ==> v@[j] != '=',
        decreases v@.len() - end,
    {
        end = end + 1;
    }
    proof {
        crate::text::lemma_find(t@, '=');
        crate::text::lemma_find_space(t@);
        let eq = crate::text::find(t@, '=');
        let sp = crate::text::find_space(t@);
        assert(sp < end ==> crate::text::is_space(v@[sp]));
        assert(end < sp ==> !crate::text::is_space(v@[end as int]));
        assert(eq < end ==> v@[eq] == '=');
        assert(end < eq ==> v@[end as int] != '=');
        assert(v@[0] == '=' ==> eq == 0);
        assert(end == key_end(t@));
    }
    let k = text_of(&v, 0, end);
    assert(k@ =~= t@.take(end as int));
    let rest = trim(text_of(&v, end, v.len()).as_str());
    assert(t@.subrange(end as int, v@.len() as int) =~= t@.skip(end as int));
    let w = chars_of(rest.as_str());
    if v[0] != '=' && w.len() > 0 && w[0] == '=' {
        let value = trim(text_of(&w, 1, w.len()).as_str());
        assert(rest@.subrange(1, w@.len() as int) =~= rest@.skip(1));
        Some((k, value))
    } else {
        Some((k, rest))
    }
}

/// Whether a text matches a pattern in which `*` stands for any run and `?` for
/// any one character.
pub open spec fn wildcard(p: Seq<char>, t: Seq<char>) -> bool
    decreases p.len(),
{
    if p.len() == 0 {
        t.len() == 0
    } else if p[0] == '*' {
        exists|k: int| 0 <= k <= t.len() && wildcard(p.skip(1), #[trigger] t.skip(k))
    } else {
        t.len() > 0 && (p[0] == '?' || p[0] == t[0]) && wildcard(p.skip(1), t.skip(1))
    }
}

/// Matches `t[ti..]` against `p[pi..]`.
fn matches_from(p: &Vec<char>, pi: usize, t: &Vec<char>, ti: usize) -> (r: bool)
    requires
        pi <= p@.len(),
        ti <= t@.len(),
    ensures
        r == wildcard(p@.skip(pi as int), t@.skip(ti as int)),
    decreases p@.len() - pi,
{
    let ghost ps = p@.skip(pi as int);
    let ghost ts = t@.skip(ti as int);
    if pi == p.len() {
        return ti == t.len();
    }
    let next: usize = pi + 1;
    assert(ps.skip(1) =~= p@.skip(pi + 1));
    if p[pi] == '*' {
        let mut skip: usize = ti;
        loop
            invariant
                pi < p@.len(),
                next == pi + 1,
                ti <= skip <= t@.len(),
                ps == p@.skip(pi as int),
                ts == t@.skip(ti as int),
                ps[0] == '*',
                ps.skip(1) == p@.skip(pi + 1),
                forall|k: int| 0 <= k < skip - ti ==> !wildcard(ps.skip(1), #[trigger] ts.skip(k)),
            decreases t@.len() - skip,
        {
            assert(ts.skip(skip - ti) =~= t@.skip(skip as int));
            if matches_from(p, next, t, skip) {
                assert(wildcard(ps.skip(1), ts.skip(skip - ti)));
                return true;
            }
            if skip == t.len() {
                return false;
            }
            skip = skip + 1;
        }
    } else {
        assert(ti < t@.len() ==> ts.skip(1) =~= t@.skip(ti + 1));
        ti < t.len() && (p[pi] == '?' || p[pi] == t[ti]) && matches_from(p, next, t, ti + 1)
    }
}

/// Matches a text against a pattern of `*` and `?`.
pub fn wildcard_match(pattern: &str, text: &str) -> (r: bool)
    ensures
        r == wildcard(pattern@, text@),
{
    let p = chars_of(pattern);
    let t = chars_of(text);
    assert(p@.skip(0) =~= pattern@);
    assert(t@.skip(0) =~= text@);
    matches_from(&p, 0, &t, 0)
}

/// The host that a token of the known hosts names: what stands in brackets, or
/// else the token; none where that is empty.
pub open spec fn known_host(token: Seq<char>) -> Option<Seq<char>> {
    let t = crate::text::trimmed(token);
    let end = crate::text::find(t.skip(1), ']');
    if t.len() == 0 {
        None
    } else if t[0] == '[' && end < t.len() - 1 {
        if end == 0 {
            None
        } else {
            Some(t.subrange(1, 1 + end))
        }
    } else {
        Some(t)
    }
}

/// The host that a token of the known hosts names. Addresses are kept: they can be
/// connected to as well.
pub fn clean_known_host(token: &str) -> (r: Option<String>)
    ensures
        match r {
            Some(h) => known_host(token@) == Some(h@),
            None => known_host(token@) is None,
        },
{
    let t = trim(token);
    let v = chars_of(t.as_str());
    if v.len() == 0 {
        return None;
    }
    if v[0] == '[' {
        let rest = text_of(&v, 1, v.len());
        assert(rest@ =~= t@.skip(1));
        if let Some(end) = position(rest.as_str(), ']') {
            if end == 0 {
                return None;
            }
            let host = part(rest.as_str(), 0, end);
            assert(host@ =~= t@.subrange(1, 1 + end as int));
            return Some(host);
        }
    }
    Some(t)
}

/// What a line of the configuration says.
#[derive(Debug)]
pub enum Directive {
    /// A block for these patterns begins.
    Host(Vec<String>),
    /// A block begins that names no alias.
    Match,
    /// These files are read here.
    Include(Vec<String>),
    HostName(String),
    User(String),
    Port(u16),
    /// Nothing that matters here.
    Other,
}

/// What a line of the configuration says.
pub enum DirectiveModel {
    Host(Seq<Seq<char>>),
    Match,
    Include(Seq<Seq<char>>),
    HostName(Seq<char>),
    User(Seq<char>),
    Port(u16),
    Other,
}

impl View for Directive {
    type V = DirectiveModel;

    open spec fn view(&self) -> DirectiveModel {
        match self {
            Directive::Host(v) => DirectiveModel::Host(crate::text::texts(v@)),
            Directive::Match => DirectiveModel::Match,
            Directive::Include(v) => DirectiveModel::Include(crate::text::texts(v@)),
            Directive::HostName(s) => DirectiveModel::HostName(s@),
            Directive::User(s) => DirectiveModel::User(s@),
            Directive::Port(p) => DirectiveModel::Port(*p),
            Directive::Other => DirectiveModel::Other,
        }
    }
}

/// What a line says. Keys are read in any case; a port that is no port says nothing.
pub open spec fn directive(raw: Seq<char>) -> DirectiveModel {
    match key_value(uncommented(raw)) {
        Some((k, v)) => {
            let key = crate::text::lowercase(k);
            if key == "host"@ {
                DirectiveModel::Host(crate::text::words(v))
            } else if key == "match"@ {
                DirectiveModel::Match
            } else if key == "include"@ {
                DirectiveModel::Include(crate::text::words(v))
            } else if key == "hostname"@ {
                DirectiveModel::HostName(v)
            } else if key == "user"@ {
                DirectiveModel::User(v)
            } else if key == "port"@ {
                match crate::text::number_up_to(v, 65535) {
                    Some(p) => DirectiveModel::Port(p as u16),
                    None => DirectiveModel::Other,
                }
            } else {
                DirectiveModel::Other
            }
        },
        None => DirectiveModel::Other,
    }
}

/// Reads one line.
pub fn read_directive(raw: &str) -> (r: Directive)
    ensures
        r@ == directive(raw@),
{
    let line = strip_comment(raw);
    let (k, v) = match split_kv(line.as_str()) {
        Some(kv) => kv,
        None => return Directive::Other,
    };
    let key = to_lowercase(k.as_str());
    if same_text(key.as_str(), "host") {
        Directive::Host(split_words(v.as_str()))
    } else if same_text(key.as_str(), "match") {
        Directive::Match
    } else if same_text(key.as_str(), "include") {
        Directive::Include(split_words(v.as_str()))
    } else if same_text(key.as_str(), "hostname") {
        Directive::HostName(v)
    } else if same_text(key.as_str(), "user") {
        Directive::User(v)
    } else if same_text(key.as_str(), "port") {
        match parse_number(v.as_str(), 65535) {
            Some(p) => Directive::Port(p as u16),
            None => Directive::Other,
        }
    } else {
        Directive::Other
    }
}

/// An entry of a directory.
#[derive(Debug)]
pub struct DirEntry {
    pub name: String,
    pub path: String,
}

/// Whether `picked` lists, by index, exactly the entries whose name matches, in
/// dictionary order of the names.
pub open spec fn is_selection(entries: Seq<DirEntry>, pattern: Seq<char>, picked: Seq<int>) -> bool {
    &&& forall|k: int|
        0 <= k < picked.len() ==> 0 <= #[trigger] picked[k] < entries.len() && wildcard(
            pattern,
            entries[picked[k]].name@,
        )
    &&& forall|i: int|
        0 <= i < entries.len() && wildcard(pattern, (#[trigger] entries[i]).name@) ==> picked.contains(i)
    &&& forall|a: int, b: int|
        0 <= a < b < picked.len() ==> {
            ||| crate::order::text_lt(
                entries[#[trigger] picked[a]].name@,
                entries[#[trigger] picked[b]].name@,
            )
            ||| entries[picked[a]].name@ == entries[picked[b]].name@ && picked[a] < picked[b]
        }
}

/// The paths of the directory entries whose name matches a pattern, by name.
pub fn glob_matches(pattern: &str, entries: &Vec<DirEntry>) -> (r: Vec<String>)
    ensures
        exists|picked: Seq<int>| #[trigger]
            is_selection(entries@, pattern@, picked) && r@.len() == picked.len() && forall|k: int|
                0 <= k < r@.len() ==> (#[trigger] r@[k])@ == entries@[picked[k]].path@,
{
    let mut keys: Vec<SortKey> = Vec::new();
    let mut at: Vec<usize> = Vec::new();
    for i in 0..entries.len()
        invariant
            keys@.len() == at@.len(),
            forall|k: int|
                0 <= k < at@.len() ==> #[trigger] at@[k] < i && wildcard(
                    pattern@,
                    entries@[at@[k] as int].name@,
                ) && keys@[k]@ == (0int, entries@[at@[k] as int].name@),
            forall|a: int, b: int| 0 <= a < b < at@.len() ==> #[trigger] at@[a] < #[trigger] at@[b],
            forall|j: int|
                0 <= j < i && wildcard(pattern@, (#[trigger] entries@[j]).name@) ==> exists|k: int|
                    0 <= k < at@.len() && #[trigger] at@[k] == j,
    {
        let ghost had = at@;
        if wildcard_match(pattern, entries[i].name.as_str()) {
            keys.push(SortKey::new(0, entries[i].name.as_str()));
            at.push(i);
            proof {
                assert(at@[had.len() as int] == i);
                assert forall|j: int|
                    0 <= j < i + 1 && wildcard(pattern@, (#[trigger] entries@[j]).name@) implies exists|
                    k: int,
                |
                    0 <= k < at@.len() && #[trigger] at@[k] == j by {
                    if j < i {
                        let k = choose|k: int| 0 <= k < had.len() && #[trigger] had[k] == j;
                        assert(at@[k] == j);
                    }
                }
            }
        }
    }
    let perm = sorted(&keys);
    let ghost ks = crate::order::keys_of(keys@);
    let ghost picked: Seq<int> = Seq::new(perm@.len(), |k: int| at@[perm@[k] as int] as int);
    let mut out: Vec<String> = Vec::new();
    for k in 0..perm.len()
        invariant
            crate::order::in_order(ks, perm@),
            ks.len() == at@.len(),
            picked.len() == perm@.len(),
            forall|j: int| 0 <= j < perm@.len() ==> #[trigger] picked[j] == at@[perm@[j] as int],
            forall|j: int| 0 <= j < at@.len() ==> #[trigger] at@[j] < entries@.len(),
            out@.len() == k,
            forall|j: int| 0 <= j < k ==> (#[trigger] out@[j])@ == entries@[picked[j]].path@,
    {
        assert(perm@[k as int] < ks.len());
        out.push(entries[at[perm[k]]].path.clone());
    }
    proof {
        assert forall|k: int| 0 <= k < picked.len() implies 0 <= #[trigger] picked[k] < entries@.len()
            && wildcard(pattern@, entries@[picked[k]].name@) by {
            assert(perm@[k] < ks.len());
            assert(at@[perm@[k] as int] < entries@.len());
        }
        assert forall|i: int|
            0 <= i < entries@.len() && wildcard(pattern@, (#[trigger] entries@[i]).name@) implies
            picked.contains(i) by {
            let j = choose|j: int| 0 <= j < at@.len() && #[trigger] at@[j] == i;
            crate::order::lemma_in_order_holds_all(ks, perm@, j as usize);
            let k = choose|k: int| 0 <= k < perm@.len() && perm@[k] == j as usize;
            assert(picked[k] == i);
        }
        assert forall|a: int, b: int| 0 <= a < b < picked.len() implies {
            ||| crate::order::text_lt(
                entries@[#[trigger] picked[a]].name@,
                entries@[#[trigger] picked[b]].name@,
            )
            ||| entries@[picked[a]].name@ == entries@[picked[b]].name@ && picked[a] < picked[b]
        } by {
            let p = perm@[a] as int;
            let q = perm@[b] as int;
            assert(p < ks.len() && q < ks.len());
            assert(crate::order::entry_lt(ks, p, q));
            assert(at@[p] < entries@.len() && at@[q] < entries@.len());
            assert(ks[p] == keys@[p]@ && ks[q] == keys@[q]@);
        }
        assert(is_selection(entries@, pattern@, picked));
    }
    out
}

} // verus!
