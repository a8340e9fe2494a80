//! What holds of every text that is taken apart or put together.

use vstd::prelude::*;

verus! {

/// Whether a text is white space only.
pub open spec fn is_blank(s: Seq<char>) -> bool {
    forall|i: int| 0 <= i < s.len() ==> crate::text::is_space(#[trigger] s[i])
}

/// Whether a text holds no white space.
pub open spec fn is_solid(s: Seq<char>) -> bool {
    forall|i: int| 0 <= i < s.len() ==> !crate::text::is_space(#[trigger] s[i])
}

/// Whether a text stands inside another.
pub open spec fn stands_in(part: Seq<char>, whole: Seq<char>) -> bool {
    exists|at: int|
        0 <= at && at + part.len() <= whole.len() && #[trigger] whole.subrange(at, at + part.len())
            == part
}

/// A text stands in every text that is put together around it.
pub proof fn lemma_stands_in(before: Seq<char>, part: Seq<char>, after: Seq<char>)
    ensures
        stands_in(part, before + part + after),
{
    let whole = before + part + after;
    let at = before.len() as int;
    assert(whole.subrange(at, at + part.len()) =~= part);
}

/// What stands in a text stands in every text that is put together around that.
pub proof fn lemma_stands_deeper(
    part: Seq<char>,
    before: Seq<char>,
    inner: Seq<char>,
    after: Seq<char>,
)
    requires
        stands_in(part, inner),
    ensures
        stands_in(part, before + inner + after),
{
    let whole = before + inner + after;
    let at = choose|at: int|
        0 <= at && at + part.len() <= inner.len() && #[trigger] inner.subrange(at, at + part.len())
            == part;
    let there = before.len() + at;
    assert(whole.subrange(there, there + part.len()) =~= inner.subrange(at, at + part.len()));
}

/// A number that is written in decimal is read back as itself: digits only, and no
/// zero in front of another digit. Different numbers are written differently.
pub proof fn law_decimal_reads_back(n: nat)
    ensures
        crate::text::number(crate::text::decimal(n)) == Some(n),
        crate::text::decimal(n).len() > 0,
        forall|i: int|
            0 <= i < crate::text::decimal(n).len() ==> '0' <= #[trigger] crate::text::decimal(n)[i]
                <= '9',
        n > 0 ==> crate::text::decimal(n)[0] != '0',
        is_solid(crate::text::decimal(n)),
    decreases n,
{
    let d = crate::text::decimal(n);
    lemma_decimal(n);
    assert forall|i: int| 0 <= i < d.len() implies !crate::text::is_space(#[trigger] d[i]) by {
        assert('0' <= d[i] <= '9');
    }
}

proof fn lemma_decimal(n: nat)
    ensures
        ({
            let d = crate::text::decimal(n);
            &&& d.len() > 0
            &&& forall|i: int| 0 <= i < d.len() ==> '0' <= #[trigger] d[i] <= '9'
            &&& crate::text::digits_value(d) == n
            &&& n > 0 ==> d[0] != '0'
        }),
    decreases n,
{
    let d = crate::text::decimal(n);
    if n < 10 {
        assert(d.drop_last() =~= Seq::<char>::empty());
        assert(crate::text::digits_value(d.drop_last()) == 0);
    } else {
        lemma_decimal(n / 10);
        assert(d.drop_last() =~= crate::text::decimal(n / 10));
        assert(d.last() == crate::text::digit(n % 10));
    }
}

/// Two numbers that are written alike are the same.
pub proof fn law_decimals_differ(a: nat, b: nat)
    requires
        a != b,
    ensures
        crate::text::decimal(a) != crate::text::decimal(b),
{
    law_decimal_reads_back(a);
    law_decimal_reads_back(b);
}

/// A number is its digits, each worth ten times the one behind it, with or without a
/// plus sign; nothing else is a number.
pub proof fn law_numbers(s: Seq<char>, c: char)
    ensures
        crate::text::number(Seq::empty()) is None,
        crate::text::number(seq![c]) == if '0' <= c <= '9' {
            Some((c as nat - '0' as nat) as nat)
        } else {
            None::<nat>
        },
        s.len() > 0 && s[0] != '+' ==> crate::text::number(seq!['+'] + s) == crate::text::number(s),
        s.len() > 0 && s != seq!['+'] ==> crate::text::number(s.push(c)) == match crate::text::number(
            s,
        ) {
            Some(n) if '0' <= c <= '9' => Some((10 * n + (c as nat - '0' as nat)) as nat),
            _ => None::<nat>,
        },
{
    let one = seq![c];
    let none = Seq::<char>::empty();
    assert(crate::text::unsigned_part(none) =~= none);
    assert(one.drop_last() =~= none);
    assert(crate::text::digits_value(none) == 0);
    if c == '+' {
        assert(one.skip(1) =~= none);
    } else {
        assert(one[0] == c);
        if '0' <= c <= '9' {
            assert(forall|i: int| 0 <= i < one.len() ==> crate::text::is_digit(#[trigger] one[i]));
        } else {
            assert(!crate::text::is_digit(one[0]));
        }
    }
    if s.len() > 0 && s[0] != '+' {
        assert((seq!['+'] + s).skip(1) =~= s);
    }
    if s.len() > 0 && s != seq!['+'] {
        let t = crate::text::unsigned_part(s);
        let u = crate::text::unsigned_part(s.push(c));
        assert(u =~= t.push(c));
        assert(u.drop_last() =~= t);
        if s[0] == '+' && s.len() == 1 {
            assert(s =~= seq!['+']);
        }
        if forall|i: int| 0 <= i < t.len() ==> crate::text::is_digit(#[trigger] t[i]) {
            if '0' <= c <= '9' {
                assert forall|i: int| 0 <= i < u.len() implies crate::text::is_digit(
                    #[trigger] u[i],
                ) by {
                    if i < t.len() {
                        assert(u[i] == t[i]);
                    }
                }
            } else {
                assert(!crate::text::is_digit(u[t.len() as int]));
            }
        } else {
            let i = choose|i: int| 0 <= i < t.len() && !crate::text::is_digit(#[trigger] t[i]);
            assert(u[i] == t[i]);
        }
    }
}

/// White space around a text is taken off, and nothing else.
pub proof fn law_trimming(before: Seq<char>, s: Seq<char>, after: Seq<char>)
    requires
        is_blank(before),
        is_blank(after),
        s.len() == 0 || (!crate::text::is_space(s[0]) && !crate::text::is_space(s.last())),
    ensures
        crate::text::trimmed(before + s + after) == s,
{
    lemma_trim_start(before, s + after);
    assert(before + s + after =~= before + (s + after));
    if s.len() == 0 {
        assert(s + after =~= after);
        lemma_trim_start(after, Seq::empty());
        assert(after + Seq::<char>::empty() =~= after);
        assert(crate::text::trim_start(Seq::<char>::empty()) =~= Seq::<char>::empty());
        assert(s =~= Seq::<char>::empty());
    } else {
        assert((s + after)[0] == s[0]);
        lemma_trim_end(s, after);
    }
}

proof fn lemma_trim_start(before: Seq<char>, s: Seq<char>)
    requires
        is_blank(before),
    ensures
        crate::text::trim_start(before + s) == crate::text::trim_start(s),
    decreases before.len(),
{
    if before.len() == 0 {
        assert(before + s =~= s);
    } else {
        assert(crate::text::is_space(before[0]));
        let rest = before.skip(1);
        assert forall|i: int| 0 <= i < rest.len() implies crate::text::is_space(#[trigger] rest[i]) by {
            assert(rest[i] == before[i + 1]);
        }
        assert((before + s).skip(1) =~= rest + s);
        lemma_trim_start(rest, s);
    }
}

proof fn lemma_trim_end(s: Seq<char>, after: Seq<char>)
    requires
        is_blank(after),
        s.len() > 0,
        !crate::text::is_space(s.last()),
    ensures
        crate::text::trim_end(s + after) == s,
    decreases after.len(),
{
    if after.len() == 0 {
        assert(s + after =~= s);
    } else {
        assert(crate::text::is_space(after[after.len() - 1]));
        let less = after.drop_last();
        assert forall|i: int| 0 <= i < less.len() implies crate::text::is_space(#[trigger] less[i]) by {
            assert(less[i] == after[i]);
        }
        assert((s + after).drop_last() =~= s + less);
        lemma_trim_end(s, less);
    }
}

/// The words of a text with white space in it are the words on both sides; a text
/// without any is one word.
pub proof fn law_words(a: Seq<char>, space: char, b: Seq<char>)
    requires
        crate::text::is_space(space),
    ensures
        crate::text::words(a + seq![space] + b) == crate::text::words(a) + crate::text::words(b),
        a.len() > 0 && is_solid(a) ==> crate::text::words(a) == seq![a],
        crate::text::words(Seq::<char>::empty()) == Seq::<Seq<char>>::empty(),
    decreases a.len(),
{
    let whole = a + seq![space] + b;
    crate::text::lemma_find_space(a);
    crate::text::lemma_find_space(whole);
    if a.len() == 0 {
        assert(whole.skip(1) =~= b);
        assert(whole[0] == space);
        assert(crate::text::words(a) =~= Seq::<Seq<char>>::empty());
        assert(Seq::<Seq<char>>::empty() + crate::text::words(b) =~= crate::text::words(b));
    } else if crate::text::is_space(a[0]) {
        assert(whole[0] == a[0]);
        assert(whole.skip(1) =~= a.skip(1) + seq![space] + b);
        law_words(a.skip(1), space, b);
    } else {
        let i = crate::text::find_space(a);
        let k = crate::text::find_space(whole);
        assert(whole[0] == a[0]);
        assert(whole[a.len() as int] == space);
        assert forall|j: int| 0 <= j < i implies !crate::text::is_space(#[trigger] whole[j]) by {
            assert(whole[j] == a[j]);
        }
        assert(k >= i) by {
            if k < i {
                assert(crate::text::is_space(whole[k]));
            }
        }
        assert(k <= i) by {
            if i < a.len() {
                assert(whole[i] == a[i]);
            }
            if k > i {
                assert(!crate::text::is_space(whole[i]));
            }
        }
        assert(i > 0);
        assert(whole.take(i) =~= a.take(i));
        assert(whole.skip(i) =~= a.skip(i) + seq![space] + b);
        law_words(a.skip(i), space, b);
        assert(crate::text::words(whole) =~= crate::text::words(a) + crate::text::words(b));
        if is_solid(a) {
            assert(i == a.len()) by {
                if i < a.len() {
                    assert(crate::text::is_space(a[i]));
                }
            }
            assert(a.take(i) =~= a);
            assert(a.skip(i) =~= Seq::<char>::empty());
            assert(crate::text::words(a) =~= seq![a]);
        }
    }
}

/// A text is split at every separator: what stands before the first one is a piece,
/// and the rest is split on.
pub proof fn law_splitting(a: Seq<char>, c: char, b: Seq<char>)
    requires
        !a.contains(c),
    ensures
        crate::text::split(a, c) == seq![a],
        crate::text::split(a + seq![c] + b, c) == seq![a] + crate::text::split(b, c),
{
    let whole = a + seq![c] + b;
    let k = a.len() as int;
    assert forall|j: int| 0 <= j < k implies a[j] != c by {
        if a[j] == c {
            assert(a.contains(c));
        }
    }
    crate::text::lemma_find_is(a, c, k);
    assert forall|j: int| 0 <= j < k implies whole[j] != c by {
        assert(whole[j] == a[j]);
    }
    assert(whole[k] == c);
    crate::text::lemma_find_is(whole, c, k);
    assert(whole.take(k) =~= a);
    assert(whole.skip(k + 1) =~= b);
}

/// A line ends at a newline, which may have a carriage return before it; a last line
/// without one counts too.
pub proof fn law_lines(a: Seq<char>, b: Seq<char>)
    requires
        !a.contains('\n'),
    ensures
        crate::text::lines(Seq::<char>::empty()) == Seq::<Seq<char>>::empty(),
        a.len() > 0 ==> crate::text::lines(a) == seq![a],
        a.len() == 0 || a.last() != '\r' ==> crate::text::lines(a + seq!['\n'] + b) == seq![a]
            + crate::text::lines(b),
        crate::text::lines(a + seq!['\r', '\n'] + b) == seq![a] + crate::text::lines(b),
{
    let k = a.len() as int;
    assert forall|j: int| 0 <= j < k implies a[j] != '\n' by {
        if a[j] == '\n' {
            assert(a.contains('\n'));
        }
    }
    crate::text::lemma_find_is(a, '\n', k);
    let one = a + seq!['\n'] + b;
    assert forall|j: int| 0 <= j < k implies one[j] != '\n' by {
        assert(one[j] == a[j]);
    }
    assert(one[k] == '\n');
    crate::text::lemma_find_is(one, '\n', k);
    assert(one.take(k) =~= a);
    assert(one.skip(k + 1) =~= b);
    let two = a + seq!['\r', '\n'] + b;
    assert forall|j: int| 0 <= j < k + 1 implies two[j] != '\n' by {
        if j < k {
            assert(two[j] == a[j]);
        }
    }
    assert(two[k + 1] == '\n');
    crate::text::lemma_find_is(two, '\n', k + 1);
    assert(two.take(k + 1) =~= a.push('\r'));
    assert(a.push('\r').drop_last() =~= a);
    assert(two.skip(k + 2) =~= b);
}


/// A number that is too large is none.
pub proof fn law_bounded_numbers(s: Seq<char>, max: nat, n: nat)
    ensures
        n <= max ==> crate::text::number_up_to(crate::text::decimal(n), max) == Some(n),
        n > max ==> crate::text::number_up_to(crate::text::decimal(n), max) is None,
        crate::text::number(s) is None ==> crate::text::number_up_to(s, max) is None,
{
    law_decimal_reads_back(n);
}

/// The characters that Unicode counts as white space, and no others.
pub proof fn law_white_space(c: char)
    ensures
        crate::text::is_space(' '),
        crate::text::is_space('\t'),
        crate::text::is_space('\n'),
        crate::text::is_space('\r'),
        crate::text::is_space('\u{b}') && crate::text::is_space('\u{c}'),
        crate::text::is_space('\u{85}') && crate::text::is_space('\u{a0}'),
        crate::text::is_space('\u{3000}') && crate::text::is_space('\u{2009}'),
        '!' <= c <= '~' ==> !crate::text::is_space(c),
        c < '\t' ==> !crate::text::is_space(c),
        c == '\u{200b}' || c == '\u{feff}' ==> !crate::text::is_space(c),
{
}

} // verus!
