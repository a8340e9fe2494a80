//! Byte sequences: appending, searching and counting UTF-8 characters.

use vstd::prelude::*;

verus! {

/// Appends `more` to `out`.
pub fn append_bytes(out: &mut Vec<u8>, more: &[u8])
    ensures
        final(out)@ == old(out)@ + more@,
{
    let ghost before = out@;
    out.extend_from_slice(more);
    assert(out@ =~= before + more@);
}

/// A copy of the bytes `v[from..]`.
pub fn bytes_from(v: &[u8], from: usize) -> (r: Vec<u8>)
    requires
        from <= v@.len(),
    ensures
        r@ == v@.skip(from as int),
{
    let mut out: Vec<u8> = Vec::new();
    let mut i: usize = from;
    while i < v.len()
        invariant
            from <= i <= v@.len(),
            out@ == v@.subrange(from as int, i as int),
        decreases v@.len() - i,
    {
        out.push(v[i]);
        i = i + 1;
    }
    assert(out@ =~= v@.skip(from as int));
    out
}

/// Whether `needle` stands in `hay` at `at`.
pub open spec fn occurs_at(hay: Seq<u8>, needle: Seq<u8>, at: int) -> bool {
    &&& 0 <= at
    &&& at + needle.len() <= hay.len()
    &&& hay.subrange(at, at + needle.len()) == needle
}

/// Whether `prefix` begins `s`.
pub open spec fn begins_with(s: Seq<u8>, prefix: Seq<u8>) -> bool {
    prefix.len() <= s.len() && s.take(prefix.len() as int) == prefix
}

/// How many bytes two sequences have in common at their start.
pub open spec fn common_prefix(a: Seq<u8>, b: Seq<u8>) -> nat
    decreases a.len(),
{
    if a.len() == 0 || b.len() == 0 || a[0] != b[0] {
        0
    } else {
        1 + common_prefix(a.skip(1), b.skip(1))
    }
}

/// `count` copies of `s`, one behind the other.
pub open spec fn repeated(s: Seq<u8>, count: nat) -> Seq<u8>
    decreases count,
{
    if count == 0 {
        Seq::empty()
    } else {
        repeated(s, (count - 1) as nat) + s
    }
}

/// The last `n` bytes of `s`, or all of it where it is shorter.
pub open spec fn last_bytes(s: Seq<u8>, n: nat) -> Seq<u8> {
    if s.len() <= n {
        s
    } else {
        s.skip(s.len() - n)
    }
}

/// Whether a byte continues a UTF-8 character that an earlier byte began.
pub open spec fn continues_char(b: u8) -> bool {
    0x80 <= b < 0xc0
}

/// Where the last character of a text in UTF-8 begins. The first byte begins a
/// character whatever it is.
pub open spec fn last_char_start(s: Seq<u8>) -> int
    decreases s.len(),
{
    if s.len() <= 1 {
        0
    } else if continues_char(s.last()) {
        last_char_start(s.drop_last())
    } else {
        s.len() - 1
    }
}

/// A text in UTF-8 without its last character.
pub open spec fn without_last_char(s: Seq<u8>) -> Seq<u8> {
    s.take(last_char_start(s))
}

/// How many characters begin in `s`.
pub open spec fn char_count(s: Seq<u8>) -> nat
    decreases s.len(),
{
    if s.len() == 0 {
        0
    } else {
        char_count(s.drop_last()) + if continues_char(s.last()) {
            0nat
        } else {
            1nat
        }
    }
}

/// The last character of a text begins inside it.
pub proof fn lemma_last_char_start(s: Seq<u8>)
    ensures
        0 <= last_char_start(s),
        s.len() > 0 ==> last_char_start(s) < s.len(),
    decreases s.len(),
{
    if s.len() > 1 && continues_char(s.last()) {
        lemma_last_char_start(s.drop_last());
    }
}

/// The UTF-8 encoding of two texts, one behind the other, is the two encodings.
pub proof fn lemma_encode_append(a: Seq<char>, b: Seq<char>)
    ensures
        vstd::utf8::encode_utf8(a + b) == vstd::utf8::encode_utf8(a) + vstd::utf8::encode_utf8(b),
    decreases a.len(),
{
    if a.len() == 0 {
        assert(a + b =~= b);
        assert(vstd::utf8::encode_utf8(a) =~= Seq::<u8>::empty());
        assert(Seq::<u8>::empty() + vstd::utf8::encode_utf8(b) =~= vstd::utf8::encode_utf8(b));
    } else {
        assert((a + b).drop_first() =~= a.drop_first() + b);
        lemma_encode_append(a.drop_first(), b);
        assert(vstd::utf8::encode_utf8(a + b) =~= vstd::utf8::encode_utf8(a)
            + vstd::utf8::encode_utf8(b));
    }
}

/// A character's encoding is one byte that begins it and up to three that
/// continue it. Only the space holds the byte of a space.
pub proof fn lemma_encode_char(c: char)
    ensures
        ({
            let e = vstd::utf8::encode_scalar(c as u32);
            &&& 1 <= e.len() <= 4
            &&& !continues_char(e[0])
            &&& forall|i: int| 1 <= i < e.len() ==> continues_char(#[trigger] e[i])
            &&& (e.last() == 0x20 <==> c == ' ')
            &&& c == ' ' ==> e == seq![0x20u8]
        }),
{
    vstd::utf8::char_is_scalar(c);
    let v = c as u32;
    let e = vstd::utf8::encode_scalar(v);
    let b1 = vstd::utf8::leading_byte_width_1(v);
    let b2 = vstd::utf8::leading_byte_width_2(v);
    let b3 = vstd::utf8::leading_byte_width_3(v);
    let b4 = vstd::utf8::leading_byte_width_4(v);
    let c1 = vstd::utf8::last_continuation_byte(v);
    let c2 = vstd::utf8::second_last_continuation_byte(v);
    let c3 = vstd::utf8::third_last_continuation_byte(v);
    assert(v <= 0x7f ==> b1 == v) by (bit_vector)
        requires
            b1 == vstd::utf8::leading_byte_width_1(v),
    ;
    assert(b2 >= 0xc0) by (bit_vector)
        requires
            b2 == vstd::utf8::leading_byte_width_2(v),
    ;
    assert(b3 >= 0xc0) by (bit_vector)
        requires
            b3 == vstd::utf8::leading_byte_width_3(v),
    ;
    assert(b4 >= 0xc0) by (bit_vector)
        requires
            b4 == vstd::utf8::leading_byte_width_4(v),
    ;
    assert(0x80 <= c1 && c1 < 0xc0) by (bit_vector)
        requires
            c1 == vstd::utf8::last_continuation_byte(v),
    ;
    assert(0x80 <= c2 && c2 < 0xc0) by (bit_vector)
        requires
            c2 == vstd::utf8::second_last_continuation_byte(v),
    ;
    assert(0x80 <= c3 && c3 < 0xc0) by (bit_vector)
        requires
            c3 == vstd::utf8::third_last_continuation_byte(v),
    ;
    if c == ' ' {
        assert(v == 0x20);
        assert(e =~= seq![0x20u8]);
    }
}

/// One byte that begins a character, and those that continue it, behind any text:
/// they are its last character, and count as one.
proof fn lemma_last_char(base: Seq<u8>, e: Seq<u8>)
    requires
        e.len() >= 1,
        !continues_char(e[0]),
        forall|i: int| 1 <= i < e.len() ==> continues_char(#[trigger] e[i]),
    ensures
        last_char_start(base + e) == base.len(),
        char_count(base + e) == char_count(base) + 1,
    decreases e.len(),
{
    let s = base + e;
    assert(s.last() == e.last());
    if e.len() == 1 {
        assert(s.drop_last() =~= base);
    } else {
        assert(s.drop_last() =~= base + e.drop_last());
        lemma_last_char(base, e.drop_last());
    }
}

/// Taking the last character off the UTF-8 encoding of a text leaves the encoding
/// of the text without its last character, and the encoding has as many
/// characters as the text.
pub proof fn lemma_utf8_chars(text: Seq<char>)
    ensures
        text.len() > 0 ==> without_last_char(vstd::utf8::encode_utf8(text))
            == vstd::utf8::encode_utf8(text.drop_last()),
        char_count(vstd::utf8::encode_utf8(text)) == text.len(),
        text.len() > 0 ==> vstd::utf8::encode_utf8(text).len() > 0 && (vstd::utf8::encode_utf8(
            text,
        ).last() == 0x20 <==> text.last() == ' '),
        text.len() == 0 ==> vstd::utf8::encode_utf8(text).len() == 0,
    decreases text.len(),
{
    if text.len() > 0 {
        let front = text.drop_last();
        let c = text.last();
        let base = vstd::utf8::encode_utf8(front);
        let e = vstd::utf8::encode_scalar(c as u32);
        lemma_utf8_chars(front);
        lemma_encode_char(c);
        lemma_encode_append(front, seq![c]);
        assert(front + seq![c] =~= text);
        assert(seq![c].drop_first() =~= Seq::<char>::empty());
        assert(vstd::utf8::encode_utf8(seq![c]) =~= e + vstd::utf8::encode_utf8(Seq::<char>::empty()));
        assert(vstd::utf8::encode_utf8(text) =~= base + e);
        lemma_last_char(base, e);
        assert((base + e).take(base.len() as int) =~= base);
    }
}

/// Whether `b` continues a UTF-8 character.
pub fn byte_continues_char(b: u8) -> (r: bool)
    ensures
        r == continues_char(b),
{
    let masked: u8 = b & 0xc0;
    assert((masked == 0x80) == (0x80 <= b && b < 0xc0)) by (bit_vector)
        requires
            masked == b & 0xc0,
    ;
    masked == 0x80
}

/// Removes the last character of a text in UTF-8. Answers whether there was one.
pub fn pop_utf8_char(line: &mut Vec<u8>) -> (r: bool)
    ensures
        r == (old(line)@.len() > 0),
        r ==> final(line)@ == without_last_char(old(line)@),
        !r ==> final(line)@ == old(line)@,
{
    if line.is_empty() {
        return false;
    }
    let ghost whole = line@;
    let mut end: usize = line.len();
    assert(whole.take(end as int) =~= whole);
    while end > 1 && byte_continues_char(line[end - 1])
        invariant
            line@ == whole,
            1 <= end <= whole.len(),
            last_char_start(whole) == last_char_start(whole.take(end as int)),
        decreases end,
    {
        assert(whole.take(end as int).drop_last() =~= whole.take(end - 1));
        end = end - 1;
    }
    line.truncate(end - 1);
    assert(line@ =~= whole.take(end - 1));
    true
}

/// How many UTF-8 characters begin in `line`.
pub fn utf8_char_count(line: &[u8]) -> (r: usize)
    ensures
        r == char_count(line@),
{
    let mut count: usize = 0;
    for i in 0..line.len()
        invariant
            count == char_count(line@.take(i as int)),
            count <= i,
    {
        assert(line@.take(i + 1).drop_last() =~= line@.take(i as int));
        if !byte_continues_char(line[i]) {
            count = count + 1;
        }
    }
    assert(line@.take(line@.len() as int) =~= line@);
    count
}

/// Whether `prefix` begins `s`.
pub fn starts_with(s: &[u8], prefix: &[u8]) -> (r: bool)
    ensures
        r == begins_with(s@, prefix@),
{
    if prefix.len() > s.len() {
        return false;
    }
    for i in 0..prefix.len()
        invariant
            prefix@.len() <= s@.len(),
            forall|j: int| 0 <= j < i ==> s@[j] == prefix@[j],
    {
        if s[i] != prefix[i] {
            assert(s@.take(prefix@.len() as int)[i as int] != prefix@[i as int]);
            return false;
        }
    }
    assert(s@.take(prefix@.len() as int) =~= prefix@);
    true
}

/// Counts the bytes that `a` and `b` have in common at their start.
pub fn common_prefix_len(a: &[u8], b: &[u8]) -> (r: usize)
    ensures
        r == common_prefix(a@, b@),
        r <= a@.len(),
        r <= b@.len(),
{
    let mut n: usize = 0;
    assert(a@.skip(0) =~= a@);
    assert(b@.skip(0) =~= b@);
    while n < a.len() && n < b.len() && a[n] == b[n]
        invariant
            n <= a@.len(),
            n <= b@.len(),
            common_prefix(a@, b@) == n + common_prefix(a@.skip(n as int), b@.skip(n as int)),
        decreases a@.len() - n,
    {
        assert(a@.skip(n as int).skip(1) =~= a@.skip(n + 1));
        assert(b@.skip(n as int).skip(1) =~= b@.skip(n + 1));
        n = n + 1;
    }
    n
}

/// Whether `needle` occurs in `hay` with an end beyond the first `seen` bytes.
pub open spec fn new_match(hay: Seq<u8>, seen: int, needle: Seq<u8>) -> bool {
    exists|at: int| #[trigger] occurs_at(hay, needle, at) && at + needle.len() > seen
}

/// Looks for `needle` in `haystack`, passing over what ends within the first
/// `old_len` bytes.
pub fn has_new_match(haystack: &[u8], old_len: usize, needle: &[u8]) -> (r: bool)
    requires
        needle@.len() > 0,
    ensures
        r == new_match(haystack@, old_len as int, needle@),
{
    if needle.len() > haystack.len() {
        return false;
    }
    let whole: usize = haystack.len();
    let last: usize = whole - needle.len();
    let mut at: usize = 0;
    loop
        invariant
            at <= last,
            whole == haystack@.len(),
            last == whole - needle@.len(),
            forall|j: int|
                0 <= j < at ==> !(#[trigger] occurs_at(haystack@, needle@, j) && j + needle@.len()
                    > old_len),
        decreases last - at,
    {
        let mut i: usize = 0;
        while i < needle.len() && haystack[at + i] == needle[i]
            invariant
                at <= last,
                whole == haystack@.len(),
                last == whole - needle@.len(),
                i <= needle@.len(),
                forall|j: int| 0 <= j < i ==> haystack@[at + j] == needle@[j],
            decreases needle@.len() - i,
        {
            i = i + 1;
        }
        if i == needle.len() {
            assert(haystack@.subrange(at as int, at + needle@.len()) =~= needle@);
            if at + needle.len() > old_len {
                assert(occurs_at(haystack@, needle@, at as int));
                return true;
            }
        } else {
            assert(haystack@.subrange(at as int, at + needle@.len())[i as int] != needle@[i as int]);
            assert(!occurs_at(haystack@, needle@, at as int));
        }
        if at == last {
            return false;
        }
        at = at + 1;
    }
}

} // verus!
