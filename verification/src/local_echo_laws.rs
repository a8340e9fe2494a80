//! What holds of the line editor over any number of reads and keys.

use vstd::prelude::*;

use crate::local_echo::EchoState;
use crate::local_echo::CARRY;
use crate::local_echo::TOGGLE_KEY;

verus! {

/// Typing in pieces is typing at once: how the input is split into reads makes no
/// difference.
pub proof fn law_input_in_pieces(s: EchoState, a: Seq<u8>, b: Seq<u8>)
    ensures
        ({
            let (mid, remote, terminal) = crate::local_echo::typed(s, a);
            let (end, r, t) = crate::local_echo::typed(mid, b);
            crate::local_echo::typed(s, a + b) == (end, remote + r, terminal + t)
        }),
    decreases b.len(),
{
    let (mid, remote, terminal) = crate::local_echo::typed(s, a);
    if b.len() == 0 {
        assert(a + b =~= a);
        assert(remote + Seq::<u8>::empty() =~= remote);
        assert(terminal + Seq::<u8>::empty() =~= terminal);
    } else {
        law_input_in_pieces(s, a, b.drop_last());
        assert((a + b).drop_last() =~= a + b.drop_last());
        assert((a + b).last() == b.last());
        let (m2, r2, t2) = crate::local_echo::typed(mid, b.drop_last());
        let (end, r, t) = crate::local_echo::key(m2, b.last());
        assert((remote + r2) + r =~= remote + (r2 + r));
        assert((terminal + t2) + t =~= terminal + (t2 + t));
    }
}

/// Screen markers are found however the output is split into reads.
pub proof fn law_markers_in_pieces(s: EchoState, a: Seq<u8>, b: Seq<u8>)
    ensures
        ({
            let (mid, visible) = crate::local_echo::screened(s, a);
            let (end, v) = crate::local_echo::screened(mid, b);
            crate::local_echo::screened(s, a + b) == (end, visible + v)
        }),
    decreases b.len(),
{
    let (mid, visible) = crate::local_echo::screened(s, a);
    if b.len() == 0 {
        assert(a + b =~= a);
        assert(visible + Seq::<u8>::empty() =~= visible);
    } else {
        law_markers_in_pieces(s, a, b.drop_last());
        assert((a + b).drop_last() =~= a + b.drop_last());
        assert((a + b).last() == b.last());
        let (m2, v2) = crate::local_echo::screened(mid, b.drop_last());
        let (end, v) = crate::local_echo::screen_byte(m2, b.last());
        assert((visible + v2) + v =~= visible + (v2 + v));
    }
}

/// While bytes are not edited here, all of them but Enter and the toggle go to
/// the remote as they are, and change nothing.
pub proof fn law_passthrough(s: EchoState, data: Seq<u8>)
    requires
        !s.line_mode(),
        forall|i: int|
            0 <= i < data.len() ==> #[trigger] data[i] != TOGGLE_KEY && !crate::local_echo::is_enter(
                data[i],
            ),
    ensures
        crate::local_echo::typed(s, data) == (s, data, Seq::<u8>::empty()),
    decreases data.len(),
{
    if data.len() == 0 {
        assert(data =~= Seq::<u8>::empty());
    } else {
        let front = data.drop_last();
        assert forall|i: int| 0 <= i < front.len() implies #[trigger] front[i] != TOGGLE_KEY
            && !crate::local_echo::is_enter(front[i]) by {
            assert(front[i] == data[i]);
        }
        law_passthrough(s, front);
        assert(data.last() == data[data.len() - 1]);
        assert(front + seq![data.last()] =~= data);
        assert(Seq::<u8>::empty() + Seq::<u8>::empty() =~= Seq::<u8>::empty());
    }
}

/// Switched off, the editor hands everything but the toggle to the remote as it
/// is, and draws nothing.
pub proof fn law_off_is_passthrough(s: EchoState, data: Seq<u8>)
    requires
        !s.enabled,
        forall|i: int| 0 <= i < data.len() ==> #[trigger] data[i] != TOGGLE_KEY,
    ensures
        crate::local_echo::typed(s, data).1 == data,
        crate::local_echo::typed(s, data).2 == Seq::<u8>::empty(),
        !crate::local_echo::typed(s, data).0.enabled,
    decreases data.len(),
{
    if data.len() == 0 {
        assert(data =~= Seq::<u8>::empty());
    } else {
        let front = data.drop_last();
        assert forall|i: int| 0 <= i < front.len() implies #[trigger] front[i] != TOGGLE_KEY by {
            assert(front[i] == data[i]);
        }
        law_off_is_passthrough(s, front);
        assert(data.last() == data[data.len() - 1]);
        assert(front + seq![data.last()] =~= data);
        assert(Seq::<u8>::empty() + Seq::<u8>::empty() =~= Seq::<u8>::empty());
    }
}

/// Whether a byte is drawn and kept while a line is edited.
pub open spec fn is_plain(b: u8) -> bool {
    b >= 0x20 && b != 0x7f
}

/// Plain bytes are drawn at once and kept: nothing reaches the remote.
pub proof fn law_line_is_held(s: EchoState, data: Seq<u8>)
    requires
        s.line_mode(),
        forall|i: int| 0 <= i < data.len() ==> is_plain(#[trigger] data[i]),
    ensures
        crate::local_echo::typed(s, data) == (
            EchoState { line: s.line + data, ..s },
            Seq::<u8>::empty(),
            data,
        ),
    decreases data.len(),
{
    if data.len() == 0 {
        assert(data =~= Seq::<u8>::empty());
        assert(s.line + data =~= s.line);
    } else {
        let front = data.drop_last();
        assert forall|i: int| 0 <= i < front.len() implies is_plain(#[trigger] front[i]) by {
            assert(front[i] == data[i]);
        }
        law_line_is_held(s, front);
        assert(is_plain(data[data.len() - 1]));
        assert(front + seq![data.last()] =~= data);
        assert((s.line + front).push(data.last()) =~= s.line + data);
        assert(Seq::<u8>::empty() + Seq::<u8>::empty() =~= Seq::<u8>::empty());
    }
}

/// Enter sends the whole line at once, ended by a carriage return, and from then
/// on its echo is expected.
pub proof fn law_enter_sends_the_line(s: EchoState, data: Seq<u8>, enter: u8)
    requires
        s.line_mode(),
        forall|i: int| 0 <= i < data.len() ==> is_plain(#[trigger] data[i]),
        crate::local_echo::is_enter(enter),
    ensures
        crate::local_echo::typed(s, data.push(enter)) == (
            EchoState { line: Seq::empty(), pending: s.pending + (s.line + data), ..s },
            (s.line + data).push(0x0d),
            data,
        ),
{
    law_line_is_held(s, data);
    let all = data.push(enter);
    assert(all.drop_last() =~= data);
    assert(Seq::<u8>::empty() + (s.line + data).push(0x0d) =~= (s.line + data).push(0x0d));
    assert(data + Seq::<u8>::empty() =~= data);
}

/// A secret goes to the remote byte for byte and is never drawn; Enter ends it
/// and line editing is back.
pub proof fn law_secret_is_not_drawn(s: EchoState, secret: Seq<u8>, enter: u8)
    requires
        s.enabled,
        !s.alt_screen,
        s.disarmed,
        forall|i: int|
            0 <= i < secret.len() ==> #[trigger] secret[i] != TOGGLE_KEY
                && !crate::local_echo::is_enter(secret[i]),
        crate::local_echo::is_enter(enter),
    ensures
        ({
            let (end, remote, terminal) = crate::local_echo::typed(s, secret.push(enter));
            &&& remote == secret.push(enter)
            &&& terminal == Seq::<u8>::empty()
            &&& end == (EchoState { suspended: false, disarmed: false, ..s })
            &&& end.line_mode()
        }),
{
    law_passthrough(s, secret);
    assert(secret.push(enter).drop_last() =~= secret);
    assert(secret + seq![enter] =~= secret.push(enter));
    assert(Seq::<u8>::empty() + Seq::<u8>::empty() =~= Seq::<u8>::empty());
}

/// A key that only the remote can answer is sent behind what was typed so far;
/// the rest of the line goes straight to the remote, and Enter brings line
/// editing back.
pub proof fn law_remote_key_suspends(s: EchoState, b: u8, rest: Seq<u8>, enter: u8)
    requires
        s.line_mode(),
        b < 0x20,
        b != 0x03,
        b != 0x08,
        b != 0x15,
        b != 0x17,
        b != TOGGLE_KEY,
        !crate::local_echo::is_enter(b),
        forall|i: int|
            0 <= i < rest.len() ==> #[trigger] rest[i] != TOGGLE_KEY && !crate::local_echo::is_enter(
                rest[i],
            ),
        crate::local_echo::is_enter(enter),
    ensures
        ({
            let (end, remote, terminal) = crate::local_echo::typed(s, seq![b] + rest.push(enter));
            &&& remote == s.line + seq![b] + rest.push(enter)
            &&& terminal == Seq::<u8>::empty()
            &&& end == s.flushed()
            &&& end.line_mode()
        }),
{
    let one = seq![b];
    assert(one.drop_last() =~= Seq::<u8>::empty());
    let (mid, r1, t1) = crate::local_echo::key(s, b);
    assert(Seq::<u8>::empty() + r1 =~= r1);
    assert(Seq::<u8>::empty() + t1 =~= t1);
    assert(crate::local_echo::typed(s, one.drop_last()) == (s, Seq::<u8>::empty(), Seq::<u8>::empty()));
    assert(crate::local_echo::typed(s, one) == (mid, r1, t1));
    law_passthrough(mid, rest);
    assert(rest.push(enter).drop_last() =~= rest);
    assert(rest + seq![enter] =~= rest.push(enter));
    assert(Seq::<u8>::empty() + Seq::<u8>::empty() =~= Seq::<u8>::empty());
    law_input_in_pieces(s, one, rest.push(enter));
    assert(r1 + rest.push(enter) =~= s.line + seq![b] + rest.push(enter));
}

/// Pressing the toggle twice sends the line and leaves line editing as it was.
pub proof fn law_toggle_twice(s: EchoState)
    ensures
        crate::local_echo::typed(s, seq![TOGGLE_KEY, TOGGLE_KEY]).0 == s.flushed(),
        crate::local_echo::typed(s, seq![TOGGLE_KEY, TOGGLE_KEY]).1 == s.line,
{
    let two = seq![TOGGLE_KEY, TOGGLE_KEY];
    let one = seq![TOGGLE_KEY];
    assert(two.drop_last() =~= one);
    assert(one.drop_last() =~= Seq::<u8>::empty());
    assert(crate::local_echo::typed(s, one.drop_last()) == (s, Seq::<u8>::empty(), Seq::<u8>::empty()));
    let (mid, r, t) = crate::local_echo::key(s, TOGGLE_KEY);
    assert(Seq::<u8>::empty() + r =~= r);
    assert(Seq::<u8>::empty() + t =~= t);
    assert(crate::local_echo::typed(s, one) == (mid, r, t));
    let (end, r2, t2) = crate::local_echo::key(mid, TOGGLE_KEY);
    assert(mid.pending + Seq::<u8>::empty() =~= mid.pending);
    assert(s.line + Seq::<u8>::empty() =~= s.line);
    assert(end =~= s.flushed());
}

/// Backspace removes exactly one character, however many bytes it takes, and one
/// cell.
pub proof fn law_backspace_takes_one_char(s: EchoState, text: Seq<char>)
    requires
        s.line_mode(),
        s.line == vstd::utf8::encode_utf8(text),
        text.len() > 0,
    ensures
        crate::local_echo::key(s, 0x7f) == (
            EchoState { line: vstd::utf8::encode_utf8(text.drop_last()), ..s },
            Seq::<u8>::empty(),
            crate::local_echo::rubout(),
        ),
        crate::local_echo::key(s, 0x08) == crate::local_echo::key(s, 0x7f),
{
    crate::bytes::lemma_utf8_chars(text);
}

/// Ctrl-U erases one cell for each character of the line.
pub proof fn law_kill_line_erases_every_char(s: EchoState, text: Seq<char>)
    requires
        s.line_mode(),
        s.line == vstd::utf8::encode_utf8(text),
    ensures
        crate::local_echo::key(s, 0x15) == (
            EchoState { line: Seq::empty(), ..s },
            Seq::<u8>::empty(),
            crate::bytes::repeated(crate::local_echo::rubout(), text.len()),
        ),
{
    crate::bytes::lemma_utf8_chars(text);
}

/// Ctrl-W erases the spaces at the end of the line and the word before them,
/// one cell for each character.
pub proof fn law_kill_word(s: EchoState, head: Seq<char>, word: Seq<char>, spaces: nat)
    requires
        s.line_mode(),
        head.len() > 0 ==> head.last() == ' ',
        forall|i: int| 0 <= i < word.len() ==> #[trigger] word[i] != ' ',
        word.len() > 0 || head.len() == 0,
        s.line == vstd::utf8::encode_utf8(head + word + Seq::new(spaces, |i: int| ' ')),
    ensures
        crate::local_echo::key(s, 0x17) == (
            EchoState { line: vstd::utf8::encode_utf8(head), ..s },
            Seq::<u8>::empty(),
            crate::bytes::repeated(crate::local_echo::rubout(), word.len() + spaces),
        ),
{
    lemma_without_spaces(head + word, spaces);
    assert(head + word + Seq::new(spaces, |i: int| ' ') =~= (head + word) + Seq::new(
        spaces,
        |i: int| ' ',
    ));
    lemma_without_word(head, word);
}

/// Trailing spaces are taken off a text, one byte each.
proof fn lemma_without_spaces(text: Seq<char>, spaces: nat)
    requires
        text.len() > 0 ==> text.last() != ' ',
    ensures
        ({
            let line = vstd::utf8::encode_utf8(text + Seq::new(spaces, |i: int| ' '));
            let bare = crate::local_echo::without_spaces(line);
            &&& bare == vstd::utf8::encode_utf8(text)
            &&& line.len() == bare.len() + spaces
        }),
    decreases spaces,
{
    let padded = text + Seq::new(spaces, |i: int| ' ');
    crate::bytes::lemma_utf8_chars(padded);
    if spaces == 0 {
        assert(padded =~= text);
    } else {
        let fewer = text + Seq::new((spaces - 1) as nat, |i: int| ' ');
        assert(padded =~= fewer + seq![' ']);
        assert(padded.drop_last() =~= fewer);
        lemma_without_spaces(text, (spaces - 1) as nat);
        crate::bytes::lemma_encode_append(fewer, seq![' ']);
        crate::bytes::lemma_encode_char(' ');
        assert(seq![' '].drop_first() =~= Seq::<char>::empty());
        assert(vstd::utf8::encode_utf8(seq![' ']) =~= seq![0x20u8] + vstd::utf8::encode_utf8(
            Seq::<char>::empty(),
        ));
        let line = vstd::utf8::encode_utf8(padded);
        assert(line =~= vstd::utf8::encode_utf8(fewer).push(0x20));
        assert(line.drop_last() =~= vstd::utf8::encode_utf8(fewer));
    }
}

/// The last word is taken off a text, character by character.
proof fn lemma_without_word(head: Seq<char>, word: Seq<char>)
    requires
        head.len() > 0 ==> head.last() == ' ',
        forall|i: int| 0 <= i < word.len() ==> #[trigger] word[i] != ' ',
    ensures
        crate::local_echo::without_word(vstd::utf8::encode_utf8(head + word)) == (
            vstd::utf8::encode_utf8(head),
            word.len(),
        ),
    decreases word.len(),
{
    let text = head + word;
    crate::bytes::lemma_utf8_chars(text);
    if word.len() == 0 {
        assert(text =~= head);
    } else {
        assert(text.last() == word[word.len() - 1]);
        let front = word.drop_last();
        assert forall|i: int| 0 <= i < front.len() implies #[trigger] front[i] != ' ' by {
            assert(front[i] == word[i]);
        }
        assert(text.drop_last() =~= head + front);
        lemma_without_word(head, front);
    }
}

/// Output without an escape byte holds no marker: all of it is shown.
pub proof fn law_plain_output_is_visible(s: EchoState, chunk: Seq<u8>)
    requires
        s.marker.len() == 0,
        forall|i: int| 0 <= i < chunk.len() ==> #[trigger] chunk[i] != 0x1b,
    ensures
        crate::local_echo::screened(s, chunk) == (s, chunk),
    decreases chunk.len(),
{
    if chunk.len() == 0 {
        assert(chunk =~= Seq::<u8>::empty());
    } else {
        let front = chunk.drop_last();
        assert forall|i: int| 0 <= i < front.len() implies #[trigger] front[i] != 0x1b by {
            assert(front[i] == chunk[i]);
        }
        law_plain_output_is_visible(s, front);
        assert(chunk[chunk.len() - 1] != 0x1b);
        assert(front + seq![chunk.last()] =~= chunk);
    }
}

/// The echo of what was drawn is not shown again: of output that begins with it,
/// only the rest is, without its markers. (Where the rest asks for a secret while
/// a new line is being typed, the row is cleared first.)
pub proof fn law_echo_is_hidden(s: EchoState, rest: Seq<u8>)
    requires
        s.marker.len() == 0,
        forall|i: int| 0 <= i < s.pending.len() ==> is_plain(#[trigger] s.pending[i]),
        ({
            let (mid, visible) = crate::local_echo::screened(s, rest);
            mid.line.len() == 0 || !crate::local_echo::hint_seen(mid.tail, visible)
        }),
    ensures
        crate::local_echo::received(s, s.pending + rest).1 == crate::local_echo::screened(s, rest).1,
        crate::local_echo::received(s, s.pending + rest).0.pending == Seq::<u8>::empty(),
{
    let (mid, visible) = crate::local_echo::screened(s, rest);
    law_plain_output_is_visible(s, s.pending);
    law_markers_in_pieces(s, s.pending, rest);
    lemma_screened_keeps_pending(s, rest);
    lemma_common_prefix_of(s.pending, visible);
    assert((s.pending + visible).skip(s.pending.len() as int) =~= visible);
    assert(s.pending.skip(s.pending.len() as int) =~= Seq::<u8>::empty());
}

/// An echo that arrives in pieces is hidden piece by piece.
pub proof fn law_echo_in_pieces_is_hidden(s: EchoState, n: int)
    requires
        s.marker.len() == 0,
        0 <= n <= s.pending.len(),
        forall|i: int| 0 <= i < s.pending.len() ==> is_plain(#[trigger] s.pending[i]),
    ensures
        crate::local_echo::received(s, s.pending.take(n)).1 == Seq::<u8>::empty(),
        crate::local_echo::received(s, s.pending.take(n)).0.pending == s.pending.skip(n),
{
    let piece = s.pending.take(n);
    assert forall|i: int| 0 <= i < piece.len() implies #[trigger] piece[i] != 0x1b by {
        assert(piece[i] == s.pending[i]);
    }
    law_plain_output_is_visible(s, piece);
    lemma_common_prefix_of_take(s.pending, n);
    assert(piece.skip(n) =~= Seq::<u8>::empty());
}

/// Output that is not the expected echo is shown whole, but for its markers, and
/// nothing is hidden after it. (Where it asks for a secret while a new line is
/// being typed, the row is cleared first.)
pub proof fn law_other_output_ends_the_wait(s: EchoState, chunk: Seq<u8>)
    requires
        ({
            let (mid, visible) = crate::local_echo::screened(s, chunk);
            &&& visible.len() > 0
            &&& mid.pending.len() > 0
            &&& visible[0] != mid.pending[0]
            &&& mid.line.len() == 0 || !crate::local_echo::hint_seen(mid.tail, visible)
        }),
    ensures
        crate::local_echo::received(s, chunk).1 == crate::local_echo::screened(s, chunk).1,
        crate::local_echo::received(s, chunk).0.pending == Seq::<u8>::empty(),
{
    let visible = crate::local_echo::screened(s, chunk).1;
    assert(visible.skip(0) =~= visible);
}

/// Looking for markers leaves alone what is expected and what was shown, and whether
/// the next line is a secret.
pub proof fn lemma_screened_keeps_pending(s: EchoState, chunk: Seq<u8>)
    ensures
        crate::local_echo::screened(s, chunk).0.disarmed == s.disarmed,
        crate::local_echo::screened(s, chunk).0.pending == s.pending,
        crate::local_echo::screened(s, chunk).0.tail == s.tail,
    decreases chunk.len(),
{
    if chunk.len() > 0 {
        lemma_screened_keeps_pending(s, chunk.drop_last());
    }
}

/// Whether the line that is typed and the echo that is expected are made of plain
/// bytes.
pub open spec fn holds_plain_text(s: EchoState) -> bool {
    &&& forall|i: int| 0 <= i < s.line.len() ==> is_plain(#[trigger] s.line[i])
    &&& forall|i: int| 0 <= i < s.pending.len() ==> is_plain(#[trigger] s.pending[i])
}

/// Only plain bytes are ever drawn and expected back: a new editor holds none, and
/// input and output keep it so.
pub proof fn law_only_plain_bytes_are_held(s: EchoState, data: Seq<u8>)
    requires
        holds_plain_text(s),
    ensures
        holds_plain_text(crate::local_echo::typed(s, data).0),
        holds_plain_text(crate::local_echo::received(s, data).0),
{
    lemma_typed_keeps_plain(s, data);
    lemma_screened_keeps_pending(s, data);
    lemma_screened_keeps_line(s, data);
    let (mid, visible) = crate::local_echo::screened(s, data);
    let end = crate::local_echo::received(s, data).0;
    let matched = crate::bytes::common_prefix(visible, mid.pending) as int;
    lemma_common_prefix_bound(visible, mid.pending);
    assert forall|i: int| 0 <= i < end.pending.len() implies is_plain(#[trigger] end.pending[i]) by {
        assert(end.pending[i] == s.pending[matched + i]);
    }
}

/// No more is in common than the shorter of the two has.
proof fn lemma_common_prefix_bound(a: Seq<u8>, b: Seq<u8>)
    ensures
        crate::bytes::common_prefix(a, b) <= a.len(),
        crate::bytes::common_prefix(a, b) <= b.len(),
    decreases a.len(),
{
    if a.len() > 0 && b.len() > 0 {
        lemma_common_prefix_bound(a.skip(1), b.skip(1));
    }
}

/// Looking for markers keeps the line or forgets it.
proof fn lemma_screened_keeps_line(s: EchoState, chunk: Seq<u8>)
    ensures
        crate::local_echo::screened(s, chunk).0.line == s.line || crate::local_echo::screened(
            s,
            chunk,
        ).0.line.len() == 0,
    decreases chunk.len(),
{
    if chunk.len() > 0 {
        lemma_screened_keeps_line(s, chunk.drop_last());
    }
}

/// Erasing a word leaves a beginning of the line.
proof fn lemma_word_erased(line: Seq<u8>)
    ensures
        ({
            let rest = crate::local_echo::without_word(line).0;
            rest.len() <= line.len() && rest == line.take(rest.len() as int)
        }),
    decreases line.len(),
{
    assert(line.take(line.len() as int) =~= line);
    if line.len() > 0 && line.last() != 0x20 {
        crate::bytes::lemma_last_char_start(line);
        let shorter = crate::bytes::without_last_char(line);
        lemma_word_erased(shorter);
        let rest = crate::local_echo::without_word(line).0;
        assert(shorter.take(rest.len() as int) =~= line.take(rest.len() as int));
    }
}

/// Erasing spaces leaves a beginning of the line.
proof fn lemma_spaces_erased(line: Seq<u8>)
    ensures
        ({
            let rest = crate::local_echo::without_spaces(line);
            rest.len() <= line.len() && rest == line.take(rest.len() as int)
        }),
    decreases line.len(),
{
    assert(line.take(line.len() as int) =~= line);
    if line.len() > 0 && line.last() == 0x20 {
        lemma_spaces_erased(line.drop_last());
        let rest = crate::local_echo::without_spaces(line);
        assert(line.drop_last().take(rest.len() as int) =~= line.take(rest.len() as int));
    }
}

/// Typing draws and expects plain bytes only.
proof fn lemma_typed_keeps_plain(s: EchoState, data: Seq<u8>)
    requires
        holds_plain_text(s),
    ensures
        holds_plain_text(crate::local_echo::typed(s, data).0),
    decreases data.len(),
{
    if data.len() > 0 {
        lemma_typed_keeps_plain(s, data.drop_last());
        let mid = crate::local_echo::typed(s, data.drop_last()).0;
        let end = crate::local_echo::key(mid, data.last()).0;
        crate::bytes::lemma_last_char_start(mid.line);
        lemma_spaces_erased(mid.line);
        lemma_word_erased(crate::local_echo::without_spaces(mid.line));
        assert forall|i: int| 0 <= i < end.line.len() implies is_plain(#[trigger] end.line[i]) by {
            if i < mid.line.len() {
                assert(end.line[i] == mid.line[i]);
            }
        }
        assert forall|i: int| 0 <= i < end.pending.len() implies is_plain(
            #[trigger] end.pending[i],
        ) by {
            if i < mid.pending.len() {
                assert(end.pending[i] == mid.pending[i]);
            } else {
                assert(end.pending[i] == mid.line[i - mid.pending.len()]);
            }
        }
    }
}

/// A sequence has itself in common with its continuations.
proof fn lemma_common_prefix_of(a: Seq<u8>, rest: Seq<u8>)
    ensures
        crate::bytes::common_prefix(a + rest, a) == a.len(),
    decreases a.len(),
{
    if a.len() > 0 {
        assert((a + rest).skip(1) =~= a.skip(1) + rest);
        lemma_common_prefix_of(a.skip(1), rest);
    }
}

/// A sequence has its beginnings in common with itself.
proof fn lemma_common_prefix_of_take(a: Seq<u8>, n: int)
    requires
        0 <= n <= a.len(),
    ensures
        crate::bytes::common_prefix(a.take(n), a) == n,
    decreases n,
{
    if n > 0 {
        assert(a.take(n).skip(1) =~= a.skip(1).take(n - 1));
        lemma_common_prefix_of_take(a.skip(1), n - 1);
    }
}

/// Whether what is held back is the beginning of a marker, and not all of one.
pub open spec fn holds_part_of_marker(s: EchoState) -> bool {
    &&& s.marker.len() < 15
    &&& crate::bytes::begins_with(crate::local_echo::alt_enter(), s.marker)
        || crate::bytes::begins_with(crate::local_echo::alt_exit(), s.marker)
}

/// Only an incomplete marker is ever held back, and no more of the shown output
/// is kept than is needed: a new editor is in such a state, and input and output
/// keep it there.
pub proof fn law_little_is_held_back(s: EchoState, data: Seq<u8>)
    requires
        holds_part_of_marker(s),
        s.tail.len() <= CARRY,
    ensures
        holds_part_of_marker(crate::local_echo::typed(s, data).0),
        crate::local_echo::typed(s, data).0.tail.len() <= CARRY,
        holds_part_of_marker(crate::local_echo::received(s, data).0),
        crate::local_echo::received(s, data).0.tail.len() <= CARRY,
{
    lemma_typed_keeps(s, data);
    lemma_screened_keeps(s, data);
}

/// Typing leaves what is held of the output alone.
proof fn lemma_typed_keeps(s: EchoState, data: Seq<u8>)
    ensures
        crate::local_echo::typed(s, data).0.marker == s.marker,
        crate::local_echo::typed(s, data).0.tail == s.tail,
    decreases data.len(),
{
    if data.len() > 0 {
        lemma_typed_keeps(s, data.drop_last());
    }
}

/// Looking for markers holds back an incomplete one at most.
proof fn lemma_screened_keeps(s: EchoState, chunk: Seq<u8>)
    requires
        holds_part_of_marker(s),
    ensures
        holds_part_of_marker(crate::local_echo::screened(s, chunk).0),
    decreases chunk.len(),
{
    let enter = crate::local_echo::alt_enter();
    let exit = crate::local_echo::alt_exit();
    if chunk.len() > 0 {
        lemma_screened_keeps(s, chunk.drop_last());
        let mid = crate::local_echo::screened(s, chunk.drop_last()).0;
        let held = mid.marker.push(chunk.last());
        assert(enter.take(15) =~= enter);
        assert(exit.take(15) =~= exit);
        assert(enter.take(0) =~= Seq::<u8>::empty());
    }
}

/// A marker is never shown, wherever it stands in the output: it only says that
/// a full-screen program has started or ended.
pub proof fn law_markers_are_swallowed(s: EchoState)
    requires
        s.marker.len() == 0,
    ensures
        crate::local_echo::screened(s, crate::local_echo::alt_enter()) == (
            EchoState {
                alt_screen: true,
                line: if s.alt_screen {
                    s.line
                } else {
                    Seq::empty()
                },
                ..s
            },
            Seq::<u8>::empty(),
        ),
        crate::local_echo::screened(s, crate::local_echo::alt_exit()) == (
            EchoState { alt_screen: false, ..s },
            Seq::<u8>::empty(),
        ),
{
    let enter = crate::local_echo::alt_enter();
    let exit = crate::local_echo::alt_exit();
    lemma_marker_held(s, true, 14);
    lemma_marker_held(s, false, 14);
    assert(enter.drop_last() =~= enter.take(14));
    assert(exit.drop_last() =~= exit.take(14));
    assert(enter.take(14).push(enter.last()) =~= enter);
    assert(exit.take(14).push(exit.last()) =~= exit);
    assert(enter[12] != exit[12]);
    assert(Seq::<u8>::empty() + Seq::<u8>::empty() =~= Seq::<u8>::empty());
    assert(s.marker =~= Seq::<u8>::empty());
}

/// The beginning of a marker is held back.
proof fn lemma_marker_held(s: EchoState, entering: bool, n: int)
    requires
        s.marker.len() == 0,
        0 <= n < 15,
    ensures
        ({
            let marker = if entering {
                crate::local_echo::alt_enter()
            } else {
                crate::local_echo::alt_exit()
            };
            crate::local_echo::screened(s, marker.take(n)) == (
                EchoState { marker: marker.take(n), ..s },
                Seq::<u8>::empty(),
            )
        }),
    decreases n,
{
    let marker = if entering {
        crate::local_echo::alt_enter()
    } else {
        crate::local_echo::alt_exit()
    };
    if n == 0 {
        assert(marker.take(0) =~= Seq::<u8>::empty());
        assert(s.marker =~= Seq::<u8>::empty());
    } else {
        lemma_marker_held(s, entering, n - 1);
        let chunk = marker.take(n);
        assert(chunk.drop_last() =~= marker.take(n - 1));
        assert(chunk.last() == marker[n - 1]);
        let held = marker.take(n - 1).push(marker[n - 1]);
        assert(held =~= marker.take(n));
        assert(held.len() == n);
        assert(crate::bytes::begins_with(marker, held));
        assert(marker[0] == 0x1b);
        assert(Seq::<u8>::empty() + Seq::<u8>::empty() =~= Seq::<u8>::empty());
    }
}

/// Nothing but markers is taken out of the output: where no marker is complete,
/// what was held, followed by the output, is what is visible, followed by what
/// is held then.
pub proof fn law_no_output_is_lost(s: EchoState, chunk: Seq<u8>)
    requires
        forall|at: int|
            !(#[trigger] crate::bytes::occurs_at(
                s.marker + chunk,
                crate::local_echo::alt_enter(),
                at,
            )),
        forall|at: int|
            !(#[trigger] crate::bytes::occurs_at(
                s.marker + chunk,
                crate::local_echo::alt_exit(),
                at,
            )),
    ensures
        crate::local_echo::screened(s, chunk).1 + crate::local_echo::screened(s, chunk).0.marker
            == s.marker + chunk,
        crate::local_echo::screened(s, chunk).0.alt_screen == s.alt_screen,
        crate::local_echo::screened(s, chunk).0.line == s.line,
    decreases chunk.len(),
{
    let whole = s.marker + chunk;
    let enter = crate::local_echo::alt_enter();
    let exit = crate::local_echo::alt_exit();
    if chunk.len() == 0 {
        assert(Seq::<u8>::empty() + s.marker =~= s.marker + chunk);
    } else {
        let front = chunk.drop_last();
        let b = chunk.last();
        assert(s.marker + front =~= whole.drop_last());
        assert forall|at: int| !(#[trigger] crate::bytes::occurs_at(s.marker + front, enter, at)) by {
            if crate::bytes::occurs_at(s.marker + front, enter, at) {
                assert(whole.subrange(at, at + enter.len()) =~= (s.marker + front).subrange(
                    at,
                    at + enter.len(),
                ));
                assert(crate::bytes::occurs_at(whole, enter, at));
            }
        }
        assert forall|at: int| !(#[trigger] crate::bytes::occurs_at(s.marker + front, exit, at)) by {
            if crate::bytes::occurs_at(s.marker + front, exit, at) {
                assert(whole.subrange(at, at + exit.len()) =~= (s.marker + front).subrange(
                    at,
                    at + exit.len(),
                ));
                assert(crate::bytes::occurs_at(whole, exit, at));
            }
        }
        law_no_output_is_lost(s, front);
        let (mid, visible) = crate::local_echo::screened(s, front);
        let held = mid.marker.push(b);
        assert(visible + held =~= (visible + mid.marker).push(b));
        assert(visible + held =~= whole);
        let at = visible.len() as int;
        assert(whole.subrange(at, whole.len() as int) =~= held);
        if held == enter {
            assert(crate::bytes::occurs_at(whole, enter, at));
        }
        if held == exit {
            assert(crate::bytes::occurs_at(whole, exit, at));
        }
        let (end, v) = crate::local_echo::screen_byte(mid, b);
        if mid.marker.len() == 0 && b != 0x1b {
            assert(held =~= seq![b]);
            assert(visible + seq![b] + mid.marker =~= whole);
        } else if v.len() == 0 {
            assert(visible + v + held =~= whole);
        } else {
            assert(visible + held + Seq::<u8>::empty() =~= whole);
        }
    }
}

/// The bytes that are kept decide what the next read completes: a password hint
/// that spans reads is found exactly where it would be in all of the output.
pub proof fn law_hints_span_reads(history: Seq<u8>, shown: Seq<u8>)
    ensures
        crate::local_echo::hint_seen(crate::bytes::last_bytes(history, CARRY as nat), shown)
            == crate::local_echo::hint_seen(history, shown),
{
    let tail = crate::bytes::last_bytes(history, CARRY as nat);
    let cut = history.len() - tail.len();
    assert(tail =~= history.skip(cut));
    let short = tail + shown;
    let long = history + shown;
    assert(short =~= long.skip(cut));
    assert forall|i: int| 0 <= i < 4 implies crate::bytes::new_match(
        short,
        tail.len() as int,
        #[trigger] crate::local_echo::password_hint(i),
    ) == crate::bytes::new_match(
        long,
        history.len() as int,
        crate::local_echo::password_hint(i),
    ) by {
        let needle = crate::local_echo::password_hint(i);
        if crate::bytes::new_match(short, tail.len() as int, needle) {
            let at = choose|at: int| #[trigger]
                crate::bytes::occurs_at(short, needle, at) && at + needle.len() > tail.len();
            assert(long.subrange(at + cut, at + cut + needle.len()) =~= short.subrange(
                at,
                at + needle.len(),
            ));
            assert(crate::bytes::occurs_at(long, needle, at + cut));
        }
        if crate::bytes::new_match(long, history.len() as int, needle) {
            let at = choose|at: int| #[trigger]
                crate::bytes::occurs_at(long, needle, at) && at + needle.len() > history.len();
            assert(needle.len() <= 17);
            assert(at >= cut);
            assert(short.subrange(at - cut, at - cut + needle.len()) =~= long.subrange(
                at,
                at + needle.len(),
            ));
            assert(crate::bytes::occurs_at(short, needle, at - cut));
        }
    }
}

/// What is kept is always the end of all that was shown.
pub proof fn law_tail_of_history(history: Seq<u8>, shown: Seq<u8>)
    ensures
        crate::bytes::last_bytes(
            crate::bytes::last_bytes(history, CARRY as nat) + shown,
            CARRY as nat,
        ) == crate::bytes::last_bytes(history + shown, CARRY as nat),
{
    let tail = crate::bytes::last_bytes(history, CARRY as nat);
    assert(crate::bytes::last_bytes(tail + shown, CARRY as nat) =~= crate::bytes::last_bytes(
        history + shown,
        CARRY as nat,
    ));
}

/// Once a hint was shown, what was typed before it is forgotten and the next
/// line is a secret.
pub proof fn law_hint_disarms(s: EchoState, chunk: Seq<u8>)
    requires
        ({
            let (mid, visible) = crate::local_echo::screened(s, chunk);
            crate::local_echo::hint_seen(
                mid.tail,
                visible.skip(crate::bytes::common_prefix(visible, mid.pending) as int),
            )
        }),
    ensures
        crate::local_echo::received(s, chunk).0.disarmed,
        crate::local_echo::received(s, chunk).0.line == Seq::<u8>::empty(),
        !crate::local_echo::received(s, chunk).0.line_mode(),
{
}

/// What of a chunk of output is neither part of a marker nor of the expected echo.
pub open spec fn shown_of(s: EchoState, chunk: Seq<u8>) -> Seq<u8> {
    let (mid, visible) = crate::local_echo::screened(s, chunk);
    visible.skip(crate::bytes::common_prefix(visible, mid.pending) as int)
}

/// Whether the row is cleared at the same place for two reads as for one. It is
/// cleared where the output asks for a secret while a line is typed, in front of all
/// that the read shows: this differs where that line is forgotten by a full-screen
/// program between the two, or where the first read shows something before the second
/// asks.
pub open spec fn row_cleared_alike(s: EchoState, a: Seq<u8>, b: Seq<u8>) -> bool {
    let typing = crate::local_echo::screened(s, a).0.line.len() > 0;
    let still_typing = crate::local_echo::screened(s, a + b).0.line.len() > 0;
    if crate::local_echo::hint_seen(s.tail, shown_of(s, a)) {
        typing == still_typing
    } else {
        ||| !crate::local_echo::hint_seen(s.tail, shown_of(s, a + b))
        ||| !still_typing
        ||| shown_of(s, a).len() == 0
    }
}

/// How the output is split into reads makes no difference to the editor, nor to the
/// terminal while no line is typed; while one is, what the terminal gets differs at
/// most in where the row is cleared.
pub proof fn law_output_in_pieces(s: EchoState, a: Seq<u8>, b: Seq<u8>)
    ensures
        ({
            let (mid, first) = crate::local_echo::received(s, a);
            let (end, second) = crate::local_echo::received(mid, b);
            let (whole, all) = crate::local_echo::received(s, a + b);
            &&& whole == end
            &&& row_cleared_alike(s, a, b) ==> all == first + second
            &&& s.line.len() == 0 ==> row_cleared_alike(s, a, b)
        }),
{
    let (ma, va) = crate::local_echo::screened(s, a);
    let (mid, first) = crate::local_echo::received(s, a);
    let (mb, vb) = crate::local_echo::screened(mid, b);
    let (end, second) = crate::local_echo::received(mid, b);
    let (mab, vab) = crate::local_echo::screened(s, a + b);
    let (whole, all) = crate::local_echo::received(s, a + b);
    let (mc, vc) = crate::local_echo::screened(ma, b);
    law_markers_in_pieces(s, a, b);
    lemma_screened_keeps_pending(s, a);
    lemma_screened_keeps_pending(s, a + b);
    lemma_screened_keeps_pending(mid, b);
    lemma_screened_keeps_line(s, a);
    lemma_screened_keeps_line(ma, b);
    lemma_screened_keeps_line(mid, b);
    lemma_screened_apart(ma, mid, b);
    let sa = shown_of(s, a);
    let sb = shown_of(mid, b);
    let sab = shown_of(s, a + b);
    lemma_shown_in_pieces(va, vb, s.pending);
    assert(sab == sa + sb);
    lemma_hints_in_pieces(s.tail, sa, sb);
    law_tail_of_history(s.tail + sa, sb);
    assert((s.tail + sa) + sb =~= s.tail + sab);
    if sa.len() > 0 {
        assert(mid.pending.skip(0) =~= Seq::<u8>::empty());
    }
    assert(whole =~= end);
    if row_cleared_alike(s, a, b) {
        assert(all =~= first + second);
    }
}

/// Looking for markers does not depend on what is expected or was shown, nor on
/// whether the next line is a secret; and it forgets a line whatever the line is.
proof fn lemma_screened_apart(s: EchoState, t: EchoState, chunk: Seq<u8>)
    requires
        t == (EchoState {
            line: t.line,
            pending: t.pending,
            tail: t.tail,
            disarmed: t.disarmed,
            ..s
        }),
        t.line == s.line || t.line.len() == 0,
    ensures
        ({
            let (m, v) = crate::local_echo::screened(s, chunk);
            let (n, w) = crate::local_echo::screened(t, chunk);
            &&& v == w
            &&& n == (EchoState {
                line: n.line,
                pending: t.pending,
                tail: t.tail,
                disarmed: t.disarmed,
                ..m
            })
            &&& n.line == m.line || (t.line.len() == 0 && n.line.len() == 0)
        }),
    decreases chunk.len(),
{
    if chunk.len() > 0 {
        lemma_screened_apart(s, t, chunk.drop_last());
    }
}

/// What is hidden of output in two pieces is what is hidden of it at once.
proof fn lemma_shown_in_pieces(a: Seq<u8>, b: Seq<u8>, pending: Seq<u8>)
    ensures
        ({
            let m = crate::bytes::common_prefix(a, pending) as int;
            let left = if m < a.len() {
                Seq::empty()
            } else {
                pending.skip(m)
            };
            let n = crate::bytes::common_prefix(b, left) as int;
            let k = crate::bytes::common_prefix(a + b, pending) as int;
            &&& 0 <= m <= a.len()
            &&& m <= pending.len()
            &&& 0 <= n <= b.len()
            &&& n <= left.len()
            &&& (a + b).skip(k) == a.skip(m) + b.skip(n)
            &&& m == a.len() ==> pending.skip(k) == left.skip(n)
            &&& k == m + n
        }),
    decreases a.len(),
{
    let m = crate::bytes::common_prefix(a, pending) as int;
    lemma_common_prefix_bound(a, pending);
    let left = if m < a.len() {
        Seq::empty()
    } else {
        pending.skip(m)
    };
    let n = crate::bytes::common_prefix(b, left) as int;
    lemma_common_prefix_bound(b, left);
    let k = crate::bytes::common_prefix(a + b, pending) as int;
    if a.len() == 0 {
        assert(a + b =~= b);
        assert(pending.skip(0) =~= pending);
    } else if pending.len() > 0 && a[0] == pending[0] {
        assert((a + b).skip(1) =~= a.skip(1) + b);
        lemma_shown_in_pieces(a.skip(1), b, pending.skip(1));
        assert(pending.skip(1).skip(m - 1) =~= pending.skip(m));
    }
    assert((a + b).skip(k) =~= a.skip(m) + b.skip(n));
    if m == a.len() {
        assert(pending.skip(k) =~= left.skip(n));
    }
}

/// A hint is seen in two pieces of output exactly where it is seen in one of them,
/// the second read behind what is kept of the first.
proof fn lemma_hints_in_pieces(tail: Seq<u8>, a: Seq<u8>, b: Seq<u8>)
    ensures
        crate::local_echo::hint_seen(tail, a + b) == (crate::local_echo::hint_seen(tail, a)
            || crate::local_echo::hint_seen(
            crate::bytes::last_bytes(tail + a, CARRY as nat),
            b,
        )),
{
    law_hints_span_reads(tail + a, b);
    let long = tail + (a + b);
    let short = tail + a;
    assert(short + b =~= long);
    assert forall|i: int| 0 <= i < 4 implies crate::bytes::new_match(
        long,
        tail.len() as int,
        #[trigger] crate::local_echo::password_hint(i),
    ) == (crate::bytes::new_match(short, tail.len() as int, crate::local_echo::password_hint(i))
        || crate::bytes::new_match(long, short.len() as int, crate::local_echo::password_hint(i))) by {
        let needle = crate::local_echo::password_hint(i);
        if crate::bytes::new_match(long, tail.len() as int, needle) {
            let at = choose|at: int| #[trigger]
                crate::bytes::occurs_at(long, needle, at) && at + needle.len() > tail.len();
            if at + needle.len() <= short.len() {
                assert(short.subrange(at, at + needle.len()) =~= long.subrange(
                    at,
                    at + needle.len(),
                ));
                assert(crate::bytes::occurs_at(short, needle, at));
            }
        }
        if crate::bytes::new_match(short, tail.len() as int, needle) {
            let at = choose|at: int| #[trigger]
                crate::bytes::occurs_at(short, needle, at) && at + needle.len() > tail.len();
            assert(short.subrange(at, at + needle.len()) =~= long.subrange(at, at + needle.len()));
            assert(crate::bytes::occurs_at(long, needle, at));
        }
        if crate::bytes::new_match(long, short.len() as int, needle) {
            let at = choose|at: int| #[trigger]
                crate::bytes::occurs_at(long, needle, at) && at + needle.len() > short.len();
            assert(crate::bytes::occurs_at(long, needle, at) && at + needle.len() > tail.len());
        }
    }
}

} // verus!
