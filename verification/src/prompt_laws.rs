//! When the line editor hands the next line over as a secret, and which bytes it
//! draws and reads, by their texts.

use vstd::prelude::*;

use crate::local_echo::EchoState;

verus! {

/// Whether a text announces a secret.
pub open spec fn asks_for_secret(hint: Seq<char>) -> bool {
    hint == "assword"@ || hint == "assphrase"@ || hint == "PIN"@ || hint == "Verification code"@
}

/// Whether some output holds no escape byte.
pub open spec fn is_unescaped(out: Seq<u8>) -> bool {
    forall|i: int| 0 <= i < out.len() ==> #[trigger] out[i] != 0x1b
}

proof fn lemma_first_hint()
    ensures
        vstd::utf8::encode_utf8("assword"@) == crate::local_echo::password_hint(0),
{
    reveal_strlit("assword");
    assert(vstd::utf8::is_ascii_chars("assword"@));
    vstd::utf8::is_ascii_chars_encode_utf8("assword"@);
    assert(vstd::utf8::encode_utf8("assword"@) =~= crate::local_echo::password_hint(0));
}

proof fn lemma_second_hint()
    ensures
        vstd::utf8::encode_utf8("assphrase"@) == crate::local_echo::password_hint(1),
{
    reveal_strlit("assphrase");
    assert(vstd::utf8::is_ascii_chars("assphrase"@));
    vstd::utf8::is_ascii_chars_encode_utf8("assphrase"@);
    assert(vstd::utf8::encode_utf8("assphrase"@) =~= crate::local_echo::password_hint(1));
}

proof fn lemma_third_hint()
    ensures
        vstd::utf8::encode_utf8("PIN"@) == crate::local_echo::password_hint(2),
{
    reveal_strlit("PIN");
    assert(vstd::utf8::is_ascii_chars("PIN"@));
    vstd::utf8::is_ascii_chars_encode_utf8("PIN"@);
    assert(vstd::utf8::encode_utf8("PIN"@) =~= crate::local_echo::password_hint(2));
}

proof fn lemma_fourth_hint()
    ensures
        vstd::utf8::encode_utf8("Verification code"@) == crate::local_echo::password_hint(3),
{
    reveal_strlit("Verification code");
    assert(vstd::utf8::is_ascii_chars("Verification code"@));
    vstd::utf8::is_ascii_chars_encode_utf8("Verification code"@);
    assert(vstd::utf8::encode_utf8("Verification code"@) =~= crate::local_echo::password_hint(3));
}

/// Each of the texts is one that the editor looks for, and it looks for no other.
proof fn lemma_hints()
    ensures
        forall|hint: Seq<char>|
            asks_for_secret(hint) ==> exists|i: int|
                0 <= i < 4 && #[trigger] crate::local_echo::password_hint(i)
                    == #[trigger] vstd::utf8::encode_utf8(hint),
        forall|i: int|
            0 <= i < 4 ==> exists|hint: Seq<char>|
                asks_for_secret(hint) && #[trigger] vstd::utf8::encode_utf8(hint)
                    == #[trigger] crate::local_echo::password_hint(i),
{
    lemma_first_hint();
    lemma_second_hint();
    lemma_third_hint();
    lemma_fourth_hint();
    assert forall|i: int| 0 <= i < 4 implies exists|hint: Seq<char>|
        asks_for_secret(hint) && #[trigger] vstd::utf8::encode_utf8(hint)
            == #[trigger] crate::local_echo::password_hint(i) by {
        let hint = if i == 0 {
            "assword"@
        } else if i == 1 {
            "assphrase"@
        } else if i == 2 {
            "PIN"@
        } else {
            "Verification code"@
        };
        assert(asks_for_secret(hint));
        assert(vstd::utf8::encode_utf8(hint) == crate::local_echo::password_hint(i));
    }
}

/// Where what is shown completes one of the texts that announce a secret, whatever
/// stands before it, what was typed is forgotten and the next line is not edited here.
pub proof fn law_completed_hint_disarms(s: EchoState, chunk: Seq<u8>, hint: Seq<char>, at: int)
    requires
        hint == "assword"@ || hint == "assphrase"@ || hint == "PIN"@ || hint
            == "Verification code"@,
        ({
            let text = vstd::utf8::encode_utf8(hint);
            let all = s.tail + crate::local_echo_laws::shown_of(s, chunk);
            &&& 0 <= at && at + text.len() <= all.len()
            &&& all.subrange(at, at + text.len()) == text
            &&& at + text.len() > s.tail.len()
        }),
    ensures
        crate::local_echo::received(s, chunk).0.disarmed,
        crate::local_echo::received(s, chunk).0.line == Seq::<u8>::empty(),
        !crate::local_echo::received(s, chunk).0.line_mode(),
{
    lemma_hints();
    assert(asks_for_secret(hint));
    let text = vstd::utf8::encode_utf8(hint);
    let i = choose|i: int| 0 <= i < 4 && #[trigger] crate::local_echo::password_hint(i) == text;
    let shown = crate::local_echo_laws::shown_of(s, chunk);
    crate::local_echo_laws::lemma_screened_keeps_pending(s, chunk);
    assert(crate::bytes::occurs_at(s.tail + shown, text, at));
    assert(crate::bytes::new_match(
        s.tail + shown,
        s.tail.len() as int,
        crate::local_echo::password_hint(i),
    ));
    assert(crate::local_echo::hint_seen(s.tail, shown));
}

/// Output that asks for a secret disarms the editor, whatever stands around the
/// question: no byte that is typed after it, up to Enter, is drawn or kept.
pub proof fn law_prompt_disarms(
    s: EchoState,
    before: Seq<u8>,
    hint: Seq<char>,
    after: Seq<u8>,
    secret: Seq<u8>,
)
    requires
        hint == "assword"@ || hint == "assphrase"@ || hint == "PIN"@ || hint
            == "Verification code"@,
        s.marker.len() == 0,
        s.pending.len() == 0,
        is_unescaped(before),
        is_unescaped(after),
        forall|i: int|
            0 <= i < secret.len() ==> #[trigger] secret[i] != 0x1d && secret[i] != 0x0d && secret[i]
                != 0x0a,
    ensures
        ({
            let asked = crate::local_echo::received(
                s,
                before + vstd::utf8::encode_utf8(hint) + after,
            ).0;
            &&& asked.disarmed
            &&& asked.line == Seq::<u8>::empty()
            &&& crate::local_echo::typed(asked, secret) == (asked, secret, Seq::<u8>::empty())
        }),
{
    let text = vstd::utf8::encode_utf8(hint);
    let chunk = before + text + after;
    lemma_hints();
    assert(asks_for_secret(hint));
    let i = choose|i: int| 0 <= i < 4 && #[trigger] crate::local_echo::password_hint(i) == text;
    assert(text.len() > 0);
    assert forall|k: int| 0 <= k < chunk.len() implies #[trigger] chunk[k] != 0x1b by {
        if k < before.len() {
            assert(before[k] != 0x1b);
        } else if k < before.len() + text.len() {
            assert(chunk[k] == text[k - before.len()]);
        } else {
            assert(after[k - before.len() - text.len()] != 0x1b);
        }
    }
    crate::local_echo_laws::law_plain_output_is_visible(s, chunk);
    assert(crate::bytes::common_prefix(chunk, s.pending) == 0);
    let shown = crate::local_echo_laws::shown_of(s, chunk);
    assert(shown =~= chunk);
    let at: int = (s.tail.len() + before.len()) as int;
    assert((s.tail + shown).subrange(at, at + text.len()) =~= text);
    law_completed_hint_disarms(s, chunk, hint, at);
    let asked = crate::local_echo::received(s, chunk).0;
    crate::local_echo_laws::law_passthrough(asked, secret);
}

/// The same where the question arrives in two reads, wherever it is cut.
pub proof fn law_prompt_in_pieces_disarms(
    s: EchoState,
    before: Seq<u8>,
    hint: Seq<char>,
    after: Seq<u8>,
    cut: int,
)
    requires
        hint == "assword"@ || hint == "assphrase"@ || hint == "PIN"@ || hint
            == "Verification code"@,
        s.marker.len() == 0,
        s.pending.len() == 0,
        is_unescaped(before),
        is_unescaped(after),
        0 <= cut <= (before + vstd::utf8::encode_utf8(hint) + after).len(),
    ensures
        ({
            let all = before + vstd::utf8::encode_utf8(hint) + after;
            let mid = crate::local_echo::received(s, all.take(cut)).0;
            crate::local_echo::received(mid, all.skip(cut)).0.disarmed
        }),
{
    let all = before + vstd::utf8::encode_utf8(hint) + after;
    law_prompt_disarms(s, before, hint, after, Seq::empty());
    crate::local_echo_laws::law_output_in_pieces(s, all.take(cut), all.skip(cut));
    assert(all.take(cut) + all.skip(cut) =~= all);
}

/// Other output disarms nothing: where none of the texts is completed, whether the
/// next line is edited here does not change, and what is shown is not touched.
pub proof fn law_only_hints_disarm(s: EchoState, chunk: Seq<u8>)
    requires
        forall|hint: Seq<char>, at: int|
            (hint == "assword"@ || hint == "assphrase"@ || hint == "PIN"@ || hint
                == "Verification code"@) && 0 <= at && at + vstd::utf8::encode_utf8(hint).len() <= (
            s.tail + crate::local_echo_laws::shown_of(s, chunk)).len() ==> #[trigger] (s.tail
                + crate::local_echo_laws::shown_of(s, chunk)).subrange(
                at,
                at + vstd::utf8::encode_utf8(hint).len(),
            ) != vstd::utf8::encode_utf8(hint),
    ensures
        crate::local_echo::received(s, chunk).0.disarmed == s.disarmed,
        crate::local_echo::received(s, chunk).1 == crate::local_echo_laws::shown_of(s, chunk),
{
    lemma_hints();
    crate::local_echo_laws::lemma_screened_keeps_pending(s, chunk);
    let all = s.tail + crate::local_echo_laws::shown_of(s, chunk);
    if crate::local_echo::hint_seen(s.tail, crate::local_echo_laws::shown_of(s, chunk)) {
        let i = choose|i: int|
            0 <= i < 4 && crate::bytes::new_match(
                all,
                s.tail.len() as int,
                #[trigger] crate::local_echo::password_hint(i),
            );
        let hint = choose|hint: Seq<char>|
            asks_for_secret(hint) && #[trigger] vstd::utf8::encode_utf8(hint)
                == crate::local_echo::password_hint(i);
        let text = vstd::utf8::encode_utf8(hint);
        let at = choose|at: int| #[trigger]
            crate::bytes::occurs_at(all, text, at) && at + text.len() > s.tail.len();
        assert(all.subrange(at, at + vstd::utf8::encode_utf8(hint).len()) == text);
    }
}

/// A line that is being typed when a secret is asked for is wiped off its row before
/// the question is shown; else the terminal gets the question as it is.
pub proof fn law_typed_line_is_wiped(
    s: EchoState,
    before: Seq<u8>,
    hint: Seq<char>,
    after: Seq<u8>,
)
    requires
        hint == "assword"@ || hint == "assphrase"@ || hint == "PIN"@ || hint
            == "Verification code"@,
        s.marker.len() == 0,
        s.pending.len() == 0,
        is_unescaped(before),
        is_unescaped(after),
    ensures
        ({
            let chunk = before + vstd::utf8::encode_utf8(hint) + after;
            crate::local_echo::received(s, chunk).1 == if s.line.len() > 0 {
                vstd::utf8::encode_utf8("\r\x1b[2K"@) + chunk
            } else {
                chunk
            }
        }),
{
    let text = vstd::utf8::encode_utf8(hint);
    let chunk = before + text + after;
    lemma_hints();
    assert(asks_for_secret(hint));
    let i = choose|i: int| 0 <= i < 4 && #[trigger] crate::local_echo::password_hint(i) == text;
    assert forall|k: int| 0 <= k < chunk.len() implies #[trigger] chunk[k] != 0x1b by {
        if k < before.len() {
            assert(before[k] != 0x1b);
        } else if k < before.len() + text.len() {
            assert(chunk[k] == text[k - before.len()]);
        } else {
            assert(after[k - before.len() - text.len()] != 0x1b);
        }
    }
    crate::local_echo_laws::law_plain_output_is_visible(s, chunk);
    assert(crate::bytes::common_prefix(chunk, s.pending) == 0);
    let shown = crate::local_echo_laws::shown_of(s, chunk);
    assert(shown =~= chunk);
    let at: int = (s.tail.len() + before.len()) as int;
    assert((s.tail + shown).subrange(at, at + text.len()) =~= text);
    assert(crate::bytes::occurs_at(s.tail + shown, text, at));
    assert(crate::bytes::new_match(
        s.tail + shown,
        s.tail.len() as int,
        crate::local_echo::password_hint(i),
    ));
    assert(crate::local_echo::hint_seen(s.tail, shown));
    lemma_drawn_bytes();
}

proof fn lemma_drawn_bytes()
    ensures
        vstd::utf8::encode_utf8("\r\x1b[2K"@) == crate::local_echo::clear_row(),
        vstd::utf8::encode_utf8("\x08 \x08"@) == crate::local_echo::rubout(),
{
    reveal_strlit("\r\x1b[2K");
    assert(vstd::utf8::is_ascii_chars("\r\x1b[2K"@));
    vstd::utf8::is_ascii_chars_encode_utf8("\r\x1b[2K"@);
    assert(vstd::utf8::encode_utf8("\r\x1b[2K"@) =~= crate::local_echo::clear_row());
    reveal_strlit("\x08 \x08");
    assert(vstd::utf8::is_ascii_chars("\x08 \x08"@));
    vstd::utf8::is_ascii_chars_encode_utf8("\x08 \x08"@);
    assert(vstd::utf8::encode_utf8("\x08 \x08"@) =~= crate::local_echo::rubout());
}

/// The markers of a full-screen program, by their texts: what the watcher prints is
/// what the editor looks for.
pub proof fn law_marker_texts()
    ensures
        crate::local_echo::alt_enter() == vstd::utf8::encode_utf8("\x1bP+ssht;alt=1\x1b\\"@),
        crate::local_echo::alt_exit() == vstd::utf8::encode_utf8("\x1bP+ssht;alt=0\x1b\\"@),
{
    reveal_strlit("\x1bP+ssht;alt=1\x1b\\");
    assert(vstd::utf8::is_ascii_chars("\x1bP+ssht;alt=1\x1b\\"@));
    vstd::utf8::is_ascii_chars_encode_utf8("\x1bP+ssht;alt=1\x1b\\"@);
    assert(vstd::utf8::encode_utf8("\x1bP+ssht;alt=1\x1b\\"@) =~= crate::local_echo::alt_enter());
    reveal_strlit("\x1bP+ssht;alt=0\x1b\\");
    assert(vstd::utf8::is_ascii_chars("\x1bP+ssht;alt=0\x1b\\"@));
    vstd::utf8::is_ascii_chars_encode_utf8("\x1bP+ssht;alt=0\x1b\\"@);
    assert(vstd::utf8::encode_utf8("\x1bP+ssht;alt=0\x1b\\"@) =~= crate::local_echo::alt_exit());
}

/// While a full-screen program runs, after a key for the remote, while a secret is
/// asked for, and while editing is off, what is typed is not edited here; else it is.
pub proof fn law_when_lines_are_edited(s: EchoState, b: u8)
    ensures
        s.line_mode() <==> s.enabled && !s.alt_screen && !s.suspended && !s.disarmed,
        (s.alt_screen || s.suspended || s.disarmed || !s.enabled) && b != 0x1d
            ==> crate::local_echo::key(s, b).1 == seq![b] && crate::local_echo::key(s, b).2
            == Seq::<u8>::empty() && crate::local_echo::key(s, b).0.line == s.line,
{
}

/// Enter ends a suspended or secret line, and only Enter does.
pub proof fn law_enter_rearms(s: EchoState, b: u8)
    requires
        s.suspended || s.disarmed,
        b != 0x1d,
    ensures
        b == 0x0d || b == 0x0a ==> !crate::local_echo::key(s, b).0.suspended
            && !crate::local_echo::key(s, b).0.disarmed,
        b != 0x0d && b != 0x0a ==> crate::local_echo::key(s, b).0 == s,
{
}

/// The toggle sends what was typed so far, so that nothing is lost, and says on the
/// terminal whether lines are edited from then on.
pub proof fn law_toggle(s: EchoState)
    ensures
        ({
            let (end, remote, terminal) = crate::local_echo::key(s, 0x1d);
            &&& end == (EchoState {
                enabled: !s.enabled,
                line: Seq::empty(),
                pending: s.pending + s.line,
                ..s
            })
            &&& remote == s.line
            &&& s.enabled ==> terminal == vstd::utf8::encode_utf8(
                "\r\n\x1b[7m local line editing OFF (raw passthrough) \x1b[0m\r\n"@,
            )
            &&& !s.enabled ==> terminal == vstd::utf8::encode_utf8(
                "\r\n\x1b[7m local line editing ON \x1b[0m\r\n"@,
            )
        }),
{
}

/// Ctrl-C goes to the remote alone: the line that was typed is dropped, and no echo of
/// it is expected.
pub proof fn law_interrupt_drops_the_line(s: EchoState)
    requires
        s.enabled,
        !s.alt_screen,
        !s.suspended,
        !s.disarmed,
    ensures
        crate::local_echo::key(s, 0x03) == (
            EchoState { line: Seq::empty(), ..s },
            seq![0x03u8],
            Seq::<u8>::empty(),
        ),
{
}

/// Erasing draws a step back, a space and a step back, once for each character.
pub proof fn law_erasing_is_drawn(text: Seq<char>, s: EchoState)
    requires
        s.enabled,
        !s.alt_screen,
        !s.suspended,
        !s.disarmed,
        s.line == vstd::utf8::encode_utf8(text),
    ensures
        text.len() > 0 ==> crate::local_echo::key(s, 0x7f).2 == vstd::utf8::encode_utf8(
            "\x08 \x08"@,
        ),
        text.len() == 0 ==> crate::local_echo::key(s, 0x7f) == (
            s,
            Seq::<u8>::empty(),
            Seq::<u8>::empty(),
        ),
        crate::local_echo::key(s, 0x15).2.len() == 3 * text.len(),
        forall|i: int|
            0 <= i < text.len() ==> #[trigger] crate::local_echo::key(s, 0x15).2.subrange(
                3 * i,
                3 * i + 3,
            ) == vstd::utf8::encode_utf8("\x08 \x08"@),
{
    lemma_drawn_bytes();
    if text.len() > 0 {
        crate::local_echo_laws::law_backspace_takes_one_char(s, text);
    } else {
        crate::bytes::lemma_utf8_chars(text);
        assert(text =~= Seq::<char>::empty());
        assert(s.line.len() == 0);
    }
    crate::local_echo_laws::law_kill_line_erases_every_char(s, text);
    lemma_rubouts(text.len());
}

proof fn lemma_rubouts(n: nat)
    ensures
        ({
            let all = crate::bytes::repeated(crate::local_echo::rubout(), n);
            &&& all.len() == 3 * n
            &&& forall|i: int|
                0 <= i < n ==> #[trigger] all.subrange(3 * i, 3 * i + 3)
                    == crate::local_echo::rubout()
        }),
    decreases n,
{
    let all = crate::bytes::repeated(crate::local_echo::rubout(), n);
    if n > 0 {
        lemma_rubouts((n - 1) as nat);
        let fewer = crate::bytes::repeated(crate::local_echo::rubout(), (n - 1) as nat);
        assert forall|i: int| 0 <= i < n implies #[trigger] all.subrange(3 * i, 3 * i + 3)
            == crate::local_echo::rubout() by {
            if i < n - 1 {
                assert(all.subrange(3 * i, 3 * i + 3) =~= fewer.subrange(3 * i, 3 * i + 3));
            } else {
                assert(all.subrange(3 * i, 3 * i + 3) =~= crate::local_echo::rubout());
            }
        }
    }
}

} // verus!
