//! Client-side line editing for connections with a long round trip.
//!
//! [`LocalEcho`] sits between the terminal and the remote shell. While a shell
//! prompt is being edited it draws what is typed at once, keeps it until Enter,
//! and then hides the echo that the remote sends back for it. It steps aside for
//! full-screen programs, password prompts and keys that only the remote can
//! answer.

use vstd::prelude::*;

use crate::bytes::append_bytes;
use crate::bytes::bytes_from;
use crate::bytes::common_prefix_len;
use crate::bytes::has_new_match;
use crate::bytes::pop_utf8_char;
use crate::bytes::starts_with;
use crate::bytes::utf8_char_count;

verus! {

/// Ctrl-], which switches line editing on and off.
pub const TOGGLE_KEY: u8 = 0x1d;

/// How much of the shown output is kept to find a password hint that the next
/// read completes: one byte less than the longest hint.
pub const CARRY: usize = 16;

/// What is to be written after some bytes came in.
#[derive(Debug, Default, PartialEq, Eq)]
pub struct RelayAction {
    pub to_remote: Vec<u8>,
    pub to_terminal: Vec<u8>,
}

/// The line editor.
#[derive(Debug)]
pub struct LocalEcho {
    enabled: bool,
    alt_screen: bool,
    suspended: bool,
    disarm_next_line: bool,
    line: Vec<u8>,
    pending_echo: Vec<u8>,
    scan_tail: Vec<u8>,
    marker_buf: Vec<u8>,
}

/// The state of a line editor.
#[verifier::ext_equal]
pub struct EchoState {
    /// Whether the user wants line editing.
    pub enabled: bool,
    /// Whether a full-screen program is running.
    pub alt_screen: bool,
    /// Whether the remote edits the rest of this line.
    pub suspended: bool,
    /// Whether the next line is a secret, and goes straight to the remote.
    pub disarmed: bool,
    /// What was typed and drawn, and not yet sent.
    pub line: Seq<u8>,
    /// What was sent after being drawn, and is expected back as an echo.
    pub pending: Seq<u8>,
    /// The end of what was shown.
    pub tail: Seq<u8>,
    /// The beginning of a screen marker, held back until it is complete.
    pub marker: Seq<u8>,
}

impl View for RelayAction {
    type V = (Seq<u8>, Seq<u8>);

    open spec fn view(&self) -> (Seq<u8>, Seq<u8>) {
        (self.to_remote@, self.to_terminal@)
    }
}

impl View for LocalEcho {
    type V = EchoState;

    closed spec fn view(&self) -> EchoState {
        EchoState {
            enabled: self.enabled,
            alt_screen: self.alt_screen,
            suspended: self.suspended,
            disarmed: self.disarm_next_line,
            line: self.line@,
            pending: self.pending_echo@,
            tail: self.scan_tail@,
            marker: self.marker_buf@,
        }
    }
}

/// The marker that a full-screen program has started: `ESC P+ssht;alt=1 ESC \`.
pub open spec fn alt_enter() -> Seq<u8> {
    seq![
        0x1bu8, 0x50, 0x2b, 0x73, 0x73, 0x68, 0x74, 0x3b, 0x61, 0x6c, 0x74, 0x3d, 0x31, 0x1b, 0x5c,
    ]
}

/// The marker that a full-screen program has ended: `ESC P+ssht;alt=0 ESC \`.
pub open spec fn alt_exit() -> Seq<u8> {
    seq![
        0x1bu8, 0x50, 0x2b, 0x73, 0x73, 0x68, 0x74, 0x3b, 0x61, 0x6c, 0x74, 0x3d, 0x30, 0x1b, 0x5c,
    ]
}

/// The texts that announce a secret: `assword`, `assphrase`, `PIN` and
/// `Verification code`.
pub open spec fn password_hint(i: int) -> Seq<u8> {
    if i == 0 {
        seq![0x61u8, 0x73, 0x73, 0x77, 0x6f, 0x72, 0x64]
    } else if i == 1 {
        seq![0x61u8, 0x73, 0x73, 0x70, 0x68, 0x72, 0x61, 0x73, 0x65]
    } else if i == 2 {
        seq![0x50u8, 0x49, 0x4e]
    } else {
        seq![
            0x56u8, 0x65, 0x72, 0x69, 0x66, 0x69, 0x63, 0x61, 0x74, 0x69, 0x6f, 0x6e, 0x20, 0x63, 0x6f,
            0x64, 0x65,
        ]
    }
}

/// Erases one cell: back, space, back.
pub open spec fn rubout() -> Seq<u8> {
    seq![0x08u8, 0x20, 0x08]
}

/// Returns to the first column and clears the row: `CR ESC [2K`.
pub open spec fn clear_row() -> Seq<u8> {
    seq![0x0du8, 0x1b, 0x5b, 0x32, 0x4b]
}

/// What the terminal shows when line editing was switched on or off.
pub open spec fn notice(on: bool) -> Seq<u8> {
    if on {
        vstd::utf8::encode_utf8("\r\n\x1b[7m local line editing ON \x1b[0m\r\n"@)
    } else {
        vstd::utf8::encode_utf8("\r\n\x1b[7m local line editing OFF (raw passthrough) \x1b[0m\r\n"@)
    }
}

/// Whether a byte ends a line.
pub open spec fn is_enter(b: u8) -> bool {
    b == 0x0d || b == 0x0a
}

impl EchoState {
    /// Whether typed bytes are edited here.
    pub open spec fn line_mode(self) -> bool {
        self.enabled && !self.alt_screen && !self.suspended && !self.disarmed
    }

    /// The state after the line was sent: its echo is now expected.
    pub open spec fn flushed(self) -> EchoState {
        EchoState { line: Seq::empty(), pending: self.pending + self.line, ..self }
    }
}

/// An editor with nothing typed and nothing expected.
pub open spec fn fresh_editor(enabled: bool) -> EchoState {
    EchoState {
        enabled,
        alt_screen: false,
        suspended: false,
        disarmed: false,
        line: Seq::empty(),
        pending: Seq::empty(),
        tail: Seq::empty(),
        marker: Seq::empty(),
    }
}

/// A line without its trailing spaces.
pub open spec fn without_spaces(line: Seq<u8>) -> Seq<u8>
    decreases line.len(),
{
    if line.len() > 0 && line.last() == 0x20 {
        without_spaces(line.drop_last())
    } else {
        line
    }
}

/// A line up to its last space, and how many characters stood behind that.
pub open spec fn without_word(line: Seq<u8>) -> (Seq<u8>, nat)
    decreases line.len(),
{
    if line.len() == 0 || line.last() == 0x20 {
        (line, 0)
    } else {
        proof {
            crate::bytes::lemma_last_char_start(line);
        }
        let (rest, n) = without_word(crate::bytes::without_last_char(line));
        (rest, n + 1)
    }
}

/// What one typed byte does: the new state, what goes to the remote, and what
/// goes to the terminal.
pub open spec fn key(s: EchoState, b: u8) -> (EchoState, Seq<u8>, Seq<u8>) {
    if b == TOGGLE_KEY {
        (EchoState { enabled: !s.enabled, ..s.flushed() }, s.line, notice(!s.enabled))
    } else if !s.line_mode() {
        if is_enter(b) {
            (EchoState { suspended: false, disarmed: false, ..s }, seq![b], Seq::empty())
        } else {
            (s, seq![b], Seq::empty())
        }
    } else if is_enter(b) {
        (s.flushed(), s.line.push(0x0d), Seq::empty())
    } else if b == 0x7f || b == 0x08 {
        if s.line.len() == 0 {
            (s, Seq::empty(), Seq::empty())
        } else {
            (
                EchoState { line: crate::bytes::without_last_char(s.line), ..s },
                Seq::empty(),
                rubout(),
            )
        }
    } else if b == 0x15 {
        (
            EchoState { line: Seq::empty(), ..s },
            Seq::empty(),
            crate::bytes::repeated(rubout(), crate::bytes::char_count(s.line)),
        )
    } else if b == 0x17 {
        let bare = without_spaces(s.line);
        let (rest, n) = without_word(bare);
        (
            EchoState { line: rest, ..s },
            Seq::empty(),
            crate::bytes::repeated(rubout(), (s.line.len() - bare.len()) as nat + n),
        )
    } else if b == 0x03 {
        (EchoState { line: Seq::empty(), ..s }, seq![b], Seq::empty())
    } else if b < 0x20 {
        (EchoState { suspended: true, ..s.flushed() }, s.line.push(b), Seq::empty())
    } else {
        (EchoState { line: s.line.push(b), ..s }, Seq::empty(), seq![b])
    }
}

/// What typing `data` does, byte after byte.
pub open spec fn typed(s: EchoState, data: Seq<u8>) -> (EchoState, Seq<u8>, Seq<u8>)
    decreases data.len(),
{
    if data.len() == 0 {
        (s, Seq::empty(), Seq::empty())
    } else {
        let (mid, remote, terminal) = typed(s, data.drop_last());
        let (end, r, t) = key(mid, data.last());
        (end, remote + r, terminal + t)
    }
}

/// What one byte of output does to the screen markers: the new state, and what
/// of the output is not part of a marker.
pub open spec fn screen_byte(s: EchoState, b: u8) -> (EchoState, Seq<u8>) {
    let held = s.marker.push(b);
    if s.marker.len() == 0 && b != 0x1b {
        (s, seq![b])
    } else if held == alt_enter() {
        (
            EchoState {
                alt_screen: true,
                line: if s.alt_screen {
                    s.line
                } else {
                    Seq::empty()
                },
                marker: Seq::empty(),
                ..s
            },
            Seq::empty(),
        )
    } else if held == alt_exit() {
        (EchoState { alt_screen: false, marker: Seq::empty(), ..s }, Seq::empty())
    } else if crate::bytes::begins_with(alt_enter(), held) || crate::bytes::begins_with(
        alt_exit(),
        held,
    ) {
        (EchoState { marker: held, ..s }, Seq::empty())
    } else {
        (EchoState { marker: Seq::empty(), ..s }, held)
    }
}

/// What `chunk` does to the screen markers, byte after byte.
pub open spec fn screened(s: EchoState, chunk: Seq<u8>) -> (EchoState, Seq<u8>)
    decreases chunk.len(),
{
    if chunk.len() == 0 {
        (s, Seq::empty())
    } else {
        let (mid, visible) = screened(s, chunk.drop_last());
        let (end, v) = screen_byte(mid, chunk.last());
        (end, visible + v)
    }
}

/// Whether showing `shown` behind `tail` completes a password hint.
pub open spec fn hint_seen(tail: Seq<u8>, shown: Seq<u8>) -> bool {
    exists|i: int|
        0 <= i < 4 && crate::bytes::new_match(tail + shown, tail.len() as int, #[trigger] password_hint(i))
}

/// What a chunk of output does: the new state, and what the terminal gets.
pub open spec fn received(s: EchoState, chunk: Seq<u8>) -> (EchoState, Seq<u8>) {
    let (mid, visible) = screened(s, chunk);
    let matched = crate::bytes::common_prefix(visible, mid.pending);
    let shown = visible.skip(matched as int);
    let pending = if shown.len() > 0 {
        Seq::empty()
    } else {
        mid.pending.skip(matched as int)
    };
    let tail = crate::bytes::last_bytes(mid.tail + shown, CARRY as nat);
    if hint_seen(mid.tail, shown) {
        (
            EchoState { line: Seq::empty(), disarmed: true, pending, tail, ..mid },
            if mid.line.len() > 0 {
                clear_row() + shown
            } else {
                shown
            },
        )
    } else {
        (EchoState { pending, tail, ..mid }, shown)
    }
}

/// The bytes of [`alt_enter`].
fn alt_enter_bytes() -> (r: Vec<u8>)
    ensures
        r@ == alt_enter(),
{
    vec![
        0x1bu8, 0x50, 0x2b, 0x73, 0x73, 0x68, 0x74, 0x3b, 0x61, 0x6c, 0x74, 0x3d, 0x31, 0x1b, 0x5c,
    ]
}

/// The bytes of [`alt_exit`].
fn alt_exit_bytes() -> (r: Vec<u8>)
    ensures
        r@ == alt_exit(),
{
    vec![
        0x1bu8, 0x50, 0x2b, 0x73, 0x73, 0x68, 0x74, 0x3b, 0x61, 0x6c, 0x74, 0x3d, 0x30, 0x1b, 0x5c,
    ]
}

/// The bytes of [`password_hint`].
fn password_hint_bytes(i: usize) -> (r: Vec<u8>)
    ensures
        r@ == password_hint(i as int),
        r@.len() > 0,
{
    if i == 0 {
        vec![0x61u8, 0x73, 0x73, 0x77, 0x6f, 0x72, 0x64]
    } else if i == 1 {
        vec![0x61u8, 0x73, 0x73, 0x70, 0x68, 0x72, 0x61, 0x73, 0x65]
    } else if i == 2 {
        vec![0x50u8, 0x49, 0x4e]
    } else {
        vec![
            0x56u8, 0x65, 0x72, 0x69, 0x66, 0x69, 0x63, 0x61, 0x74, 0x69, 0x6f, 0x6e, 0x20, 0x63, 0x6f,
            0x64, 0x65,
        ]
    }
}

/// Looks for a password hint that ends behind the first `seen` bytes of `scan`.
fn has_password_hint(scan: &[u8], seen: usize) -> (r: bool)
    ensures
        r == exists|i: int|
            0 <= i < 4 && crate::bytes::new_match(scan@, seen as int, #[trigger] password_hint(i)),
{
    for i in 0..4usize
        invariant
            forall|j: int|
                0 <= j < i ==> !crate::bytes::new_match(
                    scan@,
                    seen as int,
                    #[trigger] password_hint(j),
                ),
    {
        let hint = password_hint_bytes(i);
        if has_new_match(scan, seen, &hint) {
            assert(crate::bytes::new_match(scan@, seen as int, password_hint(i as int)));
            return true;
        }
    }
    false
}

/// Appends `count` rubouts.
fn push_rubouts(out: &mut Vec<u8>, count: usize)
    ensures
        final(out)@ == old(out)@ + crate::bytes::repeated(rubout(), count as nat),
{
    let ghost before = out@;
    assert(before + crate::bytes::repeated(rubout(), 0) =~= before);
    for i in 0..count
        invariant
            out@ == before + crate::bytes::repeated(rubout(), i as nat),
    {
        let ghost mid = out@;
        append_bytes(out, &[0x08u8, 0x20, 0x08]);
        assert(out@ =~= mid + rubout());
        assert(out@ =~= before + crate::bytes::repeated(rubout(), (i + 1) as nat));
    }
}

impl LocalEcho {
    /// An editor with nothing typed and nothing expected.
    pub fn new(enabled: bool) -> (r: LocalEcho)
        ensures
            r@ == fresh_editor(enabled),
    {
        LocalEcho {
            enabled,
            alt_screen: false,
            suspended: false,
            disarm_next_line: false,
            line: Vec::new(),
            pending_echo: Vec::new(),
            scan_tail: Vec::new(),
            marker_buf: Vec::new(),
        }
    }

    /// Whether typed bytes are edited here.
    pub fn line_mode(&self) -> (r: bool)
        ensures
            r == self@.line_mode(),
    {
        self.enabled && !self.alt_screen && !self.suspended && !self.disarm_next_line
    }

    /// Sends the line, whose echo is expected from then on.
    fn flush_line(&mut self, out: &mut Vec<u8>)
        ensures
            final(self)@ == old(self)@.flushed(),
            final(out)@ == old(out)@ + old(self)@.line,
    {
        append_bytes(out, &self.line);
        append_bytes(&mut self.pending_echo, &self.line);
        self.line.clear();
    }

    /// Erases the last word of the line and the spaces behind it. Answers how
    /// many characters that were.
    fn erase_word(&mut self) -> (r: usize)
        ensures
            final(self)@ == (EchoState {
                line: without_word(without_spaces(old(self)@.line)).0,
                ..old(self)@
            }),
            without_spaces(old(self)@.line).len() <= old(self)@.line.len(),
            r == old(self)@.line.len() - without_spaces(old(self)@.line).len() + without_word(
                without_spaces(old(self)@.line),
            ).1,
    {
        let ghost whole = self@;
        let total: usize = self.line.len();
        let mut chars: usize = 0;
        let ghost bare = without_spaces(whole.line);
        while !self.line.is_empty() && self.line[self.line.len() - 1] == 0x20
            invariant
                self@ == (EchoState { line: self@.line, ..whole }),
                without_spaces(self@.line) == bare,
                chars + self@.line.len() == total,
                total == whole.line.len(),
            decreases self@.line.len(),
        {
            let last = self.line.pop();
            chars = chars + 1;
        }
        assert(self@.line == bare);
        let ghost spaces = chars as nat;
        let ghost all = without_word(bare);
        while !self.line.is_empty() && self.line[self.line.len() - 1] != 0x20
            invariant
                self@ == (EchoState { line: self@.line, ..whole }),
                all == without_word(bare),
                without_word(self@.line).0 == all.0,
                chars == spaces + (all.1 - without_word(self@.line).1),
                chars + self@.line.len() <= total,
            decreases self@.line.len(),
        {
            proof {
                crate::bytes::lemma_last_char_start(self@.line);
            }
            pop_utf8_char(&mut self.line);
            chars = chars + 1;
        }
        chars
    }

    /// Takes one typed byte.
    fn on_key(&mut self, byte: u8, action: &mut RelayAction)
        ensures
            final(self)@ == key(old(self)@, byte).0,
            final(action).to_remote@ == old(action).to_remote@ + key(old(self)@, byte).1,
            final(action).to_terminal@ == old(action).to_terminal@ + key(old(self)@, byte).2,
    {
        let ghost remote = action.to_remote@;
        let ghost terminal = action.to_terminal@;
        assert(remote + Seq::<u8>::empty() =~= remote);
        assert(terminal + Seq::<u8>::empty() =~= terminal);
        assert(remote + seq![byte] =~= remote.push(byte));
        assert(terminal + seq![byte] =~= terminal.push(byte));
        if byte == TOGGLE_KEY {
            self.flush_line(&mut action.to_remote);
            self.enabled = !self.enabled;
            if self.enabled {
                append_bytes(
                    &mut action.to_terminal,
                    "\r\n\x1b[7m local line editing ON \x1b[0m\r\n".as_bytes(),
                );
            } else {
                append_bytes(
                    &mut action.to_terminal,
                    "\r\n\x1b[7m local line editing OFF (raw passthrough) \x1b[0m\r\n".as_bytes(),
                );
            }
        } else if !self.line_mode() {
            if byte == 0x0d || byte == 0x0a {
                self.suspended = false;
                self.disarm_next_line = false;
            }
            action.to_remote.push(byte);
        } else if byte == 0x0d || byte == 0x0a {
            let ghost line = self@.line;
            self.flush_line(&mut action.to_remote);
            action.to_remote.push(0x0d);
            assert(action.to_remote@ =~= remote + line.push(0x0d));
        } else if byte == 0x7f || byte == 0x08 {
            if pop_utf8_char(&mut self.line) {
                append_bytes(&mut action.to_terminal, &[0x08u8, 0x20, 0x08]);
                assert(action.to_terminal@ =~= terminal + rubout());
            }
        } else if byte == 0x15 {
            let chars: usize = utf8_char_count(&self.line);
            self.line.clear();
            push_rubouts(&mut action.to_terminal, chars);
        } else if byte == 0x17 {
            let chars: usize = self.erase_word();
            push_rubouts(&mut action.to_terminal, chars);
        } else if byte == 0x03 {
            self.line.clear();
            action.to_remote.push(byte);
        } else if byte < 0x20 {
            let ghost line = self@.line;
            self.flush_line(&mut action.to_remote);
            self.suspended = true;
            action.to_remote.push(byte);
            assert(action.to_remote@ =~= remote + line.push(byte));
        } else {
            self.line.push(byte);
            action.to_terminal.push(byte);
        }
    }

    /// Takes what was typed.
    pub fn on_input(&mut self, data: &[u8]) -> (r: RelayAction)
        ensures
            (final(self)@, r.to_remote@, r.to_terminal@) == typed(old(self)@, data@),
    {
        let mut action = RelayAction { to_remote: Vec::new(), to_terminal: Vec::new() };
        let ghost before = self@;
        for i in 0..data.len()
            invariant
                (self@, action.to_remote@, action.to_terminal@) == typed(before, data@.take(i as int)),
        {
            assert(data@.take(i + 1).drop_last() =~= data@.take(i as int));
            self.on_key(data[i], &mut action);
        }
        assert(data@.take(data@.len() as int) =~= data@);
        action
    }

    /// Takes the screen markers out of some output. Answers what is left.
    fn filter_alt_markers(&mut self, chunk: &[u8]) -> (r: Vec<u8>)
        ensures
            (final(self)@, r@) == screened(old(self)@, chunk@),
    {
        let mut visible: Vec<u8> = Vec::new();
        let enter = alt_enter_bytes();
        let exit = alt_exit_bytes();
        let ghost before = self@;
        for i in 0..chunk.len()
            invariant
                enter@ == alt_enter(),
                exit@ == alt_exit(),
                (self@, visible@) == screened(before, chunk@.take(i as int)),
        {
            assert(chunk@.take(i + 1).drop_last() =~= chunk@.take(i as int));
            let byte: u8 = chunk[i];
            let ghost mid = self@;
            let ghost seen = visible@;
            assert(seen + Seq::<u8>::empty() =~= seen);
            if self.marker_buf.is_empty() && byte != 0x1b {
                visible.push(byte);
                assert(visible@ =~= seen + seq![byte]);
            } else {
                self.marker_buf.push(byte);
                let ghost held = mid.marker.push(byte);
                if starts_with(&enter, &self.marker_buf) {
                    if self.marker_buf.len() == enter.len() {
                        assert(alt_enter().take(15) =~= alt_enter());
                        if !self.alt_screen {
                            self.alt_screen = true;
                            self.line.clear();
                        }
                        self.marker_buf.clear();
                    } else {
                        assert(held.len() < 15);
                    }
                } else if starts_with(&exit, &self.marker_buf) {
                    assert(alt_enter().take(15) =~= alt_enter());
                    if self.marker_buf.len() == exit.len() {
                        assert(alt_exit().take(15) =~= alt_exit());
                        self.alt_screen = false;
                        self.marker_buf.clear();
                    }
                } else {
                    assert(alt_enter().take(15) =~= alt_enter());
                    assert(alt_exit().take(15) =~= alt_exit());
                    append_bytes(&mut visible, &self.marker_buf);
                    self.marker_buf.clear();
                }
            }
            assert((self@, visible@) == (screen_byte(mid, byte).0, seen + screen_byte(mid, byte).1));
        }
        assert(chunk@.take(chunk@.len() as int) =~= chunk@);
        visible
    }

    /// Takes what the remote printed.
    pub fn on_output(&mut self, chunk: &[u8]) -> (r: RelayAction)
        ensures
            r.to_remote@ == Seq::<u8>::empty(),
            (final(self)@, r.to_terminal@) == received(old(self)@, chunk@),
    {
        let mut action = RelayAction { to_remote: Vec::new(), to_terminal: Vec::new() };
        let visible = self.filter_alt_markers(chunk);
        let ghost mid = self@;
        let matched: usize = common_prefix_len(&visible, &self.pending_echo);
        let shown = bytes_from(&visible, matched);
        if shown.is_empty() {
            self.pending_echo = bytes_from(&self.pending_echo, matched);
        } else {
            self.pending_echo.clear();
        }
        let seen: usize = self.scan_tail.len();
        append_bytes(&mut self.scan_tail, &shown);
        if has_password_hint(&self.scan_tail, seen) {
            assert(hint_seen(mid.tail, shown@));
            if !self.line.is_empty() {
                self.line.clear();
                append_bytes(&mut action.to_terminal, &[0x0du8, 0x1b, 0x5b, 0x32, 0x4b]);
                assert(action.to_terminal@ =~= clear_row());
            }
            self.disarm_next_line = true;
        } else {
            assert(!hint_seen(mid.tail, shown@));
        }
        if self.scan_tail.len() > CARRY {
            self.scan_tail = bytes_from(&self.scan_tail, self.scan_tail.len() - CARRY);
        }
        append_bytes(&mut action.to_terminal, &shown);
        assert(Seq::<u8>::empty() + shown@ =~= shown@);
        assert(self@ =~= received(old(self)@, chunk@).0);
        action
    }
}

} // verus!
