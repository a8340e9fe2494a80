//! What holds of the bytes that pass between the terminal and ssh.

use vstd::prelude::*;

use crate::relay::RelayState;

verus! {

/// A relay starts with the editor on, waits for input, and knows the size of the
/// terminal.
pub proof fn law_relay_starts(size: Option<(u16, u16)>)
    ensures
        ({
            let s = crate::relay::started(size);
            &&& s.input_open && s.last_size == size
            &&& s.editor.line_mode()
            &&& s.editor.line.len() == 0 && s.editor.pending.len() == 0
            &&& s.editor.tail.len() == 0 && s.editor.marker.len() == 0
        }),
{
}

/// The end of the input is told to ssh as a terminal would, by Ctrl-D, and no more input
/// is waited for then. Nothing that was typed is lost by it.
pub proof fn law_input_ends(s: RelayState)
    ensures
        ({
            let (next, remote, terminal) = crate::relay::read_in(s, Seq::empty());
            &&& remote == seq![0x04u8] && terminal == Seq::<u8>::empty()
            &&& !next.input_open
            &&& next.editor == s.editor && next.last_size == s.last_size
        }),
{
}

/// Input goes through the editor, and output does; neither changes what is known of the
/// terminal.
pub proof fn law_bytes_go_through_the_editor(s: RelayState, data: Seq<u8>)
    requires
        data.len() > 0,
    ensures
        ({
            let (next, remote, terminal) = crate::relay::read_in(s, data);
            let (shown, out) = crate::relay::read_out(s, data);
            &&& (next.editor, remote, terminal) == crate::local_echo::typed(s.editor, data)
            &&& next.input_open == s.input_open && next.last_size == s.last_size
            &&& (shown.editor, out->0) == crate::local_echo::received(s.editor, data)
            &&& out is Some
            &&& shown.input_open == s.input_open && shown.last_size == s.last_size
        }),
{
}

/// The end of the output ends the relay, and is shown as nothing.
pub proof fn law_output_ends(s: RelayState)
    ensures
        crate::relay::read_out(s, Seq::empty()) == (s, None::<Seq<u8>>),
{
}

/// ssh is told a size once, when it is another than before; a size that is not known
/// changes nothing.
pub proof fn law_sizes_are_told_once(s: RelayState, size: (u16, u16))
    ensures
        ({
            let (next, tell) = crate::relay::sized(s, Some(size));
            &&& tell <==> s.last_size != Some(size)
            &&& next == (RelayState { last_size: Some(size), ..s })
            &&& crate::relay::sized(next, Some(size)) == (next, false)
        }),
        crate::relay::sized(s, None) == (s, false),
{
}

/// Two sequences have so many bytes in common at their start as are alike before the
/// first that differ.
pub proof fn law_common_start(a: Seq<u8>, b: Seq<u8>)
    ensures
        ({
            let n = crate::bytes::common_prefix(a, b) as int;
            &&& 0 <= n <= a.len() && n <= b.len()
            &&& forall|i: int| 0 <= i < n ==> #[trigger] a[i] == b[i]
            &&& n < a.len() && n < b.len() ==> a[n] != b[n]
        }),
    decreases a.len(),
{
    if a.len() > 0 && b.len() > 0 && a[0] == b[0] {
        law_common_start(a.skip(1), b.skip(1));
        let n = crate::bytes::common_prefix(a, b) as int;
        assert forall|i: int| 0 <= i < n implies #[trigger] a[i] == b[i] by {
            if i > 0 {
                assert(a.skip(1)[i - 1] == b.skip(1)[i - 1]);
            }
        }
        if n < a.len() && n < b.len() {
            assert(a.skip(1)[n - 1] != b.skip(1)[n - 1]);
        }
    }
}

/// The end of a sequence: all of it where it is short, and else its last bytes.
pub proof fn law_last_bytes(a: Seq<u8>, b: Seq<u8>)
    ensures
        crate::bytes::last_bytes(a + b, b.len()) == b,
        crate::bytes::last_bytes(a, a.len() + b.len()) == a,
{
    assert((a + b).skip(a.len() as int) =~= b);
    assert(crate::bytes::last_bytes(a + b, b.len()) =~= b);
}

/// A sequence that is found behind what was seen before is found where it ends behind
/// that, wherever it begins.
pub proof fn law_new_matches(before: Seq<u8>, needle: Seq<u8>, after: Seq<u8>, seen: int)
    requires
        needle.len() > 0,
    ensures
        before.len() + needle.len() > seen ==> crate::bytes::new_match(
            before + needle + after,
            seen,
            needle,
        ),
        crate::bytes::new_match(before, seen, needle) ==> exists|at: int|
            0 <= at && seen < at + needle.len() <= before.len() && #[trigger] before.subrange(
                at,
                at + needle.len(),
            ) == needle,
{
    let whole = before + needle + after;
    let at = before.len() as int;
    assert(whole.subrange(at, at + needle.len()) =~= needle);
    assert(crate::bytes::occurs_at(whole, needle, at));
    if crate::bytes::new_match(before, seen, needle) {
        let k = choose|k: int| #[trigger]
            crate::bytes::occurs_at(before, needle, k) && k + needle.len() > seen;
        assert(before.subrange(k, k + needle.len()) == needle);
    }
}

} // verus!
