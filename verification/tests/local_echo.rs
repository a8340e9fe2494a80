use ssht::local_echo::{LocalEcho, TOGGLE_KEY};
use ssht::relay::Relay;

const ALT_ENTER: &[u8] = b"\x1bP+ssht;alt=1\x1b\\";
const ALT_EXIT: &[u8] = b"\x1bP+ssht;alt=0\x1b\\";

#[test]
fn buffers_and_draws_a_line_then_suppresses_its_echo() {
    let mut editor = LocalEcho::new(true);
    assert_eq!(editor.on_input(b"hello").to_terminal, b"hello");
    let commit = editor.on_input(b"\r");
    assert_eq!(commit.to_remote, b"hello\r");
    assert_eq!(editor.on_output(b"hello\r\n$ ").to_terminal, b"\r\n$ ");
}

#[test]
fn echo_mismatch_self_heals() {
    let mut editor = LocalEcho::new(true);
    editor.on_input(b"abc\r");
    assert_eq!(editor.on_output(b"\x1b[31mabc").to_terminal, b"\x1b[31mabc");
    assert_eq!(editor.on_output(b"more").to_terminal, b"more");
}

#[test]
fn alt_screen_sequence_can_span_reads() {
    let mut editor = LocalEcho::new(true);
    editor.on_output(b"\x1bP+ssht;");
    editor.on_output(b"alt=1\x1b\\");
    assert_eq!(editor.on_input(b"x").to_remote, b"x");
    editor.on_output(ALT_EXIT);
    assert_eq!(editor.on_input(b"y").to_terminal, b"y");
}

#[test]
fn alt_screen_entry_discards_unsent_shell_input() {
    let mut editor = LocalEcho::new(true);
    editor.on_input(b"shell input");
    assert!(editor.on_output(ALT_ENTER).to_remote.is_empty());
    editor.on_output(ALT_EXIT);
    assert_eq!(editor.on_input(b"\r").to_remote, b"\r");
}

#[test]
fn tmux_outer_alt_screen_does_not_disable_line_editing() {
    let mut editor = LocalEcho::new(true);
    assert_eq!(editor.on_output(b"\x1b[?1049h").to_terminal, b"\x1b[?1049h");
    assert_eq!(editor.on_input(b"shell").to_terminal, b"shell");
}

#[test]
fn bailout_flushes_and_rearms_after_enter() {
    let mut editor = LocalEcho::new(true);
    editor.on_input(b"car");
    assert_eq!(editor.on_input(b"\t").to_remote, b"car\t");
    assert_eq!(editor.on_input(b"go\r").to_remote, b"go\r");
    assert_eq!(editor.on_input(b"next").to_terminal, b"next");
}

#[test]
fn password_hint_can_span_reads_and_only_disarms_one_line() {
    let mut editor = LocalEcho::new(true);
    editor.on_output(b"Passw");
    editor.on_output(b"ord: ");
    assert_eq!(editor.on_input(b"secret\r").to_remote, b"secret\r");
    assert!(editor.on_input(b"visible").to_remote.is_empty());
}

#[test]
fn password_hint_discards_input_typed_before_the_prompt_arrived() {
    let mut editor = LocalEcho::new(true);
    editor.on_input(b"oops");
    let prompt = editor.on_output(b"Password: ");
    assert!(prompt.to_terminal.starts_with(b"\r\x1b[2K"));
    assert_eq!(editor.on_input(b"secret\r").to_remote, b"secret\r");
    assert!(editor.on_input(b"next\r").to_remote.ends_with(b"\r"));
}

#[test]
fn ctrl_d_flushes_visible_input_before_forwarding() {
    let mut editor = LocalEcho::new(true);
    editor.on_input(b"text");
    assert_eq!(editor.on_input(b"\x04").to_remote, b"text\x04");
}

#[test]
fn backspace_erases_one_multibyte_character() {
    let mut editor = LocalEcho::new(true);
    editor.on_input("aé🎉".as_bytes());
    editor.on_input(b"\x7f");
    editor.on_input(b"\x7f");
    assert_eq!(editor.on_input(b"\r").to_remote, b"a\r");
}

#[test]
fn toggle_flushes_then_uses_passthrough() {
    let mut editor = LocalEcho::new(true);
    editor.on_input(b"abc");
    let toggle = editor.on_input(&[TOGGLE_KEY]);
    assert_eq!(toggle.to_remote, b"abc");
    assert_eq!(editor.on_input(b"x").to_remote, b"x");
}

#[test]
fn toggle_says_what_it_did() {
    let mut editor = LocalEcho::new(true);
    assert_eq!(
        editor.on_input(&[TOGGLE_KEY]).to_terminal,
        b"\r\n\x1b[7m local line editing OFF (raw passthrough) \x1b[0m\r\n"
    );
    assert_eq!(
        editor.on_input(&[TOGGLE_KEY]).to_terminal,
        b"\r\n\x1b[7m local line editing ON \x1b[0m\r\n"
    );
}

#[test]
fn every_bailout_key_suspends() {
    for key in [0x09u8, 0x12, 0x1b, 0x01, 0x05, 0x02, 0x06, 0x0b, 0x10, 0x0e, 0x0c, 0x00, 0x1f] {
        let mut editor = LocalEcho::new(true);
        editor.on_input(b"ab");
        assert_eq!(editor.on_input(&[key]).to_remote, [b'a', b'b', key]);
        assert!(!editor.line_mode());
        assert_eq!(editor.on_input(b"z").to_remote, b"z");
        editor.on_input(b"\n");
        assert!(editor.line_mode());
    }
}

#[test]
fn ctrl_u_and_ctrl_w_erase_characters() {
    let mut editor = LocalEcho::new(true);
    editor.on_input("one zwö  ".as_bytes());
    assert_eq!(editor.on_input(b"\x17").to_terminal, b"\x08 \x08".repeat(5));
    assert_eq!(editor.on_input(b"\r").to_remote, b"one \r");
    let mut editor = LocalEcho::new(true);
    editor.on_input("日本".as_bytes());
    assert_eq!(editor.on_input(b"\x15").to_terminal, b"\x08 \x08".repeat(2));
    assert_eq!(editor.on_input(b"\r").to_remote, b"\r");
    assert!(editor.on_input(b"\x7f").to_terminal.is_empty());
}

#[test]
fn ctrl_c_forgets_the_line() {
    let mut editor = LocalEcho::new(true);
    editor.on_input(b"rm -rf");
    assert_eq!(editor.on_input(b"\x03").to_remote, b"\x03");
    assert_eq!(editor.on_input(b"\r").to_remote, b"\r");
}

#[test]
fn echo_in_pieces_is_hidden() {
    let mut editor = LocalEcho::new(true);
    editor.on_input(b"hello\r");
    assert!(editor.on_output(b"hel").to_terminal.is_empty());
    assert_eq!(editor.on_output(b"lo\r\n").to_terminal, b"\r\n");
    assert_eq!(editor.on_output(b"hello").to_terminal, b"hello");
}

#[test]
fn coloured_output_behind_an_echo_is_shown() {
    let mut editor = LocalEcho::new(true);
    editor.on_input(b"ls\r");
    let action = editor.on_output(b"ls\r\n\x1b[32m$ \x1bP+ssht;alt=0\x1b\\");
    assert_eq!(action.to_terminal, b"\r\n\x1b[32m$ ");
    // A line that is being typed is not disturbed.
    editor.on_input(b"next");
    assert_eq!(editor.on_output(b"late\r\n").to_terminal, b"late\r\n");
    assert_eq!(editor.on_input(b"\r").to_remote, b"next\r");
}

#[test]
fn half_a_marker_is_held_and_then_shown() {
    let mut editor = LocalEcho::new(true);
    assert!(editor.on_output(b"\x1bP+ssht;alt=").to_terminal.is_empty());
    assert_eq!(editor.on_output(b"7x").to_terminal, b"\x1bP+ssht;alt=7x");
    assert_eq!(editor.on_output(b"a\x1bP+ssht;alt=1\x1b\\b").to_terminal, b"ab");
    assert!(!editor.line_mode());
}

#[test]
fn every_password_hint_disarms() {
    for hint in ["Password:", "passphrase for key", "Enter PIN", "Verification code: "] {
        let mut editor = LocalEcho::new(true);
        for byte in hint.as_bytes() {
            editor.on_output(&[*byte]);
        }
        assert!(!editor.line_mode(), "{hint}");
        editor.on_input(b"x\r");
        assert!(editor.line_mode(), "{hint}");
        // What was shown before the line does not disarm the next one.
        editor.on_output(b"ok");
        assert!(editor.line_mode(), "{hint}");
    }
}

#[test]
fn splitting_the_input_makes_no_difference() {
    let keys = "ls é\x7f\x17cd /\r\x1d raw\x1dab\tc\rz".as_bytes();
    let mut whole = LocalEcho::new(true);
    let all = whole.on_input(keys);
    let mut pieces = LocalEcho::new(true);
    let mut remote = vec![];
    let mut terminal = vec![];
    for key in keys {
        let action = pieces.on_input(&[*key]);
        remote.extend(action.to_remote);
        terminal.extend(action.to_terminal);
    }
    assert_eq!((all.to_remote, all.to_terminal), (remote, terminal));
}

#[test]
fn switched_off_passes_everything_through() {
    let mut editor = LocalEcho::new(false);
    let action = editor.on_input(b"a\x7f\x15\x17\x03\x04\r\n\t");
    assert_eq!(action.to_remote, b"a\x7f\x15\x17\x03\x04\r\n\t");
    assert!(action.to_terminal.is_empty());
}

#[test]
fn relay_ends_input_once_and_reports_new_sizes() {
    let mut relay = Relay::new(Some((24, 80)));
    assert!(!relay.resized(Some((24, 80))));
    assert!(!relay.resized(None));
    assert!(relay.resized(Some((25, 80))));
    assert!(!relay.resized(Some((25, 80))));
    assert!(relay.wants_input());
    assert_eq!(relay.input(b"hi").to_terminal, b"hi");
    assert_eq!(relay.input(b"\r").to_remote, b"hi\r");
    assert_eq!(relay.output(b"hi!").unwrap().to_terminal, b"!");
    let end = relay.input(b"");
    assert_eq!(end.to_remote, [0x04]);
    assert!(end.to_terminal.is_empty());
    assert!(!relay.wants_input());
    assert!(relay.output(b"").is_none());
}

#[test]
fn output_in_pieces_is_output_at_once() {
    let output = b"ls\r\n\x1b[32m$ \x1bP+ssht;alt=1\x1b\\full\x1bP+ssht;alt=0\x1b\\Password: ";
    let mut whole = LocalEcho::new(true);
    whole.on_input(b"ls\r");
    let all = whole.on_output(output).to_terminal;
    assert_eq!(all, b"\r\n\x1b[32m$ fullPassword: ");
    for n in 0..=output.len() {
        let mut editor = LocalEcho::new(true);
        editor.on_input(b"ls\r");
        let mut joined = editor.on_output(&output[..n]).to_terminal;
        joined.extend(editor.on_output(&output[n..]).to_terminal);
        assert_eq!(joined, all, "{n}");
        assert_eq!(editor.line_mode(), whole.line_mode());
        let typed = editor.on_input(b"secret\r");
        assert_eq!(typed.to_remote, b"secret\r");
        assert!(typed.to_terminal.is_empty());
    }
}

#[test]
fn a_row_is_cleared_in_front_of_the_read_that_asks() {
    let mut whole = LocalEcho::new(true);
    whole.on_input(b"x");
    assert_eq!(whole.on_output(b"a PIN:").to_terminal, b"\r\x1b[2Ka PIN:");
    let mut editor = LocalEcho::new(true);
    editor.on_input(b"x");
    assert_eq!(editor.on_output(b"a ").to_terminal, b"a ");
    assert_eq!(editor.on_output(b"PIN:").to_terminal, b"\r\x1b[2KPIN:");
}
