use session_relay::cancel::CancelToken;
use session_relay::input::{input_step, relay_input, InputAction, Key, KeyPress};
use session_relay::output::{output_step, relay_output, OutputAction, ReadEvent};

fn key(k: Key) -> KeyPress {
    KeyPress { key: k, control: false }
}

fn ctrl(k: Key) -> KeyPress {
    KeyPress { key: k, control: true }
}

fn forwarded(action: InputAction) -> Vec<u8> {
    match action {
        InputAction::Forward(bytes) => bytes,
        InputAction::Detach => panic!("key detached instead of forwarding"),
        InputAction::Ignore => panic!("key was ignored instead of forwarded"),
    }
}

#[test]
fn plain_character_is_sent_as_its_single_byte() {
    assert_eq!(forwarded(input_step(&key(Key::Char('l')))), vec![0x6c]);
    assert_eq!(forwarded(input_step(&key(Key::Char('A')))), vec![0x41]);
}

#[test]
fn control_character_is_prefixed_with_escape() {
    assert_eq!(forwarded(input_step(&ctrl(Key::Char('c')))), vec![0x1b, 0x63]);
    assert_eq!(forwarded(input_step(&ctrl(Key::Char('x')))), vec![0x1b, 0x78]);
}

#[test]
fn enter_backspace_and_escape_have_fixed_bytes() {
    assert_eq!(forwarded(input_step(&key(Key::Enter))), vec![0x0a]);
    assert_eq!(forwarded(input_step(&key(Key::Backspace))), vec![0x08]);
    assert_eq!(forwarded(input_step(&key(Key::Esc))), vec![0x1b]);
}

#[test]
fn unrecognised_keys_are_ignored() {
    assert!(matches!(input_step(&key(Key::Other)), InputAction::Ignore));
    assert!(matches!(input_step(&ctrl(Key::Other)), InputAction::Ignore));
}

#[test]
fn detach_sequence_detaches_and_is_never_forwarded() {
    // Control-d forms exactly [ESC, 'd'], the detach escape.
    assert!(matches!(input_step(&ctrl(Key::Char('d'))), InputAction::Detach));
    // Without Control, 'd' is an ordinary byte.
    assert_eq!(forwarded(input_step(&key(Key::Char('d')))), vec![0x64]);
}

#[test]
fn escape_key_then_d_key_does_not_detach() {
    // Two separate key events form two separate sequences, [0x1B] and
    // [0x64]; neither is the fully-formed detach escape.
    assert_eq!(forwarded(input_step(&key(Key::Esc))), vec![0x1b]);
    assert_eq!(forwarded(input_step(&key(Key::Char('d')))), vec![0x64]);
}

#[test]
fn input_run_concatenates_sequences_in_order() {
    let keys = vec![
        key(Key::Char('l')),
        key(Key::Char('s')),
        key(Key::Enter),
        ctrl(Key::Char('c')),
        key(Key::Other),
        key(Key::Backspace),
    ];
    let mut cancel = CancelToken::new();
    let run = relay_input(&keys, &mut cancel);
    assert_eq!(run.sent, vec![0x6c, 0x73, 0x0a, 0x1b, 0x63, 0x08]);
    assert!(!run.detached);
    assert!(!cancel.is_fired());
}

#[test]
fn input_run_stops_at_detach_and_fires_cancellation() {
    let keys = vec![
        key(Key::Char('a')),
        ctrl(Key::Char('d')),
        key(Key::Char('b')),
    ];
    let mut cancel = CancelToken::new();
    let run = relay_input(&keys, &mut cancel);
    assert_eq!(run.sent, vec![0x61]);
    assert!(run.detached);
    assert!(cancel.is_fired());
}

#[test]
fn data_chunk_is_written_verbatim() {
    let payload = b"file.txt\n".to_vec();
    match output_step(ReadEvent::Data(payload.clone())) {
        OutputAction::Write(w) => assert_eq!(w, payload),
        _ => panic!("non-empty data must be written"),
    }
}

#[test]
fn zero_length_read_stops_the_relay() {
    assert!(matches!(output_step(ReadEvent::Data(Vec::new())), OutputAction::Stop));
}

#[test]
fn cancellation_stops_the_relay() {
    assert!(matches!(output_step(ReadEvent::Cancelled), OutputAction::Stop));
}

#[test]
fn transient_error_only_retries() {
    assert!(matches!(output_step(ReadEvent::TransientError), OutputAction::Retry));
}

#[test]
fn output_run_forwards_arbitrary_bytes_unchanged() {
    let events = vec![
        ReadEvent::Data(vec![0x00, 0xff, 0x1b]),
        ReadEvent::TransientError,
        ReadEvent::Data(b"shell output".to_vec()),
    ];
    let written = relay_output(events);
    let mut expected = vec![0x00, 0xff, 0x1b];
    expected.extend_from_slice(b"shell output");
    assert_eq!(written, expected);
}

#[test]
fn output_run_ends_at_peer_close_without_operator_action() {
    let events = vec![
        ReadEvent::Data(b"last words".to_vec()),
        ReadEvent::Data(Vec::new()),
        ReadEvent::Data(b"never seen".to_vec()),
    ];
    assert_eq!(relay_output(events), b"last words".to_vec());
}

#[test]
fn cancellation_token_is_single_fire_and_idempotent() {
    let mut t = CancelToken::new();
    assert!(!t.is_fired());
    t.fire();
    assert!(t.is_fired());
    // Firing again is harmless and leaves the token fired.
    t.fire();
    assert!(t.is_fired());
}
