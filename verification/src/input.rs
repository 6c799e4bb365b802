//! Input relay logic: keystroke translation and detach recognition.
//!
//! Each captured key event forms one byte sequence for the remote
//! connection. The fully-formed sequence `[ESC, 'd']` is the detach
//! escape: it is never forwarded; it fires the cancellation signal and
//! ends the interactive loop instead.

use vstd::prelude::*;
use crate::cancel::CancelToken;

verus! {

/// First byte of the detach escape sequence (ASCII ESC).
pub const ESCAPE_BYTE: u8 = 0x1b;

/// Second byte of the detach escape sequence (ASCII 'd').
pub const DETACH_BYTE: u8 = 0x64;

/// A key captured from the terminal, already stripped to what the relay
/// reads: the key itself and whether Control was held.
pub struct KeyPress {
    /// Which key was pressed.
    pub key: Key,
    /// True if the Control modifier was held.
    pub control: bool,
}

/// The keys the relay translates; everything else is `Other` and ignored.
pub enum Key {
    /// A printable character.
    Char(char),
    /// The Enter key.
    Enter,
    /// The Backspace key.
    Backspace,
    /// The Escape key.
    Esc,
    /// Any key the relay does not translate.
    Other,
}

/// What the input relay does with one captured key.
pub enum InputAction {
    /// Send these bytes to the remote connection and keep relaying.
    Forward(Vec<u8>),
    /// Fire the cancellation signal and end the interactive loop;
    /// nothing is sent.
    Detach,
    /// Send nothing and keep relaying.
    Ignore,
}

/// The byte sequence a key forms, or `None` for keys that form none.
/// A character is sent as its low byte; with Control held, ESC is
/// prefixed.
pub open spec fn key_sequence(k: KeyPress) -> Option<Seq<u8>> {
    match k.key {
        Key::Char(c) => if k.control {
            Some(seq![ESCAPE_BYTE, c as u8])
        } else {
            Some(seq![c as u8])
        },
        Key::Enter => Some(seq![0x0au8]),
        Key::Backspace => Some(seq![0x08u8]),
        Key::Esc => Some(seq![ESCAPE_BYTE]),
        Key::Other => None,
    }
}

/// True if the key forms exactly the detach escape sequence `[ESC, 'd']`.
pub open spec fn forms_detach_sequence(k: KeyPress) -> bool {
    key_sequence(k) == Some(seq![ESCAPE_BYTE, DETACH_BYTE])
}

/// Typing any printable character with Control held forms the two-byte
/// sequence `[ESC, <char>]`; without Control, the single byte of the
/// character alone.
pub proof fn lemma_control_char_translation(c: char)
    ensures
        key_sequence(KeyPress { key: Key::Char(c), control: true }) == Some(
            seq![ESCAPE_BYTE, c as u8],
        ),
        key_sequence(KeyPress { key: Key::Char(c), control: false }) == Some(seq![c as u8]),
{
}

/// Decides what one captured key does: the detach escape ends the loop
/// and is never forwarded; every other key that forms a sequence has it
/// forwarded verbatim; the rest are ignored.
pub fn input_step(k: &KeyPress) -> (r: InputAction)
    ensures
        r is Detach <==> forms_detach_sequence(*k),
        r matches InputAction::Forward(bytes) ==> {
            &&& key_sequence(*k) == Some(bytes@)
            &&& bytes@ != seq![ESCAPE_BYTE, DETACH_BYTE]
        },
        r is Forward <==> key_sequence(*k) is Some && !forms_detach_sequence(*k),
        r is Ignore <==> key_sequence(*k) is None,
{
    match k.key {
        Key::Char(c) => {
            let b = c as u8;
            if k.control {
                if b == DETACH_BYTE {
                    InputAction::Detach
                } else {
                    let mut bytes: Vec<u8> = Vec::new();
                    bytes.push(ESCAPE_BYTE);
                    bytes.push(b);
                    proof {
                        assert(bytes@ =~= seq![ESCAPE_BYTE, b]);
                    }
                    InputAction::Forward(bytes)
                }
            } else {
                let mut bytes: Vec<u8> = Vec::new();
                bytes.push(b);
                proof {
                    assert(bytes@ =~= seq![b]);
                    assert(bytes@ != seq![ESCAPE_BYTE, DETACH_BYTE]);
                }
                InputAction::Forward(bytes)
            }
        },
        Key::Enter => {
            let mut bytes: Vec<u8> = Vec::new();
            bytes.push(0x0au8);
            proof {
                assert(bytes@ =~= seq![0x0au8]);
                assert(bytes@ != seq![ESCAPE_BYTE, DETACH_BYTE]);
            }
            InputAction::Forward(bytes)
        },
        Key::Backspace => {
            let mut bytes: Vec<u8> = Vec::new();
            bytes.push(0x08u8);
            proof {
                assert(bytes@ =~= seq![0x08u8]);
                assert(bytes@ != seq![ESCAPE_BYTE, DETACH_BYTE]);
            }
            InputAction::Forward(bytes)
        },
        Key::Esc => {
            let mut bytes: Vec<u8> = Vec::new();
            bytes.push(ESCAPE_BYTE);
            proof {
                assert(bytes@ =~= seq![ESCAPE_BYTE]);
                assert(bytes@ != seq![ESCAPE_BYTE, DETACH_BYTE]);
            }
            InputAction::Forward(bytes)
        },
        Key::Other => InputAction::Ignore,
    }
}

/// Bytes the relay sends for a run of keys, stopping at the first key
/// that forms the detach escape: the concatenation of the sequences the
/// earlier keys form.
pub open spec fn sent_bytes(keys: Seq<KeyPress>) -> Seq<u8>
    decreases keys.len(),
{
    if keys.len() == 0 {
        Seq::empty()
    } else if forms_detach_sequence(keys[0]) {
        Seq::empty()
    } else {
        match key_sequence(keys[0]) {
            Some(s) => s + sent_bytes(keys.drop_first()),
            None => sent_bytes(keys.drop_first()),
        }
    }
}

/// True if some key in the run forms the detach escape.
pub open spec fn run_detaches(keys: Seq<KeyPress>) -> bool
    decreases keys.len(),
{
    keys.len() > 0 && (forms_detach_sequence(keys[0]) || run_detaches(keys.drop_first()))
}

/// What one interactive run produced: the bytes that went to the
/// connection, and whether the run ended in a detach.
pub struct InputRun {
    /// Every byte sent to the remote connection, in order.
    pub sent: Vec<u8>,
    /// True if a key formed the detach escape and ended the loop.
    pub detached: bool,
}

/// Relays a run of captured keys: forwards each key's sequence until one
/// forms the detach escape, which fires the cancellation signal and ends
/// the run with nothing more sent. The detach escape itself is never
/// among the sent bytes of a single key.
pub fn relay_input(keys: &Vec<KeyPress>, cancel: &mut CancelToken) -> (r: InputRun)
    ensures
        r.sent@ == sent_bytes(keys@),
        r.detached == run_detaches(keys@),
        final(cancel)@ == (old(cancel)@ || r.detached),
{
    let mut sent: Vec<u8> = Vec::new();
    let mut i: usize = 0;
    proof {
        assert(keys@.skip(0) =~= keys@);
        assert(sent@ + sent_bytes(keys@) =~= sent_bytes(keys@));
    }
    while i < keys.len()
        invariant
            i <= keys@.len(),
            sent@ + sent_bytes(keys@.skip(i as int)) == sent_bytes(keys@),
            run_detaches(keys@) == run_detaches(keys@.skip(i as int)),
            cancel@ == old(cancel)@,
        decreases keys@.len() - i,
    {
        let ghost tail = keys@.skip(i as int);
        proof {
            assert(tail[0] == keys@[i as int]);
            assert(tail.drop_first() =~= keys@.skip(i as int + 1));
        }
        match input_step(&keys[i]) {
            InputAction::Forward(bytes) => {
                let ghost before = sent@;
                let mut b = bytes;
                let ghost bs = b@;
                sent.append(&mut b);
                proof {
                    assert((before + bs) + sent_bytes(tail.drop_first()) =~= before + (bs
                        + sent_bytes(tail.drop_first())));
                    assert(bs + sent_bytes(tail.drop_first()) =~= sent_bytes(tail));
                }
            },
            InputAction::Detach => {
                cancel.fire();
                proof {
                    assert(run_detaches(tail));
                    assert(sent_bytes(tail) =~= Seq::<u8>::empty());
                    assert(sent@ =~= sent_bytes(keys@));
                }
                return InputRun { sent, detached: true };
            },
            InputAction::Ignore => {
                proof {
                    assert(sent_bytes(tail) =~= sent_bytes(tail.drop_first()));
                }
            },
        }
        i += 1;
    }
    proof {
        assert(keys@.skip(keys@.len() as int) =~= Seq::<KeyPress>::empty());
        assert(sent@ =~= sent_bytes(keys@));
    }
    InputRun { sent, detached: false }
}

} // verus!
