//! Keyboard input: which key presses are plain text, and what they are to
//! Neovim.
//!
//! Only plain text is forwarded. A key with Control, Alt or Super held is not
//! plain text: without the modifier it would mean something else.

use crate::live;
use crate::live::{LiveModel, LiveSession, LiveState};
use vstd::prelude::*;

verus! {

/// The modifier bits that the toolkit reports with a key.
pub const CONTROL_MASK: u32 = 0x4;

pub const ALT_MASK: u32 = 0x8;

pub const SUPER_MASK: u32 = 0x400_0000;

/// The key values of the keys that have a name in Neovim.
pub const KEY_BACK_SPACE: u32 = 0xff08;

pub const KEY_TAB: u32 = 0xff09;

pub const KEY_RETURN: u32 = 0xff0d;

pub const KEY_ESCAPE: u32 = 0xff1b;

pub const KEY_KP_ENTER: u32 = 0xff8d;

/// A key press.
#[derive(Clone, Copy, Debug, PartialEq, Eq, Structural)]
pub struct KeyPress {
    /// The modifier bits.
    pub modifiers: u32,
    /// The key value.
    pub key: u32,
    /// The character that the key value stands for, where it stands for one.
    pub unicode: Option<char>,
}

/// What becomes of a key press.
#[derive(Debug)]
pub enum KeyOutcome {
    /// It is left to whoever else listens.
    Proceed,
    /// It stops here, but nobody takes it.
    Swallow,
    /// It stops here, and this text goes to Neovim.
    Send(String),
}

/// The outcome of a key press as a mathematical value.
pub enum KeyModel {
    Proceed,
    Swallow,
    Send(Seq<char>),
}

impl View for KeyOutcome {
    type V = KeyModel;

    open spec fn view(&self) -> KeyModel {
        match *self {
            KeyOutcome::Proceed => KeyModel::Proceed,
            KeyOutcome::Swallow => KeyModel::Swallow,
            KeyOutcome::Send(text) => KeyModel::Send(text@),
        }
    }
}

/// Whether Control, Alt or Super is held.
pub open spec fn is_modified(modifiers: u32) -> bool {
    modifiers & CONTROL_MASK != 0 || modifiers & ALT_MASK != 0 || modifiers & SUPER_MASK != 0
}

/// Whether `c` is a control character.
pub open spec fn is_control(c: char) -> bool {
    c <= '\u{1f}' || '\u{7f}' <= c <= '\u{9f}'
}

/// What a key is to Neovim: its name, where it has one; else its character,
/// where it stands for one that is no control character.
pub open spec fn key_meaning(key: u32, unicode: Option<char>) -> Option<Seq<char>> {
    if key == KEY_ESCAPE {
        Some("<Esc>"@)
    } else if key == KEY_RETURN || key == KEY_KP_ENTER {
        Some("<CR>"@)
    } else if key == KEY_BACK_SPACE {
        Some("<BS>"@)
    } else if key == KEY_TAB {
        Some("<Tab>"@)
    } else {
        match unicode {
            Some(c) => if is_control(c) {
                None
            } else {
                Some(seq![c])
            },
            None => None,
        }
    }
}

/// The text that a key press is, where it is plain text.
pub open spec fn press_text(press: KeyPress) -> Option<Seq<char>> {
    if is_modified(press.modifiers) {
        None
    } else {
        key_meaning(press.key, press.unicode)
    }
}

/// What becomes of a key press while the pane is in state `m`. Plain text stops
/// here even where no session takes it.
pub open spec fn press_outcome(m: LiveModel, press: KeyPress, exited: bool) -> KeyModel {
    match press_text(press) {
        None => KeyModel::Proceed,
        Some(text) => if live::takes_input(m, exited) {
            KeyModel::Send(text)
        } else {
            KeyModel::Swallow
        },
    }
}

/// The state after a key press.
pub open spec fn after_press(m: LiveModel, press: KeyPress, exited: bool) -> LiveModel {
    if press_text(press) is Some {
        live::after_input(m, exited)
    } else {
        m
    }
}

/// What a key is to Neovim.
pub fn key_text(key: u32, unicode: Option<char>) -> (text: Option<String>)
    ensures
        text is Some <==> key_meaning(key, unicode) is Some,
        text is Some ==> text->0@ == key_meaning(key, unicode)->0,
{
    if key == KEY_ESCAPE {
        Some("<Esc>".to_owned())
    } else if key == KEY_RETURN || key == KEY_KP_ENTER {
        Some("<CR>".to_owned())
    } else if key == KEY_BACK_SPACE {
        Some("<BS>".to_owned())
    } else if key == KEY_TAB {
        Some("<Tab>".to_owned())
    } else {
        match unicode {
            Some(c) => {
                if c <= '\u{1f}' || c >= '\u{7f}' && c <= '\u{9f}' {
                    None
                } else {
                    let mut text: String = String::new();
                    text.push(c);
                    assert(text@ =~= seq![c]);
                    Some(text)
                }
            },
            None => None,
        }
    }
}

/// Handles a key press in the pane. `exited` says whether Neovim has exited.
pub fn key_pressed(state: &mut LiveState, press: KeyPress, exited: bool) -> (outcome: KeyOutcome)
    ensures
        outcome@ == press_outcome(old(state)@, press, exited),
        final(state)@ == after_press(old(state)@, press, exited),
{
    if press.modifiers & CONTROL_MASK != 0 || press.modifiers & ALT_MASK != 0 || press.modifiers
        & SUPER_MASK != 0 {
        return KeyOutcome::Proceed;
    }
    match key_text(press.key, press.unicode) {
        None => KeyOutcome::Proceed,
        Some(text) => {
            if state.input(exited) {
                KeyOutcome::Send(text)
            } else {
                KeyOutcome::Swallow
            }
        },
    }
}

/// A key with Control, Alt or Super held never reaches Neovim and changes
/// nothing, whichever key it is.
pub proof fn law_modified_key_is_left_alone(m: LiveModel, press: KeyPress, exited: bool)
    requires
        is_modified(press.modifiers),
    ensures
        press_outcome(m, press, exited) == KeyModel::Proceed,
        after_press(m, press, exited) == m,
{
}

/// A key press that goes to Neovim has the next tick draw.
pub proof fn law_sent_key_draws(m: LiveModel, press: KeyPress, exited: bool, batches: u64)
    requires
        press_outcome(m, press, exited) is Send,
    ensures
        live::tick_needs_frame(after_press(m, press, exited), batches),
{
}

/// Text goes to Neovim only while a session runs and Neovim has not exited.
pub proof fn law_sends_to_a_running_session(m: LiveModel, press: KeyPress, exited: bool)
    ensures
        press_outcome(m, press, exited) is Send ==> m is Ready && !exited,
        !(press_outcome(m, press, exited) is Send) ==> after_press(m, press, exited) == m,
{
}

/// Whether none of the bits for Control, Alt and Super is set. Shift and the lock
/// keys have other bits.
pub open spec fn is_plain(modifiers: u32) -> bool {
    modifiers & 0x4 == 0 && modifiers & 0x8 == 0 && modifiers & 0x400_0000 == 0
}

/// Whether the toolkit's value of a key is one of Escape, Return, Enter on the
/// keypad, BackSpace and Tab.
pub open spec fn is_named(key: u32) -> bool {
    key == 0xff1b || key == 0xff0d || key == 0xff8d || key == 0xff08 || key == 0xff09
}

/// What is typed is what is sent: while a session runs, every press of a key
/// without a name sends its character just as it is, unless that is a control
/// character or Control, Alt or Super is held. No key value and no character is
/// an exception.
pub proof fn law_typed_character_is_sent(
    session: LiveSession,
    modifiers: u32,
    key: u32,
    c: char,
)
    requires
        is_plain(modifiers),
        !is_named(key),
        '\u{20}' <= c <= '\u{7e}' || '\u{a0}' <= c,
    ensures
        ({
            let press = KeyPress { modifiers, key, unicode: Some(c) };
            &&& press_outcome(LiveModel::Ready(session), press, false) == KeyModel::Send(seq![c])
            &&& key_meaning(key, Some(c)) == Some(seq![c])
        }),
{
}

/// The keys with a name send it, whatever character the toolkit gives them.
pub proof fn law_named_key_sends_its_name(
    session: LiveSession,
    modifiers: u32,
    unicode: Option<char>,
)
    requires
        is_plain(modifiers),
    ensures
        ({
            let sent = |key: u32|
                press_outcome(
                    LiveModel::Ready(session),
                    KeyPress { modifiers, key, unicode },
                    false,
                );
            &&& sent(0xff1b) == KeyModel::Send("<Esc>"@)
            &&& sent(0xff0d) == KeyModel::Send("<CR>"@)
            &&& sent(0xff8d) == KeyModel::Send("<CR>"@)
            &&& sent(0xff08) == KeyModel::Send("<BS>"@)
            &&& sent(0xff09) == KeyModel::Send("<Tab>"@)
        }),
{
}

/// A key without a name that stands for no character, or for a control character,
/// is left to others in every state.
pub proof fn law_key_without_text_is_left_alone(
    m: LiveModel,
    modifiers: u32,
    key: u32,
    unicode: Option<char>,
    exited: bool,
)
    requires
        !is_named(key),
        unicode matches Some(c) ==> c < '\u{20}' || '\u{7e}' < c < '\u{a0}',
    ensures
        press_outcome(m, KeyPress { modifiers, key, unicode }, exited) == KeyModel::Proceed,
        after_press(m, KeyPress { modifiers, key, unicode }, exited) == m,
        key_meaning(key, unicode) is None,
{
}

/// A key pressed with the bit of Control, Alt or Super set is left to others,
/// whatever other bits are set.
pub proof fn law_modifier_bits_leave_the_key_alone(m: LiveModel, press: KeyPress, exited: bool)
    requires
        !is_plain(press.modifiers),
    ensures
        press_outcome(m, press, exited) == KeyModel::Proceed,
        after_press(m, press, exited) == m,
{
}

/// Without Control, Alt and Super the other modifiers make no difference.
pub proof fn law_other_modifiers_do_not_matter(
    m: LiveModel,
    a: u32,
    b: u32,
    key: u32,
    unicode: Option<char>,
    exited: bool,
)
    requires
        is_plain(a),
        is_plain(b),
    ensures
        press_outcome(m, KeyPress { modifiers: a, key, unicode }, exited) == press_outcome(
            m,
            KeyPress { modifiers: b, key, unicode },
            exited,
        ),
        after_press(m, KeyPress { modifiers: a, key, unicode }, exited) == after_press(
            m,
            KeyPress { modifiers: b, key, unicode },
            exited,
        ),
{
}

/// A press that is text in one state is text in every other: what a running
/// session would be sent is swallowed where none runs or Neovim has exited, and
/// what is left to others there is left to them everywhere.
pub proof fn law_text_is_swallowed_without_a_session(
    session: LiveSession,
    m: LiveModel,
    press: KeyPress,
    exited: bool,
)
    requires
        exited || !(m is Ready),
    ensures
        press_outcome(LiveModel::Ready(session), press, false) is Send <==> press_outcome(
            m,
            press,
            exited,
        ) == KeyModel::Swallow,
        press_outcome(LiveModel::Ready(session), press, false) == KeyModel::Proceed
            <==> press_outcome(m, press, exited) == KeyModel::Proceed,
        after_press(m, press, exited) == m,
{
}

/// A press that is sent asks for a frame, and changes nothing else.
pub proof fn law_sent_key_asks_for_a_frame(session: LiveSession, press: KeyPress)
    ensures
        press_outcome(LiveModel::Ready(session), press, false) is Send ==> after_press(
            LiveModel::Ready(session),
            press,
            false,
        ) == LiveModel::Ready(LiveSession { wants_frame: true, ..session }),
{
}

} // verus!
