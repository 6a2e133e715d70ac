//! Keys that switch between the agents of a session.

use super::sudo_overlay::{ALT, KeyCode, KeyEvent, KeyEventKind};
use vstd::prelude::*;

verus! {

/// A key binding matches a key that goes down or repeats with exactly the
/// binding's modifiers.
pub open spec fn binding_pressed(code: KeyCode, modifiers: u8, key: KeyEvent) -> bool {
    key.code == code && key.modifiers == modifiers && key.kind != KeyEventKind::Release
}

/// The word-motion fallback: where terminals send Option+b/f in place of
/// Option+arrows (macOS without enhanced key reporting), and only while the
/// caller allows it (an empty composer keeps word motion for drafts).
pub open spec fn word_motion_fallback(key: KeyEvent, letter: char, allow: bool, macos: bool) -> bool {
    macos && allow && key.code == KeyCode::Char(letter) && key.modifiers == ALT && key.kind
        != KeyEventKind::Release
}

fn pressed(code: KeyCode, modifiers: u8, key: KeyEvent) -> (b: bool)
    ensures
        b == binding_pressed(code, modifiers, key),
{
    key.code == code && key.modifiers == modifiers && key.kind != KeyEventKind::Release
}

fn fallback(key: KeyEvent, letter: char, allow: bool, macos: bool) -> (b: bool)
    ensures
        b == word_motion_fallback(key, letter, allow, macos),
{
    macos && allow && key.code == KeyCode::Char(letter) && key.modifiers == ALT && key.kind
        != KeyEventKind::Release
}

/// Alt+Left, or Option+b where the fallback applies, selects the previous agent.
pub fn previous_agent_shortcut_matches(key: KeyEvent, allow_word_motion_fallback: bool, macos: bool) -> (b:
    bool)
    ensures
        b == (binding_pressed(KeyCode::Left, ALT, key) || word_motion_fallback(
            key,
            'b',
            allow_word_motion_fallback,
            macos,
        )),
{
    pressed(KeyCode::Left, ALT, key) || fallback(key, 'b', allow_word_motion_fallback, macos)
}

/// Alt+Right, or Option+f where the fallback applies, selects the next agent.
pub fn next_agent_shortcut_matches(key: KeyEvent, allow_word_motion_fallback: bool, macos: bool) -> (b:
    bool)
    ensures
        b == (binding_pressed(KeyCode::Right, ALT, key) || word_motion_fallback(
            key,
            'f',
            allow_word_motion_fallback,
            macos,
        )),
{
    pressed(KeyCode::Right, ALT, key) || fallback(key, 'f', allow_word_motion_fallback, macos)
}

} // verus!
