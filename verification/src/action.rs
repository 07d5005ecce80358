//! What a key press asks of the interface.

use vstd::prelude::*;
use crate::app::Focus;

verus! {

/// A request from the user, in the terms of the interface's state.
#[derive(Clone, Copy, PartialEq, Eq, Debug, Structural)]
pub enum Action {
    Quit,
    FocusList,
    FocusForm,
    TableMoveUp,
    TableMoveDown,
    ToggleTimer,
    DeleteTimer,
    FormMoveUp,
    FormMoveDown,
    SubmitForm,
    RemoveChar,
    AddChar(char),
}

/// The keys that the interface tells apart; every other key is `Other`.
#[derive(Clone, Copy, PartialEq, Eq, Debug, Structural)]
pub enum Key {
    Up,
    Down,
    Enter,
    Backspace,
    Delete,
    Tab,
    Esc,
    Char(char),
    Other,
}

/// A key press: the key, and whether Control was held.
#[derive(Clone, Copy, PartialEq, Eq, Debug, Structural)]
pub struct KeyPress {
    pub code: Key,
    pub ctrl: bool,
}

/// The action that `key` asks for while `focus` has the focus.
pub open spec fn key_action(key: KeyPress, focus: Focus) -> Option<Action> {
    if key.code == Key::Char('c') && key.ctrl {
        Some(Action::Quit)
    } else {
        match focus {
            Focus::List => match key.code {
                Key::Up => Some(Action::TableMoveUp),
                Key::Down => Some(Action::TableMoveDown),
                Key::Enter => Some(Action::ToggleTimer),
                Key::Char(' ') => Some(Action::ToggleTimer),
                Key::Backspace => Some(Action::DeleteTimer),
                Key::Delete => Some(Action::DeleteTimer),
                Key::Char('n') => Some(Action::FocusForm),
                Key::Esc => Some(Action::Quit),
                _ => None,
            },
            Focus::Form => match key.code {
                Key::Up => Some(Action::FormMoveUp),
                Key::Down => Some(Action::FormMoveDown),
                Key::Tab => Some(Action::FormMoveDown),
                Key::Enter => Some(Action::SubmitForm),
                Key::Backspace => Some(Action::RemoveChar),
                Key::Esc => Some(Action::FocusList),
                Key::Char(c) => Some(Action::AddChar(c)),
                _ => None,
            },
        }
    }
}

/// Maps a key press to an action; `None` for keys that do nothing where the
/// focus is. Control-C quits from anywhere.
pub fn map_key(key: KeyPress, focus: Focus) -> (r: Option<Action>)
    ensures
        r == key_action(key, focus),
{
    if key.ctrl {
        if let Key::Char(ch) = key.code {
            if ch == 'c' {
                return Some(Action::Quit);
            }
        }
    }
    match (key.code, focus) {
        (Key::Up, Focus::List) => Some(Action::TableMoveUp),
        (Key::Down, Focus::List) => Some(Action::TableMoveDown),
        (Key::Enter, Focus::List) => Some(Action::ToggleTimer),
        (Key::Char(' '), Focus::List) => Some(Action::ToggleTimer),
        (Key::Backspace, Focus::List) | (Key::Delete, Focus::List) => Some(Action::DeleteTimer),
        (Key::Char('n'), Focus::List) => Some(Action::FocusForm),
        (Key::Esc, Focus::List) => Some(Action::Quit),
        (Key::Up, Focus::Form) => Some(Action::FormMoveUp),
        (Key::Down, Focus::Form) | (Key::Tab, Focus::Form) => Some(Action::FormMoveDown),
        (Key::Enter, Focus::Form) => Some(Action::SubmitForm),
        (Key::Backspace, Focus::Form) => Some(Action::RemoveChar),
        (Key::Esc, Focus::Form) => Some(Action::FocusList),
        (Key::Char(c), Focus::Form) => Some(Action::AddChar(c)),
        _ => None,
    }
}

/// Control-C quits whatever has the focus.
pub proof fn law_ctrl_c_quits(focus: Focus)
    ensures
        key_action(KeyPress { code: Key::Char('c'), ctrl: true }, focus) == Some(Action::Quit),
{
}

/// In the list, a character key other than space, `n` and Control-C does
/// nothing.
pub proof fn law_list_ignores_other_characters(c: char, ctrl: bool)
    requires
        c != ' ',
        c != 'n',
        !(c == 'c' && ctrl),
    ensures
        key_action(KeyPress { code: Key::Char(c), ctrl }, Focus::List) is None,
{
}

/// Only Backspace and Delete, and only in the list, delete a timer.
pub proof fn law_only_backspace_and_delete_remove(key: KeyPress, focus: Focus)
    ensures
        key_action(key, focus) == Some(Action::DeleteTimer) <==> (focus == Focus::List && (
        key.code == Key::Backspace || key.code == Key::Delete)),
{
}

/// In the form, every character key without Control-C is typed into the
/// focused field.
pub proof fn law_form_types_characters(c: char, ctrl: bool)
    requires
        !(c == 'c' && ctrl),
    ensures
        key_action(KeyPress { code: Key::Char(c), ctrl }, Focus::Form) == Some(Action::AddChar(c)),
{
}

} // verus!
