//! The keys of the picker and what each of them asks for.

use vstd::prelude::*;

verus! {

/// A key, as far as the picker tells keys apart.
#[derive(Clone, Copy, Debug, PartialEq, Eq, Structural)]
pub enum KeyCode {
    Up,
    Down,
    Left,
    Right,
    Enter,
    Esc,
    /// A key that types the given character.
    Char(char),
    /// Any other key.
    Other,
}

/// The modifier keys held down together with a key.
#[derive(Clone, Copy, Debug, PartialEq, Eq, Structural)]
pub struct KeyModifiers {
    pub shift: bool,
    pub control: bool,
    pub alt: bool,
    pub super_key: bool,
    pub hyper: bool,
    pub meta: bool,
}

impl KeyModifiers {
    /// No modifier is held.
    pub open spec fn is_none(self) -> bool {
        !self.shift && !self.control && !self.alt && !self.super_key && !self.hyper && !self.meta
    }

    /// Control is held, and no other modifier.
    pub open spec fn is_control_only(self) -> bool {
        !self.shift && self.control && !self.alt && !self.super_key && !self.hyper && !self.meta
    }

    /// No modifier.
    pub fn none() -> (m: KeyModifiers)
        ensures
            m.is_none(),
    {
        KeyModifiers {
            shift: false,
            control: false,
            alt: false,
            super_key: false,
            hyper: false,
            meta: false,
        }
    }

    /// Control alone.
    pub fn control() -> (m: KeyModifiers)
        ensures
            m.is_control_only(),
    {
        KeyModifiers {
            shift: false,
            control: true,
            alt: false,
            super_key: false,
            hyper: false,
            meta: false,
        }
    }
}

/// One press of a key.
#[derive(Clone, Copy, Debug, PartialEq, Eq, Structural)]
pub struct KeyPress {
    pub code: KeyCode,
    pub modifiers: KeyModifiers,
}

/// What a key press asks the picker to do.
#[derive(Clone, Copy, Debug, PartialEq, Eq, Structural)]
pub enum Command {
    /// Move the cursor one pane up the list.
    MoveEarlier,
    /// Move the cursor one pane down the list.
    MoveLater,
    /// Take the pane under the cursor.
    Confirm,
    /// Leave without a pane.
    Cancel,
    /// Nothing.
    Ignore,
}

/// The letters that move the cursor up the list, as the arrows up and left do.
pub open spec fn is_earlier_letter(c: char) -> bool {
    c == 'w' || c == 'W' || c == 'k' || c == 'K' || c == 'a' || c == 'A' || c == 'h' || c == 'H'
}

/// The letters that move the cursor down the list, as the arrows down and
/// right do.
pub open spec fn is_later_letter(c: char) -> bool {
    c == 's' || c == 'S' || c == 'j' || c == 'J' || c == 'd' || c == 'D' || c == 'l' || c == 'L'
}

/// What a key press asks for. Without a modifier: the arrows and their
/// letters move, Enter confirms, `q`, `Q` and Esc cancel. With Control alone,
/// `c` cancels. Everything else asks for nothing.
pub open spec fn command_of(key: KeyPress) -> Command {
    if key.modifiers.is_none() {
        match key.code {
            KeyCode::Up | KeyCode::Left => Command::MoveEarlier,
            KeyCode::Down | KeyCode::Right => Command::MoveLater,
            KeyCode::Enter => Command::Confirm,
            KeyCode::Esc => Command::Cancel,
            KeyCode::Char(c) => if is_earlier_letter(c) {
                Command::MoveEarlier
            } else if is_later_letter(c) {
                Command::MoveLater
            } else if c == 'q' || c == 'Q' {
                Command::Cancel
            } else {
                Command::Ignore
            },
            KeyCode::Other => Command::Ignore,
        }
    } else if key.modifiers.is_control_only() && key.code == KeyCode::Char('c') {
        Command::Cancel
    } else {
        Command::Ignore
    }
}

/// What a key press asks for.
pub fn classify(key: KeyPress) -> (command: Command)
    ensures
        command == command_of(key),
{
    let m = key.modifiers;
    let others = m.shift || m.alt || m.super_key || m.hyper || m.meta;
    if others {
        Command::Ignore
    } else if m.control {
        match key.code {
            KeyCode::Char('c') => Command::Cancel,
            _ => Command::Ignore,
        }
    } else {
        match key.code {
            KeyCode::Up | KeyCode::Left => Command::MoveEarlier,
            KeyCode::Down | KeyCode::Right => Command::MoveLater,
            KeyCode::Enter => Command::Confirm,
            KeyCode::Esc => Command::Cancel,
            KeyCode::Char('w' | 'W' | 'k' | 'K' | 'a' | 'A' | 'h' | 'H') => Command::MoveEarlier,
            KeyCode::Char('s' | 'S' | 'j' | 'J' | 'd' | 'D' | 'l' | 'L') => Command::MoveLater,
            KeyCode::Char('q' | 'Q') => Command::Cancel,
            _ => Command::Ignore,
        }
    }
}

/// The keys that cancel: `q`, `Q` and Esc without a modifier, and `c` with
/// Control alone.
pub proof fn cancelling_keys()
    ensures
        forall|m: KeyModifiers|
            m.is_none() ==> command_of(KeyPress { code: KeyCode::Char('q'), modifiers: m })
                == Command::Cancel && command_of(
                KeyPress { code: KeyCode::Char('Q'), modifiers: m },
            ) == Command::Cancel && #[trigger] command_of(
                KeyPress { code: KeyCode::Esc, modifiers: m },
            ) == Command::Cancel,
        forall|m: KeyModifiers|
            m.is_control_only() ==> #[trigger] command_of(
                KeyPress { code: KeyCode::Char('c'), modifiers: m },
            ) == Command::Cancel,
{
}

} // verus!
