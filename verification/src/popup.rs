use vstd::prelude::*;
use crate::action::{Action, ActionView, action_views};
use crate::event::{Event, KeyCode, pressed};
use crate::mode::Mode;
use crate::text::{copy_strings, texts};

verus! {

/// A dialog with a title, a description and a row of buttons, one of which is
/// selected.
pub struct PopupComponent {
    pub title: String,
    pub description: String,
    pub buttons: Vec<String>,
    pub selected: usize,
    pub visible: bool,
}

/// The key pressed while a visible popup is open, with the mode it was opened from.
pub open spec fn popup_key(visible: bool, event: Event, mode: Mode) -> Option<(KeyCode, Mode)> {
    match mode {
        Mode::Popup(prev) => if visible && pressed(event) is Some {
            Some((pressed(event)->0, *prev))
        } else {
            None
        },
        _ => None,
    }
}

/// Whether `key` moves the selection left (`h` or `Left`).
pub open spec fn is_left_key(key: KeyCode) -> bool {
    key == KeyCode::Char('h') || key == KeyCode::Left
}

/// Whether `key` moves the selection right (`l` or `Right`).
pub open spec fn is_right_key(key: KeyCode) -> bool {
    key == KeyCode::Char('l') || key == KeyCode::Right
}

/// The selected button after a key.
pub open spec fn popup_selected(selected: usize, buttons: nat, key: KeyCode) -> usize {
    if is_left_key(key) {
        if selected > 0 { (selected - 1) as usize } else { selected }
    } else if is_right_key(key) {
        if selected + 1 < buttons { (selected + 1) as usize } else { selected }
    } else {
        selected
    }
}

/// The actions a popup sends: closing it with `Esc` returns to the mode it
/// was opened from.
pub open spec fn popup_actions(visible: bool, event: Event, mode: Mode) -> Seq<ActionView> {
    match popup_key(visible, event, mode) {
        Some((key, prev)) => if key == KeyCode::Esc {
            seq![ActionView::Enter(prev)]
        } else {
            Seq::empty()
        },
        None => Seq::empty(),
    }
}

/// A key event the popup cannot take: moving right in a popup without buttons.
pub open spec fn popup_event_faults(p: &PopupComponent, event: Event, mode: Mode) -> bool {
    popup_key(p.visible, event, mode) matches Some((key, _)) && is_right_key(key) && p.buttons@.len() == 0
}

impl PopupComponent {
    /// A hidden popup with the given texts and the first button selected.
    pub fn new(title: String, description: String, buttons: Vec<String>) -> (p: PopupComponent)
        ensures
            p.title == title,
            p.description == description,
            p.buttons == buttons,
            p.selected == 0,
            !p.visible,
    {
        PopupComponent { title, description, buttons, selected: 0, visible: false }
    }

    /// Shows the popup with new texts; the selected button stays.
    pub fn update(&mut self, title: &String, description: &String, buttons: &Vec<String>)
        ensures
            final(self).title@ == title@,
            final(self).description@ == description@,
            texts(final(self).buttons@) == texts(buttons@),
            final(self).selected == old(self).selected,
            final(self).visible,
    {
        self.title = title.clone();
        self.description = description.clone();
        self.buttons = copy_strings(buttons);
        self.visible = true;
    }

    /// Handles a key event while the popup is open: `h`/`Left` and
    /// `l`/`Right` move the selection within the buttons, `Esc` hides the
    /// popup and returns to the mode it was opened from.
    pub fn dispatch_event(&mut self, event: Event, mode: &Mode) -> (actions: Vec<Action>)
        requires
            !popup_event_faults(old(self), event, *mode),
        ensures
            action_views(actions@) == popup_actions(old(self).visible, event, *mode),
            final(self).selected == (match popup_key(old(self).visible, event, *mode) {
                Some((key, _)) => popup_selected(old(self).selected, old(self).buttons@.len(), key),
                None => old(self).selected,
            }),
            final(self).visible == (old(self).visible && !(popup_key(old(self).visible, event, *mode) matches Some((k, _)) && k == KeyCode::Esc)),
            final(self).title == old(self).title,
            final(self).description == old(self).description,
            final(self).buttons == old(self).buttons,
    {
        let mut actions: Vec<Action> = Vec::new();
        if let Mode::Popup(prev_mode) = mode {
            if self.visible {
                if let Some(code) = event.pressed_key() {
                    match code {
                        KeyCode::Char('h') | KeyCode::Left => {
                            if self.selected > 0 {
                                self.selected = self.selected - 1;
                            }
                        },
                        KeyCode::Char('l') | KeyCode::Right => {
                            if self.selected < self.buttons.len() - 1 {
                                self.selected = self.selected + 1;
                            }
                        },
                        KeyCode::Char(' ') | KeyCode::Enter => {},
                        KeyCode::Esc => {
                            self.visible = false;
                            actions.push(Action::Enter(prev_mode.duplicate()));
                        },
                        _ => {},
                    }
                }
            }
        }
        proof {
            assert(action_views(actions@) =~= popup_actions(old(self).visible, event, *mode));
        }
        actions
    }
}

/// The selected button of a popup with buttons stays on one of them, whatever
/// key is pressed.
pub proof fn lemma_popup_selection_in_range(selected: usize, buttons: nat, key: KeyCode)
    requires
        selected < buttons,
    ensures
        popup_selected(selected, buttons, key) < buttons,
{
}

} // verus!
