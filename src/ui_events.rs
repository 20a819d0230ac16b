//! Key handling of the terminal UI as a state machine: from the current
//! flags, a key and the active window to the next flags, the commands for the
//! UI, and whether to quit.

use vstd::prelude::*;

verus! {

/// A key press, as far as the UI tells keys apart.
#[derive(Clone, Copy, Debug, PartialEq, Eq, Structural)]
pub enum Key {
    Char(char),
    Up,
    Down,
    PageUp,
    PageDown,
    Home,
    End,
    Other,
}

/// The window that has the focus.
#[derive(Clone, Copy, Debug, PartialEq, Eq, Structural)]
pub enum ActiveWindow {
    Table,
    Request,
    Response,
    Other,
}

/// What the UI is told to do, in order.
#[derive(Clone, Copy, Debug, PartialEq, Eq, Structural)]
pub enum UiCommand {
    HideConfirmation,
    ClearStatusbar,
    HideHelp,
    HideErrors,
    ShowExitConfirmation,
    ShowConfirmationPrompt,
    ShowHelp,
    ShowErrors,
    CancelFullscreen,
    ShowFullscreen,
    ActivateRequest,
    ActivateResponse,
    ActivateProxy,
    TableStepUp,
    TableStepDown,
    ScrollRequest(i64),
    ScrollResponse(i64),
    TablePageUp,
    TablePageDown,
    TableHome,
    TableEnd,
}

/// The flags of the UI's event handling.
#[derive(Clone, Copy, Debug, PartialEq, Eq, Structural)]
pub struct UIEvents {
    pub something_changed: bool,
    pub table_state_changed: bool,
    pub popup_enabled: bool,
    pub entered_fullscreen: bool,
    pub confirmation: bool,
    pub input_mode: bool,
}

/// The outcome of one key: the next flags, the commands, and whether to quit.
pub struct KeyStep {
    pub next: UIEvents,
    pub commands: Seq<UiCommand>,
    pub quit: bool,
}

/// Switches the focus with `activate`, leaving full screen around it if on.
pub open spec fn focus_step(s: UIEvents, activate: UiCommand) -> KeyStep {
    KeyStep {
        next: UIEvents { something_changed: true, table_state_changed: true, ..s },
        commands: if s.entered_fullscreen {
            seq![UiCommand::CancelFullscreen, activate, UiCommand::ShowFullscreen]
        } else {
            seq![activate]
        },
        quit: false,
    }
}

/// Nothing happens.
pub open spec fn idle_step(s: UIEvents) -> KeyStep {
    KeyStep { next: s, commands: Seq::<UiCommand>::empty(), quit: false }
}

/// What a printable key does.
pub open spec fn char_step(s: UIEvents, c: char) -> KeyStep {
    if s.input_mode {
        idle_step(s)
    } else if s.confirmation {
        if c == 'y' {
            KeyStep { next: UIEvents { confirmation: false, ..s }, commands: seq![UiCommand::HideConfirmation], quit: true }
        } else if c == 'n' {
            KeyStep {
                next: UIEvents { confirmation: false, ..s },
                commands: seq![UiCommand::HideConfirmation, UiCommand::ClearStatusbar],
                quit: false,
            }
        } else {
            idle_step(s)
        }
    } else if c == 'q' {
        if s.popup_enabled {
            KeyStep {
                next: UIEvents { something_changed: true, popup_enabled: false, ..s },
                commands: seq![UiCommand::HideHelp, UiCommand::HideErrors],
                quit: false,
            }
        } else {
            KeyStep {
                next: UIEvents { confirmation: true, ..s },
                commands: seq![UiCommand::ShowExitConfirmation, UiCommand::ShowConfirmationPrompt],
                quit: false,
            }
        }
    } else if s.popup_enabled {
        idle_step(s)
    } else if c == '?' {
        KeyStep { next: UIEvents { popup_enabled: true, something_changed: true, ..s }, commands: seq![UiCommand::ShowHelp], quit: false }
    } else if c == 'e' {
        KeyStep { next: UIEvents { popup_enabled: true, something_changed: true, ..s }, commands: seq![UiCommand::ShowErrors], quit: false }
    } else if c == 'r' {
        focus_step(s, UiCommand::ActivateRequest)
    } else if c == 's' {
        focus_step(s, UiCommand::ActivateResponse)
    } else if c == 'p' {
        focus_step(s, UiCommand::ActivateProxy)
    } else if c == 'f' {
        KeyStep {
            next: UIEvents { something_changed: true, table_state_changed: true, entered_fullscreen: !s.entered_fullscreen, ..s },
            commands: if s.entered_fullscreen { seq![UiCommand::CancelFullscreen] } else { seq![UiCommand::ShowFullscreen] },
            quit: false,
        }
    } else {
        idle_step(s)
    }
}

/// What an arrow key does: step through the table, or scroll the focused message.
pub open spec fn arrow_step(s: UIEvents, a: ActiveWindow, table: UiCommand, delta: i64) -> KeyStep {
    match a {
        ActiveWindow::Table => KeyStep {
            next: UIEvents { something_changed: true, table_state_changed: true, ..s },
            commands: seq![table],
            quit: false,
        },
        ActiveWindow::Request => KeyStep {
            next: UIEvents { something_changed: true, ..s },
            commands: seq![UiCommand::ScrollRequest(delta)],
            quit: false,
        },
        ActiveWindow::Response => KeyStep {
            next: UIEvents { something_changed: true, ..s },
            commands: seq![UiCommand::ScrollResponse(delta)],
            quit: false,
        },
        ActiveWindow::Other => idle_step(s),
    }
}

/// What a paging key does: move through the table when no popup is shown.
pub open spec fn page_step(s: UIEvents, a: ActiveWindow, cmd: UiCommand) -> KeyStep {
    if !s.popup_enabled && a == ActiveWindow::Table {
        KeyStep { next: UIEvents { something_changed: true, table_state_changed: true, ..s }, commands: seq![cmd], quit: false }
    } else {
        idle_step(s)
    }
}

/// What a key does in state `s` with window `a` focused.
pub open spec fn key_step(s: UIEvents, k: Key, a: ActiveWindow) -> KeyStep {
    match k {
        Key::Char(c) => char_step(s, c),
        Key::Up => arrow_step(s, a, UiCommand::TableStepUp, -5i64),
        Key::Down => arrow_step(s, a, UiCommand::TableStepDown, 5i64),
        Key::PageUp => page_step(s, a, UiCommand::TablePageUp),
        Key::PageDown => page_step(s, a, UiCommand::TablePageDown),
        Key::Home => page_step(s, a, UiCommand::TableHome),
        Key::End => page_step(s, a, UiCommand::TableEnd),
        Key::Other => idle_step(s),
    }
}

impl Default for UIEvents {
    fn default() -> (r: UIEvents)
        ensures
            r == (UIEvents {
                something_changed: true,
                table_state_changed: false,
                popup_enabled: false,
                entered_fullscreen: false,
                confirmation: false,
                input_mode: false,
            }),
    {
        UIEvents::new()
    }
}

impl UIEvents {
    /// The flags at start: a first draw is due, nothing else is on.
    pub fn new() -> (r: UIEvents)
        ensures
            r == (UIEvents {
                something_changed: true,
                table_state_changed: false,
                popup_enabled: false,
                entered_fullscreen: false,
                confirmation: false,
                input_mode: false,
            }),
    {
        UIEvents {
            something_changed: true,
            table_state_changed: false,
            popup_enabled: false,
            entered_fullscreen: false,
            confirmation: false,
            input_mode: false,
        }
    }

    /// Marks that the screen must be drawn again.
    pub fn something_changed(&mut self)
        ensures
            *final(self) == (UIEvents { something_changed: true, ..*old(self) }),
    {
        self.something_changed = true;
    }

    /// Switches the focus with `activate`.
    fn focus(&mut self, activate: UiCommand, out: &mut Vec<UiCommand>)
        requires
            old(out)@.len() == 0,
        ensures
            *final(self) == focus_step(*old(self), activate).next,
            final(out)@ == focus_step(*old(self), activate).commands,
    {
        if self.entered_fullscreen {
            out.push(UiCommand::CancelFullscreen);
        }
        out.push(activate);
        if self.entered_fullscreen {
            out.push(UiCommand::ShowFullscreen);
        }
        self.something_changed = true;
        self.table_state_changed = true;
        assert(out@ =~= focus_step(*old(self), activate).commands);
    }

    /// Handles one key with window `active` focused: updates the flags and
    /// gives the commands for the UI, in order, and whether to quit.
    pub fn process_event(&mut self, key: Key, active: ActiveWindow) -> (r: (bool, Vec<UiCommand>))
        ensures
            *final(self) == key_step(*old(self), key, active).next,
            r.1@ == key_step(*old(self), key, active).commands,
            r.0 == key_step(*old(self), key, active).quit,
    {
        let mut out: Vec<UiCommand> = Vec::new();
        let mut quit = false;
        match key {
            Key::Char(c) => {
                if self.input_mode {
                } else if self.confirmation {
                    if c == 'y' {
                        out.push(UiCommand::HideConfirmation);
                        self.confirmation = false;
                        quit = true;
                    } else if c == 'n' {
                        out.push(UiCommand::HideConfirmation);
                        out.push(UiCommand::ClearStatusbar);
                        self.confirmation = false;
                    }
                } else if c == 'q' {
                    if self.popup_enabled {
                        out.push(UiCommand::HideHelp);
                        out.push(UiCommand::HideErrors);
                        self.something_changed = true;
                        self.popup_enabled = false;
                    } else {
                        out.push(UiCommand::ShowExitConfirmation);
                        out.push(UiCommand::ShowConfirmationPrompt);
                        self.confirmation = true;
                    }
                } else if self.popup_enabled {
                } else if c == '?' {
                    out.push(UiCommand::ShowHelp);
                    self.popup_enabled = true;
                    self.something_changed = true;
                } else if c == 'e' {
                    out.push(UiCommand::ShowErrors);
                    self.popup_enabled = true;
                    self.something_changed = true;
                } else if c == 'r' {
                    self.focus(UiCommand::ActivateRequest, &mut out);
                } else if c == 's' {
                    self.focus(UiCommand::ActivateResponse, &mut out);
                } else if c == 'p' {
                    self.focus(UiCommand::ActivateProxy, &mut out);
                } else if c == 'f' {
                    if self.entered_fullscreen {
                        out.push(UiCommand::CancelFullscreen);
                    } else {
                        out.push(UiCommand::ShowFullscreen);
                    }
                    self.something_changed = true;
                    self.table_state_changed = true;
                    self.entered_fullscreen = !self.entered_fullscreen;
                }
            },
            Key::Up | Key::Down => {
                let up = match key {
                    Key::Up => true,
                    _ => false,
                };
                match active {
                    ActiveWindow::Table => {
                        out.push(if up { UiCommand::TableStepUp } else { UiCommand::TableStepDown });
                        self.table_state_changed = true;
                        self.something_changed = true;
                    },
                    ActiveWindow::Request => {
                        out.push(UiCommand::ScrollRequest(if up { -5 } else { 5 }));
                        self.something_changed = true;
                    },
                    ActiveWindow::Response => {
                        out.push(UiCommand::ScrollResponse(if up { -5 } else { 5 }));
                        self.something_changed = true;
                    },
                    ActiveWindow::Other => {},
                }
            },
            Key::PageUp | Key::PageDown | Key::Home | Key::End => {
                if !self.popup_enabled && active == ActiveWindow::Table {
                    let cmd = match key {
                        Key::PageUp => UiCommand::TablePageUp,
                        Key::PageDown => UiCommand::TablePageDown,
                        Key::Home => UiCommand::TableHome,
                        _ => UiCommand::TableEnd,
                    };
                    out.push(cmd);
                    self.something_changed = true;
                    self.table_state_changed = true;
                }
            },
            Key::Other => {},
        }
        assert(out@ =~= key_step(*old(self), key, active).commands);
        (quit, out)
    }
}

} // verus!
