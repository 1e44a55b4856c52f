//! Keyboard input: the key events the terminal delivers, and their
//! mapping into actions and edits of the input buffers.

use vstd::prelude::*;
use crate::action::{Action, ToolCallConfirmation};
use crate::app::{App, Tab};
use crate::text::{pop_char, push_char, trim, trimmed};

verus! {

/// The key that was pressed.
#[derive(Debug, Clone, Copy, PartialEq, Eq, Structural)]
pub enum KeyCode {
    Char(char),
    Enter,
    Backspace,
    Esc,
    Tab,
    Up,
    Down,
    PageUp,
    PageDown,
    /// Any other key.
    Other,
}

/// Whether a key went down, repeated or came up.
#[derive(Debug, Clone, Copy, PartialEq, Eq, Structural)]
pub enum KeyEventKind {
    Press,
    Repeat,
    Release,
}

/// The modifier keys held with a key, as a bit set: shift 1, control 2,
/// alt 4, super 8, hyper 16, meta 32.
#[derive(Debug, Clone, Copy, PartialEq, Eq, Structural)]
pub struct KeyModifiers {
    pub bits: u8,
}

/// One key event.
#[derive(Debug, Clone, Copy, PartialEq, Eq, Structural)]
pub struct KeyEvent {
    pub code: KeyCode,
    pub modifiers: KeyModifiers,
    pub kind: KeyEventKind,
}


/// The modifier bits of the control key alone.
pub open spec fn control() -> u8 {
    2
}

/// The action of a global shortcut, if the key is one: Ctrl+C quits,
/// Ctrl+N opens a tab, Ctrl+K toggles the palette, Ctrl+B the sidebar,
/// Ctrl+Tab selects the next agent, Ctrl+1/2/3 an agent by position.
pub open spec fn shortcut(key: KeyEvent) -> Option<Action> {
    if key.kind == KeyEventKind::Release || key.modifiers.bits != control() {
        None
    } else {
        match key.code {
            KeyCode::Char('c') => Some(Action::Shutdown),
            KeyCode::Char('n') => Some(Action::NewTab),
            KeyCode::Char('k') => Some(Action::OpenCommandPalette),
            KeyCode::Char('b') => Some(Action::ToggleSidebar),
            KeyCode::Tab => Some(Action::SwitchAgentNext),
            KeyCode::Char('1') => Some(Action::SwitchAgentByIndex(0)),
            KeyCode::Char('2') => Some(Action::SwitchAgentByIndex(1)),
            KeyCode::Char('3') => Some(Action::SwitchAgentByIndex(2)),
            _ => None,
        }
    }
}

/// The action of a global shortcut, if the key is one.
pub fn key_event_to_action(key: &KeyEvent) -> (r: Option<Action>)
    ensures
        r == shortcut(*key),
{
    if key.kind == KeyEventKind::Release {
        return None;
    }
    if key.modifiers.bits != 2 {
        return None;
    }
    match key.code {
        KeyCode::Char('c') => Some(Action::Shutdown),
        KeyCode::Char('n') => Some(Action::NewTab),
        KeyCode::Char('k') => Some(Action::OpenCommandPalette),
        KeyCode::Char('b') => Some(Action::ToggleSidebar),
        KeyCode::Tab => Some(Action::SwitchAgentNext),
        KeyCode::Char('1') => Some(Action::SwitchAgentByIndex(0)),
        KeyCode::Char('2') => Some(Action::SwitchAgentByIndex(1)),
        KeyCode::Char('3') => Some(Action::SwitchAgentByIndex(2)),
        _ => None,
    }
}

/// Ctrl with a digit from 1 to 3 selects the agent at that position,
/// counted from one: Ctrl+1 the first, Ctrl+2 the second, Ctrl+3 the third.
pub proof fn law_ctrl_digit_selects_agent(key: KeyEvent, d: char)
    requires
        key.kind != KeyEventKind::Release,
        key.modifiers.bits == 2,
        key.code == KeyCode::Char(d),
        '1' <= d <= '3',
    ensures
        shortcut(key) == Some(Action::SwitchAgentByIndex((d as u32 - '1' as u32) as usize)),
{
}

/// The global shortcuts: pressed with Ctrl alone, C quits, N opens a tab,
/// K toggles the palette, B the sidebar, Tab selects the next agent; a key
/// released, or pressed without exactly Ctrl, is no shortcut.
pub proof fn law_shortcuts(key: KeyEvent)
    ensures
        (key.kind == KeyEventKind::Release || key.modifiers.bits != 2) ==> shortcut(key) is None,
        (key.kind != KeyEventKind::Release && key.modifiers.bits == 2) ==> {
            &&& key.code == KeyCode::Char('c') ==> shortcut(key) == Some(Action::Shutdown)
            &&& key.code == KeyCode::Char('n') ==> shortcut(key) == Some(Action::NewTab)
            &&& key.code == KeyCode::Char('k') ==> shortcut(key) == Some(Action::OpenCommandPalette)
            &&& key.code == KeyCode::Char('b') ==> shortcut(key) == Some(Action::ToggleSidebar)
            &&& key.code == KeyCode::Tab ==> shortcut(key) == Some(Action::SwitchAgentNext)
            &&& key.code == KeyCode::Enter ==> shortcut(key) is None
        },
{
}

/// The key types text: a character with no modifier or with shift alone.
pub open spec fn is_typing(key: KeyEvent) -> bool {
    key.code is Char && (key.modifiers.bits == 0 || key.modifiers.bits == 1)
}

/// `post` is `pre` after the palette handled `key`, and `r` the action it
/// produced: Enter submits a non-blank input and closes the palette on a
/// blank one, Esc closes it, typing and space extend the input, Backspace
/// removes its last character.
pub open spec fn palette_key_spec(pre: App, key: KeyEvent, post: App, r: Option<Action>) -> bool {
    match key.code {
        KeyCode::Enter => post == pre && r == (if trim(pre.command_palette_input@).len() > 0 {
            Some(Action::CommandPaletteSubmit(pre.command_palette_input))
        } else {
            Some(Action::OpenCommandPalette)
        }),
        KeyCode::Esc => post == pre && r == Some(Action::OpenCommandPalette),
        KeyCode::Char(c) => r is None && post == (App { command_palette_input: post.command_palette_input, ..pre })
            && if is_typing(key) {
            post.command_palette_input@ == pre.command_palette_input@.push(c)
        } else if c == ' ' {
            post.command_palette_input@ == pre.command_palette_input@.push(' ')
        } else {
            post.command_palette_input == pre.command_palette_input
        },
        KeyCode::Backspace => r is None && post == (App { command_palette_input: post.command_palette_input, ..pre })
            && post.command_palette_input@ == (if pre.command_palette_input@.len() > 0 {
            pre.command_palette_input@.drop_last()
        } else {
            pre.command_palette_input@
        }),
        _ => post == pre && r is None,
    }
}

/// Handles a key while the command palette is open.
pub fn process_command_palette_key(app: &mut App, key: KeyEvent) -> (r: Option<Action>)
    ensures
        palette_key_spec(*old(app), key, *final(app), r),
{
    match key.code {
        KeyCode::Enter => {
            let input = app.command_palette_input.clone();
            let t = trimmed(input.as_str());
            if !t.as_str().is_empty() {
                Some(Action::CommandPaletteSubmit(input))
            } else {
                Some(Action::OpenCommandPalette)
            }
        },
        KeyCode::Esc => Some(Action::OpenCommandPalette),
        KeyCode::Char(c) => {
            if key.modifiers.bits == 0 || key.modifiers.bits == 1 {
                push_char(&mut app.command_palette_input, c);
            } else if c == ' ' {
                push_char(&mut app.command_palette_input, ' ');
            }
            None
        },
        KeyCode::Backspace => {
            pop_char(&mut app.command_palette_input);
            None
        },
        _ => None,
    }
}

/// `post` is `pre` with the active tab replaced by `t`.
pub open spec fn active_tab_set(pre: App, post: App, t: Tab) -> bool {
    &&& post == (App { tabs: post.tabs, ..pre })
    &&& post.tabs@ == pre.tabs@.update(pre.active_tab as int, t)
}

/// `x` lowered by up to five, not below zero.
pub open spec fn page_up_offset(x: usize) -> usize {
    if x >= 5 {
        (x - 5) as usize
    } else {
        0
    }
}

/// `post` is `pre` after the chat input handled `key`, and `r` the action
/// it produced: Enter submits a non-blank input, typing and space extend
/// the input, Backspace removes its last character, Up and Down scroll by a
/// line, PageUp and PageDown by five.
pub open spec fn input_key_spec(pre: App, key: KeyEvent, post: App, r: Option<Action>) -> bool {
    let pt = pre.tabs@[pre.active_tab as int];
    match key.code {
        KeyCode::Enter => post == pre && r == (if trim(pt.input_buffer@).len() > 0 {
            Some(Action::SubmitMessage(pt.input_buffer))
        } else {
            None
        }),
        KeyCode::Char(c) => r is None && if is_typing(key) || c == ' ' {
            let qt = post.tabs@[pre.active_tab as int];
            active_tab_set(pre, post, qt) && qt == (Tab { input_buffer: qt.input_buffer, ..pt })
                && qt.input_buffer@ == pt.input_buffer@.push(c)
        } else {
            post == pre
        },
        KeyCode::Backspace => {
            let qt = post.tabs@[pre.active_tab as int];
            r is None && active_tab_set(pre, post, qt) && qt == (Tab { input_buffer: qt.input_buffer, ..pt })
                && qt.input_buffer@ == (if pt.input_buffer@.len() > 0 {
                pt.input_buffer@.drop_last()
            } else {
                pt.input_buffer@
            })
        },
        KeyCode::Up => post == pre && r == Some(Action::ScrollUp),
        KeyCode::Down => post == pre && r == Some(Action::ScrollDown),
        KeyCode::PageUp => r is None && active_tab_set(
            pre,
            post,
            Tab { scroll_offset: page_up_offset(pt.scroll_offset), auto_scroll: false, ..pt },
        ),
        KeyCode::PageDown => r is None && active_tab_set(
            pre,
            post,
            Tab { scroll_offset: (pt.scroll_offset + 5) as usize, ..pt },
        ),
        _ => post == pre && r is None,
    }
}

/// The answer to the tool call awaiting confirmation: Y or y confirms it,
/// N, n or Esc refuses it, and any other key is ignored.
pub open spec fn confirmation_answer(c: ToolCallConfirmation, key: KeyEvent) -> Option<Action> {
    match key.code {
        KeyCode::Char('y') | KeyCode::Char('Y') => Some(Action::ConfirmToolCall(c)),
        KeyCode::Char('n') | KeyCode::Char('N') | KeyCode::Esc => Some(
            Action::RejectToolCall { tab_id: c.tab_id, call_id: c.call_id },
        ),
        _ => None,
    }
}

/// `post` is `pre` after `key`, and `r` the action to apply: a released key
/// does nothing; while a tool call awaits confirmation only the answer to
/// the oldest one counts; otherwise a shortcut gives its action, the open
/// palette takes the key, and else the chat input does.
pub open spec fn process_key_spec(pre: App, key: KeyEvent, post: App, r: Option<Action>) -> bool {
    if key.kind == KeyEventKind::Release {
        post == pre && r is None
    } else if pre.confirmations@.len() > 0 {
        post == pre && r == confirmation_answer(pre.confirmations@[0], key)
    } else if shortcut(key) is Some {
        post == pre && r == shortcut(key)
    } else if pre.command_palette_open {
        palette_key_spec(pre, key, post, r)
    } else {
        input_key_spec(pre, key, post, r)
    }
}

/// The chat input takes `key`: it is pressed, no tool call awaits an
/// answer, it is no shortcut and the palette is closed.
pub open spec fn reaches_input(app: App, key: KeyEvent) -> bool {
    key.kind != KeyEventKind::Release && app.confirmations@.len() == 0 && shortcut(key) is None
        && !app.command_palette_open
}

/// Paging down in the chat input cannot overflow the scroll offset.
pub open spec fn process_key_requires(app: App, key: KeyEvent) -> bool {
    &&& app.wf()
    &&& (reaches_input(app, key) && key.code == KeyCode::PageDown) ==> app.tabs@[app.active_tab as int].scroll_offset
        + 5 <= usize::MAX
}

/// Handles a key: the answer to a pending tool call first, then global
/// shortcuts, then the palette when it is open, then the chat input. Edits of the input buffers happen here; everything
/// else is returned as an action for `update`.
pub fn process_key(app: &mut App, key: KeyEvent) -> (r: Option<Action>)
    requires
        process_key_requires(*old(app), key),
    ensures
        process_key_spec(*old(app), key, *final(app), r),
        final(app).wf(),
{
    if key.kind == KeyEventKind::Release {
        return None;
    }
    if app.confirmations.len() > 0 {
        let c = &app.confirmations[0];
        return match key.code {
            KeyCode::Char('y') | KeyCode::Char('Y') => Some(
                Action::ConfirmToolCall(
                    ToolCallConfirmation {
                        tab_id: c.tab_id,
                        call_id: c.call_id.clone(),
                        name: c.name.clone(),
                        args: c.args.clone(),
                    },
                ),
            ),
            KeyCode::Char('n') | KeyCode::Char('N') | KeyCode::Esc => Some(
                Action::RejectToolCall { tab_id: c.tab_id, call_id: c.call_id.clone() },
            ),
            _ => None,
        };
    }
    match key_event_to_action(&key) {
        Some(action) => {
            return Some(action);
        },
        None => {},
    }
    if app.command_palette_open {
        return process_command_palette_key(app, key);
    }
    match key.code {
        KeyCode::Enter => {
            let input = app.tabs[app.active_tab].input_buffer.clone();
            let t = trimmed(input.as_str());
            if !t.as_str().is_empty() {
                Some(Action::SubmitMessage(input))
            } else {
                None
            }
        },
        KeyCode::Char(c) => {
            if key.modifiers.bits == 0 || key.modifiers.bits == 1 {
                let tab = app.active_tab_mut();
                push_char(&mut tab.input_buffer, c);
            } else if c == ' ' {
                let tab = app.active_tab_mut();
                push_char(&mut tab.input_buffer, ' ');
            }
            None
        },
        KeyCode::Backspace => {
            let tab = app.active_tab_mut();
            pop_char(&mut tab.input_buffer);
            None
        },
        KeyCode::Esc => None,
        KeyCode::Up => Some(Action::ScrollUp),
        KeyCode::Down => Some(Action::ScrollDown),
        KeyCode::PageUp => {
            let start = app.tabs[app.active_tab].scroll_offset;
            let mut off = start;
            let mut k: usize = 0;
            while k < 5
                invariant
                    k <= 5,
                    off == (if start >= k {
                        (start - k) as usize
                    } else {
                        0usize
                    }),
                decreases 5 - k,
            {
                if off > 0 {
                    off = off - 1;
                }
                k = k + 1;
            }
            let tab = app.active_tab_mut();
            tab.scroll_offset = off;
            tab.auto_scroll = false;
            None
        },
        KeyCode::PageDown => {
            let tab = app.active_tab_mut();
            tab.scroll_offset = tab.scroll_offset + 5;
            None
        },
        _ => None,
    }
}


/// Whether `process_key` is defined on `app` and `key`
/// (`process_key_requires`). A caller that cannot prove it tests it first.
pub fn process_key_allowed(app: &App, key: &KeyEvent) -> (b: bool)
    ensures
        b == process_key_requires(*app, *key),
{
    if !(app.tabs.len() > 0 && app.active_tab < app.tabs.len()) {
        return false;
    }
    let reaches = key.kind != KeyEventKind::Release && app.confirmations.len() == 0 && key_event_to_action(key).is_none()
        && !app.command_palette_open;
    match key.code {
        KeyCode::PageDown => !reaches || app.tabs[app.active_tab].scroll_offset <= usize::MAX - 5,
        _ => true,
    }
}

} // verus!
