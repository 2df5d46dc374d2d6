//! The input dispatcher: a pure mapping from the current state and one key
//! press to the transition the state machine performs.

use vstd::prelude::*;
use crate::app::{App, AppView, CurrentScreen, CurrentlyEditing, Flow, toggle_spec};

verus! {

/// A discrete key press as the dispatcher sees it.  Release events are
/// filtered before dispatch; named keys without a mapping arrive as
/// `Other`.
#[derive(Clone, Copy, PartialEq, Eq, Structural, Debug)]
pub enum KeyInput {
    Enter,
    Backspace,
    Escape,
    Tab,
    Char(char),
    Other,
}

/// The transition table: the state after one key press.
///
/// From the main screen, `e` starts an edit and `q` asks to quit.  While
/// editing, Enter advances the edit (committing from the value buffer),
/// Backspace pops from the focused buffer, Escape abandons the edit and
/// asks to quit, Tab toggles the focus, and any other character is
/// appended to the focused buffer.  From the exit confirmation, `q` or
/// `n` return to the main screen.  Every other combination leaves the
/// state unchanged.
pub open spec fn step_spec(pre: AppView, k: KeyInput) -> AppView {
    match pre.current_screen {
        CurrentScreen::Main => match k {
            KeyInput::Char(c) => if c == 'e' {
                AppView {
                    current_screen: CurrentScreen::Editing,
                    currently_editing: Some(CurrentlyEditing::Key),
                    ..pre
                }
            } else if c == 'q' {
                AppView { current_screen: CurrentScreen::Exiting, ..pre }
            } else {
                pre
            },
            _ => pre,
        },
        CurrentScreen::Exiting => match k {
            KeyInput::Char(c) => if c == 'q' || c == 'n' {
                AppView { current_screen: CurrentScreen::Main, ..pre }
            } else {
                pre
            },
            _ => pre,
        },
        CurrentScreen::Editing => match k {
            KeyInput::Enter => match pre.currently_editing {
                Some(CurrentlyEditing::Key) => AppView {
                    currently_editing: Some(CurrentlyEditing::Value),
                    ..pre
                },
                Some(CurrentlyEditing::Value) => AppView {
                    key_input: Seq::empty(),
                    value_input: Seq::empty(),
                    pairs: pre.pairs.insert(pre.key_input, pre.value_input),
                    current_screen: CurrentScreen::Main,
                    currently_editing: None,
                },
                None => pre,
            },
            KeyInput::Backspace => match pre.currently_editing {
                Some(CurrentlyEditing::Key) => AppView {
                    key_input: if pre.key_input.len() == 0 {
                        pre.key_input
                    } else {
                        pre.key_input.drop_last()
                    },
                    ..pre
                },
                Some(CurrentlyEditing::Value) => AppView {
                    value_input: if pre.value_input.len() == 0 {
                        pre.value_input
                    } else {
                        pre.value_input.drop_last()
                    },
                    ..pre
                },
                None => pre,
            },
            KeyInput::Escape => AppView {
                current_screen: CurrentScreen::Exiting,
                currently_editing: None,
                ..pre
            },
            KeyInput::Tab => AppView {
                currently_editing: toggle_spec(pre.currently_editing),
                ..pre
            },
            KeyInput::Char(c) => match pre.currently_editing {
                Some(CurrentlyEditing::Key) => AppView {
                    key_input: pre.key_input.push(c),
                    ..pre
                },
                Some(CurrentlyEditing::Value) => AppView {
                    value_input: pre.value_input.push(c),
                    ..pre
                },
                None => pre,
            },
            KeyInput::Other => pre,
        },
    }
}

/// What the session loop is told after one key press: only `y` on the
/// exit confirmation terminates, and it asks for the pairs to be emitted.
pub open spec fn flow_spec(pre: AppView, k: KeyInput) -> Flow {
    if pre.current_screen is Exiting {
        match k {
            KeyInput::Char(c) => if c == 'y' {
                Flow::Terminate { emit: true }
            } else {
                Flow::Continue
            },
            _ => Flow::Continue,
        }
    } else {
        Flow::Continue
    }
}

/// Apply one key press to the editor: the state moves along the
/// transition table, and the returned flow tells the session loop
/// whether to keep going.
pub fn handle_key(app: &mut App, k: KeyInput) -> (flow: Flow)
    requires
        old(app).wf(),
    ensures
        final(app).wf(),
        final(app)@ == step_spec(old(app)@, k),
        flow == flow_spec(old(app)@, k),
{
    let ghost pre = app@;
    match app.current_screen {
        CurrentScreen::Main => {
            match k {
                KeyInput::Char(c) => {
                    if c == 'e' {
                        app.enter_editing();
                    } else if c == 'q' {
                        app.request_exit();
                    }
                }
                _ => {}
            }
            proof {
                assert(app@ =~~= step_spec(pre, k));
            }
            Flow::Continue
        }
        CurrentScreen::Exiting => {
            let mut flow = Flow::Continue;
            match k {
                KeyInput::Char(c) => {
                    if c == 'y' {
                        flow = app.confirm_exit();
                    } else if c == 'q' || c == 'n' {
                        app.abort_exit();
                    }
                }
                _ => {}
            }
            proof {
                assert(app@ =~~= step_spec(pre, k));
            }
            flow
        }
        CurrentScreen::Editing => {
            match k {
                KeyInput::Enter => app.advance_edit(),
                KeyInput::Backspace => app.pop_char(),
                KeyInput::Escape => app.cancel_edit(),
                KeyInput::Tab => app.toggle_editing(),
                KeyInput::Char(c) => app.push_char(c),
                KeyInput::Other => {}
            }
            proof {
                assert(app@ =~~= step_spec(pre, k));
            }
            Flow::Continue
        }
    }
}

/// Focus invariant preservation: from a state where an edit in progress
/// has a focused target, no key press reaches a state where an edit is in
/// progress without one.
pub proof fn lemma_step_preserves_focus(pre: AppView, k: KeyInput)
    requires
        pre.current_screen is Editing ==> pre.currently_editing is Some,
    ensures
        step_spec(pre, k).current_screen is Editing ==> step_spec(
            pre,
            k,
        ).currently_editing is Some,
{
}

/// The state after a whole sequence of key presses, first to last.
pub open spec fn run_keys(pre: AppView, ks: Seq<KeyInput>) -> AppView
    decreases ks.len(),
{
    if ks.len() == 0 {
        pre
    } else {
        run_keys(step_spec(pre, ks.first()), ks.drop_first())
    }
}

/// Law: from a state where the focus invariant holds, no sequence of key
/// presses reaches a state with an edit in progress and no focused
/// target.
pub proof fn lemma_no_unfocused_editing_reachable(pre: AppView, ks: Seq<KeyInput>)
    requires
        pre.current_screen is Editing ==> pre.currently_editing is Some,
    ensures
        run_keys(pre, ks).current_screen is Editing ==> run_keys(
            pre,
            ks,
        ).currently_editing is Some,
    decreases ks.len(),
{
    if ks.len() == 0 {
    } else {
        lemma_step_preserves_focus(pre, ks.first());
        lemma_no_unfocused_editing_reachable(step_spec(pre, ks.first()), ks.drop_first());
    }
}

} // verus!
