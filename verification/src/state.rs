//! The stack of game states, and what the song selection does next.

use vstd::prelude::*;

verus! {

/// What a state asks for at the end of a frame.
pub enum StateTransition<S> {
    /// Go on with this state.
    Continue,
    /// Put a state on top of this one.
    Push(S),
    /// Put a state in this one's place.
    Swap(S),
    /// Go back to the state below.
    Pop,
    /// Leave the program.
    Exit,
}

/// The stack after a transition.
pub open spec fn stack_after<S>(stack: Seq<S>, t: StateTransition<S>) -> Seq<S> {
    match t {
        StateTransition::Continue => stack,
        StateTransition::Push(s) => stack.push(s),
        StateTransition::Swap(s) => stack.drop_last().push(s),
        StateTransition::Pop => stack.drop_last(),
        StateTransition::Exit => stack,
    }
}

/// Carries a transition out on the stack whose top asked for it, and says
/// whether the program is to leave.
pub fn apply_transition<S>(stack: &mut Vec<S>, t: StateTransition<S>) -> (exit: bool)
    requires
        old(stack)@.len() > 0,
    ensures
        final(stack)@ == stack_after(old(stack)@, t),
        exit == (t is Exit),
{
    match t {
        StateTransition::Continue => false,
        StateTransition::Push(s) => {
            stack.push(s);
            false
        },
        StateTransition::Swap(s) => {
            stack.pop();
            stack.push(s);
            false
        },
        StateTransition::Pop => {
            stack.pop();
            false
        },
        StateTransition::Exit => true,
    }
}

/// What the song selection does at the end of a frame.
#[derive(Clone, Copy, Debug, PartialEq, Eq)]
pub enum SelectAction {
    /// Show the credits.
    Credits,
    /// Play a song, given by its place in the list, in a difficulty.
    Play { song: usize, difficulty: usize },
    Exit,
    Continue,
}

/// The credits come before a song, a song before leaving.
pub open spec fn select_action(
    go_to_credits: bool,
    go_to_song: Option<(usize, usize)>,
    exit: bool,
) -> SelectAction {
    if go_to_credits {
        SelectAction::Credits
    } else if let Some((song, difficulty)) = go_to_song {
        SelectAction::Play { song, difficulty }
    } else if exit {
        SelectAction::Exit
    } else {
        SelectAction::Continue
    }
}

pub fn next_action(go_to_credits: bool, go_to_song: Option<(usize, usize)>, exit: bool) -> (a:
    SelectAction)
    ensures
        a == select_action(go_to_credits, go_to_song, exit),
{
    if go_to_credits {
        SelectAction::Credits
    } else if let Some((song, difficulty)) = go_to_song {
        SelectAction::Play { song, difficulty }
    } else if exit {
        SelectAction::Exit
    } else {
        SelectAction::Continue
    }
}

} // verus!
