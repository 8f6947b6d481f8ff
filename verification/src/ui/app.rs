//! What the application does in response to the user's commands.
use vstd::prelude::*;

use super::input_handler::Action;

verus! {

/// The operations the input handler drives.
pub trait Application: Sized {
    /// `after` is what the operation that `action` names makes of `before`.
    spec fn operation_done(before: Self, after: Self, action: Action) -> bool;

    fn is_searching(&self) -> bool;

    fn on_next_match(&mut self)
        ensures
            Self::operation_done(*old(self), *final(self), Action::NextMatch),
    ;

    fn on_previous_match(&mut self)
        ensures
            Self::operation_done(*old(self), *final(self), Action::PreviousMatch),
    ;

    fn on_next_file(&mut self)
        ensures
            Self::operation_done(*old(self), *final(self), Action::NextFile),
    ;

    fn on_previous_file(&mut self)
        ensures
            Self::operation_done(*old(self), *final(self), Action::PreviousFile),
    ;

    fn on_top(&mut self)
        ensures
            Self::operation_done(*old(self), *final(self), Action::Top),
    ;

    fn on_bottom(&mut self)
        ensures
            Self::operation_done(*old(self), *final(self), Action::Bottom),
    ;

    fn on_remove_current_entry(&mut self)
        ensures
            Self::operation_done(*old(self), *final(self), Action::RemoveCurrentEntry),
    ;

    fn on_remove_current_file(&mut self)
        ensures
            Self::operation_done(*old(self), *final(self), Action::RemoveCurrentFile),
    ;

    fn on_toggle_context_viewer_vertical(&mut self)
        ensures
            Self::operation_done(*old(self), *final(self), Action::ToggleContextViewerVertical),
    ;

    fn on_toggle_context_viewer_horizontal(&mut self)
        ensures
            Self::operation_done(*old(self), *final(self), Action::ToggleContextViewerHorizontal),
    ;

    fn on_increase_context_viewer_size(&mut self)
        ensures
            Self::operation_done(*old(self), *final(self), Action::IncreaseContextViewerSize),
    ;

    fn on_decrease_context_viewer_size(&mut self)
        ensures
            Self::operation_done(*old(self), *final(self), Action::DecreaseContextViewerSize),
    ;

    fn on_open_file(&mut self)
        ensures
            Self::operation_done(*old(self), *final(self), Action::OpenFile),
    ;

    fn on_search(&mut self)
        ensures
            Self::operation_done(*old(self), *final(self), Action::Search),
    ;

    fn on_exit(&mut self)
        ensures
            Self::operation_done(*old(self), *final(self), Action::Exit),
    ;

    fn on_toggle_popup(&mut self)
        ensures
            Self::operation_done(*old(self), *final(self), Action::TogglePopup),
    ;

    fn on_char_inserted(&mut self, c: char)
        ensures
            Self::operation_done(*old(self), *final(self), Action::CharInserted(c)),
    ;

    fn on_char_removed(&mut self)
        ensures
            Self::operation_done(*old(self), *final(self), Action::CharRemoved),
    ;

    fn on_char_deleted(&mut self)
        ensures
            Self::operation_done(*old(self), *final(self), Action::CharDeleted),
    ;

    fn on_char_left(&mut self)
        ensures
            Self::operation_done(*old(self), *final(self), Action::CharLeft),
    ;

    fn on_char_right(&mut self)
        ensures
            Self::operation_done(*old(self), *final(self), Action::CharRight),
    ;

    fn on_toggle_keymap(&mut self)
        ensures
            Self::operation_done(*old(self), *final(self), Action::ToggleKeymap),
    ;

    fn on_keymap_up(&mut self)
        ensures
            Self::operation_done(*old(self), *final(self), Action::KeymapUp),
    ;

    fn on_keymap_down(&mut self)
        ensures
            Self::operation_done(*old(self), *final(self), Action::KeymapDown),
    ;

    fn on_keymap_left(&mut self)
        ensures
            Self::operation_done(*old(self), *final(self), Action::KeymapLeft),
    ;

    fn on_keymap_right(&mut self)
        ensures
            Self::operation_done(*old(self), *final(self), Action::KeymapRight),
    ;
}

/// `states` runs from `before` to `after`, each state being what the
/// operation of the matching action makes of the one before it.
pub open spec fn steps_through<A: Application>(
    states: Seq<A>,
    before: A,
    after: A,
    actions: Seq<Action>,
) -> bool {
    &&& states.len() == actions.len() + 1
    &&& states[0] == before
    &&& states.last() == after
    &&& forall|k: int|
        #![trigger actions[k]]
        0 <= k < actions.len() ==> A::operation_done(states[k], states[k + 1], actions[k])
}

/// `after` is what the operations that `actions` name, one after the other,
/// make of `before`.
pub open spec fn operations_done<A: Application>(before: A, after: A, actions: Seq<Action>) -> bool {
    exists|states: Seq<A>| #[trigger] steps_through(states, before, after, actions)
}

/// Calls the operation of `app` that `action` names.
pub fn perform<A: Application>(app: &mut A, action: Action)
    ensures
        A::operation_done(*old(app), *final(app), action),
{
    match action {
        Action::NextMatch => app.on_next_match(),
        Action::PreviousMatch => app.on_previous_match(),
        Action::NextFile => app.on_next_file(),
        Action::PreviousFile => app.on_previous_file(),
        Action::Top => app.on_top(),
        Action::Bottom => app.on_bottom(),
        Action::RemoveCurrentEntry => app.on_remove_current_entry(),
        Action::RemoveCurrentFile => app.on_remove_current_file(),
        Action::ToggleContextViewerVertical => app.on_toggle_context_viewer_vertical(),
        Action::ToggleContextViewerHorizontal => app.on_toggle_context_viewer_horizontal(),
        Action::IncreaseContextViewerSize => app.on_increase_context_viewer_size(),
        Action::DecreaseContextViewerSize => app.on_decrease_context_viewer_size(),
        Action::OpenFile => app.on_open_file(),
        Action::Search => app.on_search(),
        Action::Exit => app.on_exit(),
        Action::TogglePopup => app.on_toggle_popup(),
        Action::CharInserted(c) => app.on_char_inserted(c),
        Action::CharRemoved => app.on_char_removed(),
        Action::CharDeleted => app.on_char_deleted(),
        Action::CharLeft => app.on_char_left(),
        Action::CharRight => app.on_char_right(),
        Action::ToggleKeymap => app.on_toggle_keymap(),
        Action::KeymapUp => app.on_keymap_up(),
        Action::KeymapDown => app.on_keymap_down(),
        Action::KeymapLeft => app.on_keymap_left(),
        Action::KeymapRight => app.on_keymap_right(),
    }
}

/// Calls the operations of `app` that `actions` name, in order.
pub fn perform_all<A: Application>(app: &mut A, actions: &[Action])
    ensures
        operations_done(*old(app), *final(app), actions@),
{
    let ghost start = *app;
    let ghost mut states: Seq<A> = seq![start];
    let mut i: usize = 0;
    while i < actions.len()
        invariant
            i <= actions@.len(),
            start == *old(app),
            steps_through(states, start, *app, actions@.take(i as int)),
        decreases actions.len() - i,
    {
        perform(app, actions[i]);
        proof {
            let done = actions@.take(i + 1);
            let next = states.push(*app);
            assert forall|k: int| #![trigger done[k]] 0 <= k < done.len() implies A::operation_done(
                next[k],
                next[k + 1],
                done[k],
            ) by {
                if k < i {
                    assert(actions@.take(i as int)[k] == done[k]);
                }
            }
            states = next;
        }
        i = i + 1;
    }
    assert(actions@.take(i as int) == actions@);
    assert(steps_through(states, start, *app, actions@));
}

} // verus!
