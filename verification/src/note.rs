//! What the editing core hands to the collaborators that store notes: the
//! events that say how a note changed.

use vstd::prelude::*;
use vstd::string::*;

use crate::text_input::InputEvent;

verus! {

/// A note's body changed.
#[derive(Clone, Debug)]
pub struct UpdateNoteBodyEvent {
    pub id: String,
    pub body: String,
}

/// A note was shown or hidden.
#[derive(Clone, Debug)]
pub struct UpdateNoteActiveEvent {
    pub id: String,
    pub is_active: bool,
}

/// The body update that an input event asks for, for the note `id`: a change
/// of the text becomes the note's new body; no other event touches the note.
pub fn body_update(id: &str, event: &InputEvent) -> (r: Option<UpdateNoteBodyEvent>)
    ensures
        r is Some <==> event is Change,
        r matches Some(update) ==> update.id@ == id@ && update.body@ == event->Change_0@,
{
    match event {
        InputEvent::Change(text) => Some(
            UpdateNoteBodyEvent { id: String::from_str(id), body: text.clone() },
        ),
        _ => None,
    }
}

/// The update that shows a hidden note and hides a shown one.
pub fn toggled_active(id: &str, is_active: bool) -> (r: UpdateNoteActiveEvent)
    ensures
        r.id@ == id@,
        r.is_active == !is_active,
{
    UpdateNoteActiveEvent { id: String::from_str(id), is_active: !is_active }
}

} // verus!
