//! The flow of a dialog: one sentence at a time, each confirmed by the
//! player.

use vstd::prelude::*;

use crate::event::AppEvent;

verus! {

/// What a dialog is.
pub ghost struct DialogState {
    pub sentences: Seq<Seq<char>>,
    /// The index of the sentence that is shown; the number of sentences once
    /// the dialog is over.
    pub current_sentence: nat,
    /// The confirm key has been released since the last step.
    pub can_display_next: bool,
}

/// What a tick of the dialog asks for.
#[derive(Debug, Clone, Copy, PartialEq, Eq, Structural)]
pub enum DialogStep {
    /// Nothing changes.
    Stay,
    /// Show the sentence under this index.
    Show(usize),
    /// The dialog is over.
    Over,
}

impl DialogState {
    /// The dialog after a tick in which the confirm key is down or not. The
    /// dialog moves on by one sentence when the key goes down, not while it
    /// is held.
    pub open spec fn tick(self, confirm: bool) -> DialogState {
        if !confirm {
            DialogState { can_display_next: true, ..self }
        } else if self.can_display_next {
            DialogState {
                current_sentence: if self.current_sentence < self.sentences.len() {
                    self.current_sentence + 1
                } else {
                    self.current_sentence
                },
                can_display_next: false,
                ..self
            }
        } else {
            self
        }
    }

    /// What that tick asks for: the next sentence, or the end of the dialog
    /// after the last one.
    pub open spec fn step(self, confirm: bool) -> DialogStep {
        if confirm && self.can_display_next {
            if self.current_sentence + 1 < self.sentences.len() {
                DialogStep::Show((self.current_sentence + 1) as usize)
            } else {
                DialogStep::Over
            }
        } else {
            DialogStep::Stay
        }
    }
}

#[derive(Debug)]
pub struct Dialog {
    sentences: Vec<String>,
    current_sentence: usize,
    can_display_next: bool,
}

impl View for Dialog {
    type V = DialogState;

    closed spec fn view(&self) -> DialogState {
        DialogState {
            sentences: Seq::new(self.sentences@.len(), |i: int| self.sentences@[i]@),
            current_sentence: self.current_sentence as nat,
            can_display_next: self.can_display_next,
        }
    }
}

impl Dialog {
    /// A dialog of the sentences given, of which there is at least one. It
    /// shows the first.
    pub fn new(sentences: Vec<String>) -> (r: Self)
        requires
            sentences@.len() > 0,
        ensures
            r@ == (DialogState {
                sentences: Seq::new(sentences@.len(), |i: int| sentences@[i]@),
                current_sentence: 0,
                can_display_next: true,
            }),
    {
        Self { sentences, current_sentence: 0, can_display_next: true }
    }

    /// The sentence under `index`.
    pub fn sentence(&self, index: usize) -> (r: Option<&String>)
        ensures
            index < self@.sentences.len() ==> r is Some && r.unwrap()@ == self@.sentences[index as int],
            index >= self@.sentences.len() ==> r is None,
    {
        if index < self.sentences.len() {
            Some(&self.sentences[index])
        } else {
            None
        }
    }

    pub fn current_sentence(&self) -> (r: usize)
        ensures
            r == self@.current_sentence,
    {
        self.current_sentence
    }

    /// One tick of the dialog, with the confirm key down or not.
    pub fn advance(&mut self, confirm: bool) -> (r: DialogStep)
        ensures
            final(self)@ == old(self)@.tick(confirm),
            r == old(self)@.step(confirm),
    {
        if confirm {
            if self.can_display_next {
                if self.current_sentence < self.sentences.len() {
                    self.current_sentence = self.current_sentence + 1;
                }
                self.can_display_next = false;
                if self.current_sentence < self.sentences.len() {
                    DialogStep::Show(self.current_sentence)
                } else {
                    DialogStep::Over
                }
            } else {
                DialogStep::Stay
            }
        } else {
            self.can_display_next = true;
            DialogStep::Stay
        }
    }
}

/// Manages the dialog that is shown. There is one at a time.
#[derive(Debug, Clone, Copy, Default)]
pub struct DialogSystem;

impl DialogSystem {
    /// One tick of the dialog. The end of the dialog is sent on `events`.
    /// Returns the index of the sentence to show, if it changes.
    pub fn run(&mut self, dialog: &mut Dialog, confirm: bool, events: &mut Vec<AppEvent>) -> (r:
        Option<usize>)
        ensures
            final(dialog)@ == old(dialog)@.tick(confirm),
            r == match old(dialog)@.step(confirm) {
                DialogStep::Show(index) => Some(index),
                _ => None,
            },
            final(events)@ == match old(dialog)@.step(confirm) {
                DialogStep::Over => old(events)@.push(AppEvent::DialogOver),
                _ => old(events)@,
            },
    {
        match dialog.advance(confirm) {
            DialogStep::Show(index) => Some(index),
            DialogStep::Over => {
                events.push(AppEvent::DialogOver);
                None
            },
            DialogStep::Stay => None,
        }
    }
}

} // verus!
