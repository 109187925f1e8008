//! The terminal side of a prompt: input events and the backend capability.
//!
//! The engine talks to the terminal through the [`Backend`] trait alone:
//! it hands it one [`Frame`] to draw after every step, and blocks on it for
//! the next [`Event`].  A real terminal driver implements the trait outside
//! the library; [`ScriptedBackend`] implements it here over a fixed event
//! list, so a prompt can be driven deterministically.

use vstd::prelude::*;
use crate::render::Frame;

verus! {

/// One key press, after terminal decoding.
#[derive(Clone, Copy, PartialEq, Eq, Structural, Debug)]
pub enum Key {
    Up,
    Down,
    Left,
    Right,
    Enter,
    Escape,
    Backspace,
    Char(char),
}

/// One input event the backend hands the engine.
#[derive(Clone, Copy, PartialEq, Eq, Structural, Debug)]
pub enum Event {
    Key(Key),
    Resize,
    Interrupt,
}

/// The single point through which the engine talks to the terminal:
/// draw one frame; block for the next event.  Nothing is assumed of an
/// implementation, so everything proved of the engine holds for every
/// backend.
pub trait Backend: Sized {
    /// Draws one frame, fully repainting the prompt's screen region.
    fn render(&mut self, frame: &Frame);

    /// Blocks until the next input event is available, and returns it.
    fn read_event(&mut self) -> Event;
}

/// A backend over a fixed list of events: each read returns the next
/// scripted event, or `Interrupt` once the script is exhausted; renders
/// are counted and the last frame's path text is kept.
pub struct ScriptedBackend {
    pub script: Vec<Event>,
    pub next: usize,
    pub renders: u64,
    pub last_path_text: Option<String>,
}

impl ScriptedBackend {
    /// A backend that will replay `script`, then report `Interrupt`.
    pub fn new(script: Vec<Event>) -> (r: Self)
        ensures
            r.script@ == script@,
            r.next == 0,
            r.renders == 0,
            r.last_path_text is None,
    {
        ScriptedBackend { script, next: 0, renders: 0, last_path_text: None }
    }
}

impl Backend for ScriptedBackend {
    fn render(&mut self, frame: &Frame)
        ensures
            final(self).script@ == old(self).script@,
            final(self).next == old(self).next,
            old(self).renders < u64::MAX ==> final(self).renders == old(self).renders + 1,
            final(self).last_path_text matches Some(t) && t@ == frame.path_text@,
    {
        if self.renders < u64::MAX {
            self.renders = self.renders + 1;
        }
        self.last_path_text = Some(frame.path_text.clone());
    }

    fn read_event(&mut self) -> (ev: Event)
        ensures
            final(self).script@ == old(self).script@,
            final(self).renders == old(self).renders,
            old(self).next < old(self).script@.len() ==> ev == old(self).script@[
                old(self).next as int
            ] && final(self).next == old(self).next + 1,
            old(self).next >= old(self).script@.len() ==> ev == Event::Interrupt
                && final(self).next == old(self).next,
    {
        if self.next < self.script.len() {
            let ev = self.script[self.next];
            self.next = self.next + 1;
            ev
        } else {
            Event::Interrupt
        }
    }
}

} // verus!
