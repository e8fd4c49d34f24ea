use vstd::prelude::*;
use vstd::string::{StringExecFns, StringSliceAdditionalSpecFns};
use vstd::utf8::{decode_utf8, encode_utf8, encode_utf8_decode_utf8};

use super::{App, AppModel};
use crate::cursor::{next_boundary, previous_boundary, snap_down, snap_up, valid_cursor, vertical_cursor, vertical_target};
use crate::view::{ComposerModel, ComposerMovement, Focus, ScreenModel};

verus! {

/// The UTF-8 bytes of a text.
pub open spec fn bytes_of(text: Seq<char>) -> Seq<u8> {
    encode_utf8(text)
}

/// The characters encoded by the bytes `[from, to)` of a text.
pub open spec fn text_between(text: Seq<char>, from: int, to: int) -> Seq<char> {
    decode_utf8(bytes_of(text).subrange(from, to))
}

pub open spec fn saturating_add(a: int, b: int) -> usize {
    if a + b > usize::MAX {
        usize::MAX
    } else {
        (a + b) as usize
    }
}

impl ComposerModel {
    /// The cursor clamped into the text and moved back onto a character boundary.
    pub open spec fn valid_cursor(self) -> int {
        let b = bytes_of(self.text);
        snap_down(
            b,
            if self.cursor <= b.len() {
                self.cursor as int
            } else {
                b.len() as int
            },
        )
    }

    /// `ins` is inserted at the cursor, which moves to the end of the inserted text.
    pub open spec fn inserted(self, ins: Seq<char>) -> ComposerModel {
        let b = bytes_of(self.text);
        let k = self.valid_cursor();
        ComposerModel {
            text: text_between(self.text, 0, k) + ins + text_between(self.text, k, b.len() as int),
            cursor: saturating_add(k, bytes_of(ins).len() as int),
            ..self
        }
    }

    /// The character before the cursor is deleted.
    pub open spec fn backspaced(self) -> ComposerModel {
        let b = bytes_of(self.text);
        let k = self.valid_cursor();
        if k == 0 {
            self
        } else {
            let p = snap_down(b, k - 1);
            ComposerModel {
                text: text_between(self.text, 0, p) + text_between(self.text, k, b.len() as int),
                cursor: p as usize,
                ..self
            }
        }
    }

    pub open spec fn moved(self, movement: ComposerMovement) -> ComposerModel {
        let b = bytes_of(self.text);
        let k = self.valid_cursor();
        ComposerModel {
            cursor: match movement {
                ComposerMovement::Left => if k == 0 {
                    k
                } else {
                    snap_down(b, k - 1)
                },
                ComposerMovement::Right => if k == b.len() {
                    k
                } else {
                    snap_up(b, k + 1)
                },
                ComposerMovement::Up => vertical_target(b, k, false),
                ComposerMovement::Down => vertical_target(b, k, true),
            } as usize,
            ..self
        }
    }
}

impl AppModel {
    pub open spec fn with_composer(self, composer: ComposerModel) -> AppModel {
        AppModel { view: ScreenModel { composer, ..self.view }, ..self }
    }

    pub open spec fn moved_composer_cursor(self, movement: ComposerMovement) -> AppModel {
        if self.view.focus != Focus::Composer {
            self
        } else {
            self.with_composer(self.view.composer.moved(movement))
        }
    }
}

impl App {
    pub fn insert_composer_text(&mut self, text: &str)
        ensures
            final(self)@ == old(self)@.with_composer(old(self)@.view.composer.inserted(text@)),
    {
        let cursor = valid_cursor(self.view.composer.text.as_str(), self.view.composer.cursor);
        let new_text = {
            let (head, tail) = self.view.composer.text.as_str().split_at(cursor);
            proof {
                encode_utf8_decode_utf8(head@);
                encode_utf8_decode_utf8(tail@);
            }
            let mut joined = head.to_owned();
            joined.append(text);
            joined.append(tail);
            joined
        };
        self.view.composer.text = new_text;
        self.view.composer.cursor = cursor.saturating_add(text.as_bytes().len());
    }

    pub fn backspace_composer(&mut self)
        ensures
            final(self)@ == old(self)@.with_composer(old(self)@.view.composer.backspaced()),
    {
        let cursor = valid_cursor(self.view.composer.text.as_str(), self.view.composer.cursor);
        let previous = match previous_boundary(self.view.composer.text.as_str(), cursor) {
            Some(p) => p,
            None => return ,
        };
        let new_text = {
            let (head, _) = self.view.composer.text.as_str().split_at(previous);
            let (_, tail) = self.view.composer.text.as_str().split_at(cursor);
            proof {
                encode_utf8_decode_utf8(head@);
                encode_utf8_decode_utf8(tail@);
            }
            let mut joined = head.to_owned();
            joined.append(tail);
            joined
        };
        self.view.composer.text = new_text;
        self.view.composer.cursor = previous;
    }

    pub fn move_composer_cursor(&mut self, movement: ComposerMovement)
        ensures
            final(self)@ == old(self)@.moved_composer_cursor(movement),
    {
        if self.view.focus != Focus::Composer {
            return ;
        }
        let text = self.view.composer.text.as_str();
        let cursor = valid_cursor(text, self.view.composer.cursor);
        let moved = match movement {
            ComposerMovement::Left => match previous_boundary(text, cursor) {
                Some(p) => p,
                None => cursor,
            },
            ComposerMovement::Right => match next_boundary(text, cursor) {
                Some(n) => n,
                None => cursor,
            },
            ComposerMovement::Up => vertical_cursor(text, cursor, false),
            ComposerMovement::Down => vertical_cursor(text, cursor, true),
        };
        self.view.composer.cursor = moved;
    }
}

} // verus!
