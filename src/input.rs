//! A one-line text input with a cursor, as the prompt and command boxes use.
use vstd::prelude::*;
use crate::text::{chars_of, text_of, trim, trim_text};

verus! {

/// The text typed so far and the cursor, counted in characters.
pub struct InputField {
    pub value: String,
    pub cursor: usize,
}

impl InputField {
    /// The cursor stands within the text or just after it.
    pub open spec fn wf(&self) -> bool {
        self.cursor <= self.value@.len()
    }

    pub fn new() -> (r: InputField)
        ensures
            r.value@.len() == 0,
            r.cursor == 0,
            r.wf(),
    {
        InputField { value: String::new(), cursor: 0 }
    }

    pub fn clear(&mut self)
        ensures
            final(self).value@.len() == 0,
            final(self).cursor == 0,
    {
        self.value = String::new();
        self.cursor = 0;
    }

    /// Inserts `ch` at the cursor and moves the cursor past it.
    pub fn insert_char(&mut self, ch: char)
        requires
            old(self).wf(),
            old(self).value@.len() < usize::MAX,
        ensures
            final(self).value@ == old(self).value@.insert(old(self).cursor as int, ch),
            final(self).cursor == old(self).cursor + 1,
            final(self).wf(),
    {
        let mut chars = chars_of(self.value.as_str());
        chars.insert(self.cursor, ch);
        self.cursor = self.cursor + 1;
        self.value = text_of(chars.as_slice());
    }

    /// Removes the character before the cursor, if any.
    pub fn backspace(&mut self)
        requires
            old(self).wf(),
        ensures
            old(self).cursor == 0 ==> *final(self) == *old(self),
            old(self).cursor > 0 ==> final(self).value@ == old(self).value@.remove(old(self).cursor - 1)
                && final(self).cursor == old(self).cursor - 1,
            final(self).wf(),
    {
        if self.cursor == 0 {
            return;
        }
        let mut chars = chars_of(self.value.as_str());
        chars.remove(self.cursor - 1);
        self.cursor = self.cursor - 1;
        self.value = text_of(chars.as_slice());
    }

    /// Removes the character under the cursor, if any.
    pub fn delete(&mut self)
        requires
            old(self).wf(),
        ensures
            old(self).cursor == old(self).value@.len() ==> *final(self) == *old(self),
            old(self).cursor < old(self).value@.len() ==> final(self).value@ == old(self).value@.remove(
                old(self).cursor as int,
            ) && final(self).cursor == old(self).cursor,
            final(self).wf(),
    {
        let mut chars = chars_of(self.value.as_str());
        if self.cursor < chars.len() {
            chars.remove(self.cursor);
            self.value = text_of(chars.as_slice());
        }
    }

    pub fn move_left(&mut self)
        requires
            old(self).wf(),
        ensures
            final(self).value == old(self).value,
            final(self).cursor == if old(self).cursor > 0 {
                (old(self).cursor - 1) as usize
            } else {
                0
            },
            final(self).wf(),
    {
        if self.cursor > 0 {
            self.cursor = self.cursor - 1;
        }
    }

    pub fn move_right(&mut self)
        requires
            old(self).wf(),
        ensures
            final(self).value == old(self).value,
            final(self).cursor == if old(self).cursor < old(self).value@.len() {
                (old(self).cursor + 1) as usize
            } else {
                old(self).cursor
            },
            final(self).wf(),
    {
        let len = chars_of(self.value.as_str()).len();
        if self.cursor < len {
            self.cursor = self.cursor + 1;
        }
    }

    pub fn move_home(&mut self)
        ensures
            final(self).value == old(self).value,
            final(self).cursor == 0,
            final(self).wf(),
    {
        self.cursor = 0;
    }

    pub fn move_end(&mut self)
        ensures
            final(self).value == old(self).value,
            final(self).cursor == final(self).value@.len(),
            final(self).wf(),
    {
        self.cursor = chars_of(self.value.as_str()).len();
    }

    /// Takes the text typed, trimmed, and empties the field; nothing when
    /// the text is blank.
    pub fn submit(&mut self) -> (r: Option<String>)
        ensures
            final(self).value@.len() == 0,
            final(self).cursor == 0,
            trim(old(self).value@).len() == 0 ==> r is None,
            trim(old(self).value@).len() > 0 ==> r is Some && r->0@ == trim(old(self).value@),
    {
        let submitted = trim_text(self.value.as_str());
        self.clear();
        if submitted.as_str().is_empty() {
            None
        } else {
            Some(submitted)
        }
    }
}

} // verus!
