//! Quick commands: a fixed row of twenty slots, an empty text marking an
//! empty slot.  Slots never move, so a command keeps its place.

use vstd::prelude::*;
use crate::text::{append_chars, chars_of, decimal, decimal_text, is_blank, is_blank_text, string_of};
use crate::types::QuickCommand;

verus! {

/// The number of slots.
pub const MAX_ITEMS: usize = 20;

/// The caption a slot gets when it is reset: `"命令 N"`, N counting from one.
pub open spec fn default_name(index: nat) -> Seq<char> {
    "命令 "@ + decimal(index + 1)
}

/// An empty slot at `index`: the default caption, no text, ASCII mode.
pub open spec fn is_reset_slot(c: QuickCommand, index: nat) -> bool {
    c.name@ == default_name(index) && c.text@.len() == 0 && !c.is_hex
}

/// The default caption of the slot at `index`.
pub fn default_slot_name(index: usize) -> (s: String)
    requires
        index < MAX_ITEMS,
    ensures
        s@ == default_name(index as nat),
{
    let mut cs = chars_of("命令 ");
    let num = decimal_text(index + 1);
    let digits = chars_of(num.as_str());
    append_chars(&mut cs, digits.as_slice());
    string_of(cs.as_slice())
}

fn reset_slot(index: usize) -> (c: QuickCommand)
    requires
        index < MAX_ITEMS,
    ensures
        is_reset_slot(c, index as nat),
{
    QuickCommand { name: default_slot_name(index), text: String::new(), is_hex: false }
}

/// Twenty quick-command slots.
pub struct QuickCommands {
    items: Vec<QuickCommand>,
}

impl View for QuickCommands {
    type V = Seq<QuickCommand>;

    closed spec fn view(&self) -> Seq<QuickCommand> {
        self.items@
    }
}

/// The slots made from saved commands: the first [`MAX_ITEMS`] saved
/// commands in order, then reset slots up to [`MAX_ITEMS`].
pub open spec fn slots_from_saved(saved: Seq<QuickCommand>, slots: Seq<QuickCommand>) -> bool {
    &&& slots.len() == MAX_ITEMS
    &&& forall|i: int| 0 <= i < MAX_ITEMS && i < saved.len() ==> #[trigger] slots[i] == saved[i]
    &&& forall|i: int| saved.len() <= i < MAX_ITEMS ==> is_reset_slot(#[trigger] slots[i], i as nat)
}

/// `after` is `before` with `text` put into the first slot whose text is
/// blank, that slot keeping its caption, and `r` is that slot's index; or
/// every slot is taken, nothing changes and `r` is `None`.
pub open spec fn filled_first_empty(
    before: Seq<QuickCommand>,
    after: Seq<QuickCommand>,
    text: Seq<char>,
    is_hex: bool,
    r: Option<usize>,
) -> bool {
    match r {
        Some(i) => {
            &&& i < before.len()
            &&& is_blank(before[i as int].text@)
            &&& forall|j: int| 0 <= j < i ==> !is_blank(#[trigger] before[j].text@)
            &&& after.len() == before.len()
            &&& forall|j: int| 0 <= j < before.len() && j != i ==> #[trigger] after[j] == before[j]
            &&& after[i as int].name == before[i as int].name
            &&& after[i as int].text@ == text
            &&& after[i as int].is_hex == is_hex
        },
        None => {
            &&& after == before
            &&& forall|j: int| 0 <= j < before.len() ==> !is_blank(#[trigger] before[j].text@)
        },
    }
}

impl QuickCommands {
    /// There are always exactly [`MAX_ITEMS`] slots.
    pub open spec fn wf(&self) -> bool {
        self@.len() == MAX_ITEMS
    }

    /// The slots made from saved commands: the first [`MAX_ITEMS`] are kept
    /// in order and missing slots are filled with reset slots.
    pub fn from_saved(saved: Vec<QuickCommand>) -> (q: Self)
        ensures
            q.wf(),
            slots_from_saved(saved@, q@),
    {
        let mut items = saved;
        items.truncate(MAX_ITEMS);
        let kept = items.len();
        while items.len() < MAX_ITEMS
            invariant
                kept <= items@.len() <= MAX_ITEMS,
                kept == (if saved@.len() > MAX_ITEMS { MAX_ITEMS as int } else { saved@.len() as int }),
                forall|i: int| 0 <= i < kept ==> #[trigger] items@[i] == saved@[i],
                forall|i: int| kept <= i < items@.len() ==> is_reset_slot(#[trigger] items@[i], i as nat),
            decreases MAX_ITEMS - items@.len(),
        {
            let i = items.len();
            items.push(reset_slot(i));
        }
        QuickCommands { items }
    }

    /// Twenty reset slots.
    pub fn new() -> (q: Self)
        ensures
            q.wf(),
            forall|i: int| 0 <= i < MAX_ITEMS ==> is_reset_slot(#[trigger] q@[i], i as nat),
    {
        Self::from_saved(Vec::new())
    }

    /// All slots, empty ones included.
    pub fn items(&self) -> (s: &[QuickCommand])
        ensures
            s@ == self@,
    {
        self.items.as_slice()
    }

    /// The command in slot `index`, unless the slot does not exist or its
    /// text is blank.
    pub fn send_at(&self, index: usize) -> (r: Option<&QuickCommand>)
        ensures
            r matches Some(c) ==> index < self@.len() && *c == self@[index as int] && !is_blank(
                c.text@,
            ),
            r is None ==> index >= self@.len() || is_blank(self@[index as int].text@),
    {
        if index < self.items.len() {
            let c = &self.items[index];
            if is_blank_text(c.text.as_str()) {
                None
            } else {
                Some(c)
            }
        } else {
            None
        }
    }

    /// Replaces slot `index` with the given caption, text and mode; an index
    /// past the last slot changes nothing.
    pub fn edit(&mut self, index: usize, name: String, text: String, is_hex: bool)
        requires
            old(self).wf(),
        ensures
            final(self).wf(),
            index < MAX_ITEMS ==> final(self)@ == old(self)@.update(
                index as int,
                (QuickCommand { name, text, is_hex }),
            ),
            index >= MAX_ITEMS ==> final(self)@ == old(self)@,
    {
        if index < self.items.len() {
            self.items.set(index, QuickCommand { name, text, is_hex });
        }
    }

    /// Puts `text` into the first slot whose text is blank, keeping that
    /// slot's caption, and returns its index; `None` when every slot is
    /// taken, in which case nothing changes.
    pub fn add_to_first_empty(&mut self, text: &str, is_hex: bool) -> (r: Option<usize>)
        requires
            old(self).wf(),
        ensures
            final(self).wf(),
            filled_first_empty(old(self)@, final(self)@, text@, is_hex, r),
    {
        let mut i: usize = 0;
        while i < self.items.len()
            invariant
                self.items@ == old(self)@,
                self.items@.len() == MAX_ITEMS,
                i <= MAX_ITEMS,
                forall|j: int| 0 <= j < i ==> !is_blank(#[trigger] self.items@[j].text@),
            decreases MAX_ITEMS - i,
        {
            if is_blank_text(self.items[i].text.as_str()) {
                let name = self.items[i].name.clone();
                let chars = chars_of(text);
                let new_text = string_of(chars.as_slice());
                self.items.set(i, QuickCommand { name, text: new_text, is_hex });
                return Some(i);
            }
            i = i + 1;
        }
        None
    }

    /// Resets slot `index` to an empty slot with its default caption; an
    /// index past the last slot changes nothing.
    pub fn delete(&mut self, index: usize)
        requires
            old(self).wf(),
        ensures
            final(self).wf(),
            index < MAX_ITEMS ==> {
                &&& is_reset_slot(final(self)@[index as int], index as nat)
                &&& forall|j: int| 0 <= j < MAX_ITEMS && j != index ==> #[trigger] final(self)@[j] == old(self)@[j]
            },
            index >= MAX_ITEMS ==> final(self)@ == old(self)@,
    {
        if index < self.items.len() {
            self.items.set(index, reset_slot(index));
        }
    }

    /// Resets every slot.
    pub fn clear_all(&mut self)
        requires
            old(self).wf(),
        ensures
            final(self).wf(),
            forall|i: int| 0 <= i < MAX_ITEMS ==> is_reset_slot(#[trigger] final(self)@[i], i as nat),
    {
        let mut i: usize = 0;
        while i < self.items.len()
            invariant
                self.items@.len() == MAX_ITEMS,
                i <= MAX_ITEMS,
                forall|j: int| 0 <= j < i ==> is_reset_slot(#[trigger] self.items@[j], j as nat),
            decreases MAX_ITEMS - i,
        {
            self.items.set(i, reset_slot(i));
            i = i + 1;
        }
    }
}

} // verus!
