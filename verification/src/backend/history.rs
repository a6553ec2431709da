//! The send history: newest entry first, at most fifty entries.

use vstd::prelude::*;
use crate::clock::{is_clock_time, time_of_day};
use crate::text::{is_blank, is_blank_text};
use crate::types::HistoryItem;

verus! {

/// How many entries the history keeps.
pub const MAX_ITEMS: usize = 50;

/// Sent texts, newest first (index 0 is the latest), at most [`MAX_ITEMS`].
pub struct History {
    items: Vec<HistoryItem>,
}

/// The entries after `item` has been put in front of `items`, the oldest
/// dropped when there are more than [`MAX_ITEMS`].
pub open spec fn with_newest(items: Seq<HistoryItem>, item: HistoryItem) -> Seq<HistoryItem> {
    let s = seq![item] + items;
    if s.len() > MAX_ITEMS {
        s.take(MAX_ITEMS as int)
    } else {
        s
    }
}

impl View for History {
    type V = Seq<HistoryItem>;

    closed spec fn view(&self) -> Seq<HistoryItem> {
        self.items@
    }
}

impl History {
    /// The history never holds more than [`MAX_ITEMS`] entries.
    pub open spec fn wf(&self) -> bool {
        self@.len() <= MAX_ITEMS
    }

    /// An empty history.
    pub fn new() -> (h: Self)
        ensures
            h.wf(),
            h@ == Seq::<HistoryItem>::empty(),
    {
        History { items: Vec::new() }
    }

    /// The history made of saved entries, newest first; entries beyond
    /// [`MAX_ITEMS`] are dropped.
    pub fn from_saved(items: Vec<HistoryItem>) -> (h: Self)
        ensures
            h.wf(),
            h@ == (if items@.len() > MAX_ITEMS {
                items@.take(MAX_ITEMS as int)
            } else {
                items@
            }),
    {
        let mut items = items;
        items.truncate(MAX_ITEMS);
        History { items }
    }

    /// Records `text` as sent at `time`, unless the text is blank: it becomes
    /// the newest entry and the oldest is dropped beyond [`MAX_ITEMS`].
    pub fn add_at(&mut self, text: String, is_hex: bool, time: String)
        requires
            old(self).wf(),
        ensures
            final(self).wf(),
            is_blank(text@) ==> final(self)@ == old(self)@,
            !is_blank(text@) ==> final(self)@ == with_newest(
                old(self)@,
                (HistoryItem { text, is_hex, time }),
            ),
    {
        if is_blank_text(text.as_str()) {
            return;
        }
        let item = HistoryItem { text, is_hex, time };
        self.items.insert(0, item);
        if self.items.len() > MAX_ITEMS {
            self.items.pop();
        }
        proof {
            let s = seq![item] + old(self)@;
            assert(self.items@ =~= (if s.len() > MAX_ITEMS {
                s.take(MAX_ITEMS as int)
            } else {
                s
            }));
        }
    }

    /// Records `text` as sent now, unless the text is blank.
    pub fn add(&mut self, text: String, is_hex: bool)
        requires
            old(self).wf(),
        ensures
            final(self).wf(),
            is_blank(text@) ==> final(self)@ == old(self)@,
            !is_blank(text@) ==> exists|time: String|
                #[trigger] is_clock_time(time@) && final(self)@ == with_newest(
                    old(self)@,
                    (HistoryItem { text, is_hex, time }),
                ),
    {
        let time = time_of_day();
        let ghost t = time;
        self.add_at(text, is_hex, time);
        proof {
            if !is_blank(text@) {
                assert(final(self)@ == with_newest(old(self)@, HistoryItem { text, is_hex, time: t }));
            }
        }
    }

    /// Forgets every entry.
    pub fn clear(&mut self)
        requires
            old(self).wf(),
        ensures
            final(self).wf(),
            final(self)@ == Seq::<HistoryItem>::empty(),
    {
        self.items.clear();
    }

    /// The entries, newest first.
    pub fn items(&self) -> (s: &[HistoryItem])
        ensures
            s@ == self@,
    {
        self.items.as_slice()
    }
}

} // verus!
