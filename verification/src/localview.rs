//! The local-filesystem pane: hidden entries are skipped, directories come
//! first in case-insensitive name order, and navigation hands directory
//! changes back as actions (the binary owns the real path).

use vstd::prelude::*;
use vstd::relations::sorted_by;
use crate::action::Action;
use crate::data::LocalEntry;
use crate::session::App;
use crate::sorting::{local_leq, sort_local_entries};

verus! {

/// Entries whose name does not start with a dot are shown.
pub open spec fn not_hidden() -> spec_fn(LocalEntry) -> bool {
    |e: LocalEntry| !(e.name@.len() > 0 && e.name@[0] == '.')
}

pub open spec fn local_move_up_rel(pre: App, post: App) -> bool {
    &&& (post.local_selected == (match pre.local_selected {
                Some(i) => if i > 0 {
                    Some((i - 1) as usize)
                } else {
                    Some(i)
                },
                None => None::<usize>,
            }))
    &&& (post == (App { local_selected: post.local_selected, ..pre }))
}

pub open spec fn local_move_down_rel(pre: App, post: App) -> bool {
    &&& (post.local_selected == (if crate::session::sel_index(pre.local_selected)
                + 1 < pre.local_entries@.len() {
                Some((crate::session::sel_index(pre.local_selected) + 1) as usize)
            } else {
                pre.local_selected
            }))
    &&& (post == (App { local_selected: post.local_selected, ..pre }))
}

pub open spec fn local_enter_rel(pre: App, post: App, act: Option<Action>) -> bool {
    &&& (post == pre)
    &&& (match pre.local_selected {
                Some(idx) => if idx < pre.local_entries@.len() && pre.local_entries@[idx as int].is_dir {
                    act matches Some(a) && a matches Action::LocalEnter { name } && name == pre.local_entries@[idx as int].name
                } else {
                    act is None
                },
                None => act is None,
            })
}

pub open spec fn local_go_back_rel(pre: App, post: App, act: Option<Action>) -> bool {
    &&& (post == pre)
    &&& (act matches Some(a) && a is LocalUp)
}

impl App {
    /// Take a raw directory listing: hidden entries are skipped, the rest is
    /// sorted directories-first then by case-insensitive name, and the first
    /// row is selected when any remains.
    pub fn set_local_listing(&mut self, raw: Vec<LocalEntry>)
        ensures
            sorted_by(final(self).local_entries@, local_leq()),
            final(self).local_entries@.to_multiset() == raw@.filter(not_hidden()).to_multiset(),
            final(self).local_selected == (if final(self).local_entries@.len() == 0 {
                Option::<usize>::None
            } else {
                Option::<usize>::Some(0usize)
            }),
            *final(self) == (App {
                local_entries: final(self).local_entries,
                local_selected: final(self).local_selected,
                ..*old(self)
            }),
    {
        let mut shown: Vec<LocalEntry> = Vec::new();
        let mut i: usize = 0;
        proof {
            reveal(Seq::filter);
            assert(raw@.take(0int).filter(not_hidden()) =~= Seq::<LocalEntry>::empty());
        }
        while i < raw.len()
            invariant
                i <= raw@.len(),
                shown@ == raw@.take(i as int).filter(not_hidden()),
            decreases raw@.len() - i,
        {
            let ghost pre = raw@.take(i as int).filter(not_hidden());
            proof {
                reveal(Seq::filter);
                assert(raw@.take(i + 1).drop_last() =~= raw@.take(i as int));
                assert(raw@.take(i + 1).last() == raw@[i as int]);
            }
            let name = &raw[i].name;
            let hidden = if name.as_str().is_empty() {
                false
            } else {
                let c = name.as_str().get_char(0);
                c == '.'
            };
            if !hidden {
                shown.push(raw[i].clone());
                proof {
                    assert(raw@.take(i + 1).filter(not_hidden()) =~= pre.push(raw@[i as int]));
                }
            } else {
                proof {
                    assert(raw@.take(i + 1).filter(not_hidden()) =~= pre);
                }
            }
            i = i + 1;
        }
        proof {
            assert(raw@.take(raw@.len() as int) =~= raw@);
        }
        let sorted = sort_local_entries(shown);
        self.local_selected = if sorted.len() == 0 {
            None
        } else {
            Some(0usize)
        };
        self.local_entries = sorted;
    }

    /// Move the local selection one row up.
    pub fn local_move_up(&mut self)
        ensures
            local_move_up_rel(*old(self), *final(self)),
    {
        let i = match self.local_selected {
            Some(i) => i,
            None => 0,
        };
        if i > 0 {
            self.local_selected = Some(i - 1);
        }
    }

    /// Move the local selection one row down.
    pub fn local_move_down(&mut self)
        ensures
            local_move_down_rel(*old(self), *final(self)),
    {
        let i = match self.local_selected {
            Some(i) => i,
            None => 0,
        };
        let len = self.local_entries.len();
        if i < len && i + 1 < len {
            self.local_selected = Some(i + 1);
        }
    }

    /// Descend into the selected local directory, if the selection is a
    /// directory.
    pub fn local_enter(&mut self) -> (act: Option<Action>)
        ensures
            local_enter_rel(*old(self), *final(self), act),
    {
        let idx = match self.local_selected {
            Some(idx) => idx,
            None => {
                return None;
            },
        };
        if idx < self.local_entries.len() && self.local_entries[idx].is_dir {
            let name = self.local_entries[idx].name.clone();
            Some(Action::LocalEnter { name })
        } else {
            None
        }
    }

    /// Go to the local parent directory.
    pub fn local_go_back(&mut self) -> (act: Option<Action>)
        ensures
            local_go_back_rel(*old(self), *final(self), act),
    {
        Some(Action::LocalUp)
    }
}

} // verus!
