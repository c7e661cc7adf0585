use vstd::prelude::*;

verus! {

/// A key press while a list is reordered.
#[derive(Clone, Copy, Debug, PartialEq, Eq, Structural)]
pub enum ReorderKey {
    Up,
    Down,
    /// Picks up the item under the cursor, or puts down the one held.
    Toggle,
    Confirm,
    Quit,
}

/// What the reordering does after a key.
#[derive(Clone, Copy, Debug, PartialEq, Eq, Structural)]
pub enum ReorderStep {
    Continue,
    Done,
    Interrupted,
}

/// A list being put in order by hand: a cursor moves over it, and a picked
/// item moves with the cursor, trading places with its neighbour.
#[derive(Debug)]
pub struct Reorder<T> {
    pub items: Vec<T>,
    pub cursor: usize,
    pub selected: Option<usize>,
}

/// `s` with the items at `i` and `j` trading places.
pub open spec fn swapped<T>(s: Seq<T>, i: int, j: int) -> Seq<T> {
    s.update(i, s[j]).update(j, s[i])
}

impl<T> Reorder<T> {
    /// Whether the cursor, and the picked item if any, lie inside the list.
    pub open spec fn wf(&self) -> bool {
        &&& (self.items@.len() == 0 ==> self.cursor == 0)
        &&& (self.items@.len() > 0 ==> self.cursor < self.items@.len())
        &&& (self.selected matches Some(s) ==> s == self.cursor && s < self.items@.len())
    }

    /// Starts with the cursor on the first item and nothing picked.
    pub fn new(items: Vec<T>) -> (r: Reorder<T>)
        ensures
            r.wf(),
            r.items@ == items@,
            r.cursor == 0,
            r.selected is None,
    {
        Reorder { items, cursor: 0, selected: None }
    }

    /// Applies one key. Up and Down move the cursor within the list, and
    /// move the picked item with it; Toggle picks up or puts down; Confirm
    /// ends with the order reached; Quit ends without one.
    pub fn press(&mut self, key: ReorderKey) -> (r: ReorderStep)
        requires
            old(self).wf(),
        ensures
            final(self).wf(),
            r == (match key {
                ReorderKey::Confirm => ReorderStep::Done,
                ReorderKey::Quit => ReorderStep::Interrupted,
                _ => ReorderStep::Continue,
            }),
            key == ReorderKey::Up ==> match old(self).selected {
                Some(s) => if s > 0 {
                    final(self).items@ == swapped(old(self).items@, s as int, s - 1) && final(self).selected
                        == Some((s - 1) as usize) && final(self).cursor == s - 1
                } else {
                    *final(self) == *old(self)
                },
                None => final(self).items@ == old(self).items@ && final(self).selected is None
                    && final(self).cursor == if old(self).cursor > 0 {
                    (old(self).cursor - 1) as usize
                } else {
                    0
                },
            },
            key == ReorderKey::Down ==> match old(self).selected {
                Some(s) => if s + 1 < old(self).items@.len() {
                    final(self).items@ == swapped(old(self).items@, s as int, s + 1) && final(self).selected
                        == Some((s + 1) as usize) && final(self).cursor == s + 1
                } else {
                    *final(self) == *old(self)
                },
                None => final(self).items@ == old(self).items@ && final(self).selected is None
                    && final(self).cursor == if old(self).cursor + 1 < old(self).items@.len() {
                    (old(self).cursor + 1) as usize
                } else {
                    old(self).cursor
                },
            },
            key == ReorderKey::Toggle ==> final(self).items@ == old(self).items@ && final(self).cursor
                == old(self).cursor && final(self).selected == match old(self).selected {
                Some(_) => None,
                None => if old(self).items@.len() > 0 {
                    Some(old(self).cursor)
                } else {
                    None
                },
            },
            (key == ReorderKey::Confirm || key == ReorderKey::Quit) ==> *final(self) == *old(self),
    {
        match key {
            ReorderKey::Up => {
                match self.selected {
                    Some(s) => {
                        if s > 0 {
                            let ghost before = self.items@;
                            let item = self.items.remove(s);
                            self.items.insert(s - 1, item);
                            assert(self.items@ =~= swapped(before, s as int, s - 1));
                            self.selected = Some(s - 1);
                            self.cursor = s - 1;
                        }
                    },
                    None => {
                        if self.cursor > 0 {
                            self.cursor = self.cursor - 1;
                        }
                    },
                }
                ReorderStep::Continue
            },
            ReorderKey::Down => {
                match self.selected {
                    Some(s) => {
                        if s < self.items.len() && self.items.len() - s > 1 {
                            let ghost before = self.items@;
                            let item = self.items.remove(s);
                            self.items.insert(s + 1, item);
                            assert(self.items@ =~= swapped(before, s as int, s + 1));
                            self.selected = Some(s + 1);
                            self.cursor = s + 1;
                        }
                    },
                    None => {
                        if self.cursor < self.items.len() && self.items.len() - self.cursor > 1 {
                            self.cursor = self.cursor + 1;
                        }
                    },
                }
                ReorderStep::Continue
            },
            ReorderKey::Toggle => {
                if self.selected.is_some() {
                    self.selected = None;
                } else if self.items.len() > 0 {
                    self.selected = Some(self.cursor);
                }
                ReorderStep::Continue
            },
            ReorderKey::Confirm => ReorderStep::Done,
            ReorderKey::Quit => ReorderStep::Interrupted,
        }
    }
}

/// Moving a picked item keeps every item of the list: a swap of two places
/// changes the order, never the contents.
pub proof fn lemma_swap_keeps_items<T>(s: Seq<T>, i: int, j: int)
    requires
        0 <= i < s.len(),
        0 <= j < s.len(),
    ensures
        swapped(s, i, j).to_multiset() == s.to_multiset(),
        swapped(s, i, j).len() == s.len(),
{
    broadcast use vstd::seq_lib::group_to_multiset_ensures;

    let t = s.update(i, s[j]);
    assert(t.to_multiset() == s.to_multiset().remove(s[i]).insert(s[j]));
    assert(swapped(s, i, j).to_multiset() == t.to_multiset().remove(t[j]).insert(s[i]));
    if i == j {
        assert(t =~= s);
    } else {
        assert(t[j] == s[j]);
    }
    assert(s.to_multiset().remove(s[i]).insert(s[j]).remove(s[j]).insert(s[i]) =~= s.to_multiset());
}

} // verus!
