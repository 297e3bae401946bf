use vstd::prelude::*;

verus! {

/// Ghost image of a tab cursor: its entries and the selected position.
pub struct TabsView<T> {
    pub index: int,
    pub entries: Seq<(u16, u16, T)>,
}

/// A cyclic cursor over a fixed, non-empty list of screen positions, each
/// entry carrying a value for the caller (a player to pick, a cell index).
pub struct Tabs<T> {
    index: usize,
    positions: Vec<(u16, u16, T)>,
}

impl<T> View for Tabs<T> {
    type V = TabsView<T>;

    closed spec fn view(&self) -> TabsView<T> {
        TabsView { index: self.index as int, entries: self.positions@ }
    }
}

impl<T> Tabs<T> {
    #[verifier::type_invariant]
    spec fn wf(self) -> bool {
        &&& self.positions@.len() >= 1
        &&& (self.index as int) < self.positions@.len()
    }

    /// A cursor over `positions`, starting on the first entry.
    pub fn new(positions: Vec<(u16, u16, T)>) -> (t: Tabs<T>)
        requires
            positions@.len() >= 1,
        ensures
            t@.entries == positions@,
            t@.index == 0,
    {
        Tabs { index: 0, positions }
    }

    /// The screen coordinates of the selected entry.
    pub fn positions(&self) -> (p: (u16, u16))
        ensures
            p.0 == self@.entries[self@.index].0,
            p.1 == self@.entries[self@.index].1,
    {
        proof {
            use_type_invariant(self);
        }
        (self.positions[self.index].0, self.positions[self.index].1)
    }

    /// The value carried by the selected entry.
    pub fn value(&self) -> (v: &T)
        ensures
            *v == self@.entries[self@.index].2,
    {
        proof {
            use_type_invariant(self);
        }
        &self.positions[self.index].2
    }

    /// Advance the cursor one entry, wrapping past the last back to the first.
    pub fn next(&mut self)
        ensures
            final(self)@.entries == old(self)@.entries,
            final(self)@.index == (old(self)@.index + 1) % (old(self)@.entries.len() as int),
    {
        proof {
            use_type_invariant(&*self);
        }
        let n = self.positions.len();
        self.index = if self.index + 1 == n {
            0
        } else {
            self.index + 1
        };
        proof {
            let len: int = old(self)@.entries.len() as int;
            let i: int = old(self)@.index;
            if i + 1 == len {
                assert((i + 1) % len == 0) by (nonlinear_arith)
                    requires
                        i + 1 == len,
                        len >= 1,
                ;
            } else {
                assert((i + 1) % len == i + 1) by (nonlinear_arith)
                    requires
                        0 <= i + 1 < len,
                ;
            }
        }
    }

    /// Move the cursor back one entry, wrapping past the first to the last.
    pub fn prev(&mut self)
        ensures
            final(self)@.entries == old(self)@.entries,
            final(self)@.index == (old(self)@.index - 1 + old(self)@.entries.len() as int) % (
            old(self)@.entries.len() as int),
    {
        proof {
            use_type_invariant(&*self);
        }
        let n = self.positions.len();
        self.index = if self.index == 0 {
            n - 1
        } else {
            self.index - 1
        };
        proof {
            let len: int = old(self)@.entries.len() as int;
            let i: int = old(self)@.index;
            if i == 0 {
                assert((i - 1 + len) % len == len - 1) by (nonlinear_arith)
                    requires
                        i == 0,
                        len >= 1,
                ;
            } else {
                assert((i - 1 + len) % len == i - 1) by (nonlinear_arith)
                    requires
                        1 <= i < len,
                ;
            }
        }
    }
}

} // verus!
