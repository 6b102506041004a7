//! A table of named statistics, each shown as a row with its latest value.
use vstd::prelude::*;

verus! {

/// Refers to one row of a `StatTracker`.
#[derive(Clone, Copy, Debug, PartialEq, Eq, Structural)]
pub struct StatHandle {
    inner: usize,
}

impl StatHandle {
    /// The row this handle refers to.
    pub closed spec fn row(&self) -> nat {
        self.inner as nat
    }

    /// The row this handle refers to.
    pub fn index(&self) -> (i: usize)
        ensures
            i == self.row(),
    {
        self.inner
    }
}

/// A kind of value that can be shown in the statistics table.
pub trait StatValue: Sized + core::fmt::Display {}

/// The rows of the statistics table: a name and the latest value shown for it.
pub struct StatTracker {
    stats: Vec<(String, String)>,
}

impl StatTracker {
    /// The rows, in the order they were added: (name, value).
    pub closed spec fn rows(&self) -> Seq<(Seq<char>, Seq<char>)> {
        self.stats@.map_values(|r: (String, String)| (r.0@, r.1@))
    }

    /// An empty table.
    pub fn new() -> (tracker: Self)
        ensures
            tracker.rows() == Seq::<(Seq<char>, Seq<char>)>::empty(),
    {
        let tracker = StatTracker { stats: Vec::new() };
        assert(tracker.rows() =~= Seq::<(Seq<char>, Seq<char>)>::empty());
        tracker
    }

    /// Adds a row named `name` with an empty value, and returns the handle of that row.
    pub fn new_stat(&mut self, name: String) -> (handle: StatHandle)
        ensures
            final(self).rows() == old(self).rows().push((name@, Seq::<char>::empty())),
            handle.row() == old(self).rows().len(),
    {
        self.stats.push((name, String::new()));
        assert(self.rows() =~= old(self).rows().push((name@, Seq::<char>::empty())));
        StatHandle { inner: self.stats.len() - 1 }
    }

    /// Shows `value` in the row of `handle`; the other rows are unchanged.
    pub fn update(&mut self, handle: &StatHandle, value: String)
        requires
            handle.row() < old(self).rows().len(),
        ensures
            final(self).rows() == old(self).rows().update(
                handle.row() as int,
                (old(self).rows()[handle.row() as int].0, value@),
            ),
    {
        let i = handle.inner;
        let name = self.stats[i].0.clone();
        self.stats.set(i, (name, value));
        assert(self.rows() =~= old(self).rows().update(
            handle.row() as int,
            (old(self).rows()[handle.row() as int].0, value@),
        ));
    }

    /// The name and the value shown in the row of `handle`.
    pub fn row(&self, handle: &StatHandle) -> (row: (String, String))
        requires
            handle.row() < self.rows().len(),
        ensures
            (row.0@, row.1@) == self.rows()[handle.row() as int],
    {
        let (name, value) = &self.stats[handle.inner];
        (name.clone(), value.clone())
    }
}

} // verus!
