//! The visitors that the queries of this crate hand to directory iteration and tree walks.

use vstd::prelude::*;
use crate::bytes::copy_range;
use crate::inode::RafsV5Inode;
use crate::inspect::{Action, InodeVisitor};

verus! {

/// Tells whether two byte strings are equal.
pub fn bytes_eq(a: &[u8], b: &[u8]) -> (r: bool)
    ensures
        r == (a@ == b@),
{
    if a.len() != b.len() {
        return false;
    }
    let n = a.len();
    let mut i: usize = 0;
    while i < n
        invariant
            i <= n,
            n == a@.len(),
            n == b@.len(),
            forall|j: int| 0 <= j < i ==> a@[j] == b@[j],
        decreases n - i,
    {
        if a[i] != b[i] {
            return false;
        }
        i = i + 1;
    }
    assert(a@ =~= b@);
    true
}

/// An entry of a directory as an iteration found it.
#[derive(Clone, Debug, PartialEq, Eq)]
pub struct DirEntry {
    /// The file name.
    pub name: Vec<u8>,
    /// The inode header.
    pub inode: RafsV5Inode,
    /// The table index of the inode.
    pub index: u32,
    /// The byte offset of the inode record.
    pub offset: u64,
}

/// A directory entry as a mathematical value.
pub struct EntryView {
    pub name: Seq<u8>,
    pub inode: RafsV5Inode,
    pub index: u32,
    pub offset: u64,
}

impl View for DirEntry {
    type V = EntryView;

    open spec fn view(&self) -> EntryView {
        EntryView { name: self.name@, inode: self.inode, index: self.index, offset: self.offset }
    }
}

/// The directory entries held by a sequence, as mathematical values.
pub open spec fn entry_views(v: Seq<DirEntry>) -> Seq<EntryView> {
    Seq::new(v.len(), |i: int| v[i]@)
}

/// Where a name was found: the inode header, its table index and its byte offset.
#[derive(Clone, Copy, Debug, PartialEq, Eq)]
pub struct Hit {
    pub inode: RafsV5Inode,
    pub index: u32,
    pub offset: u64,
}

/// A visitor that looks for the first entry with a given name and stops there.
pub struct FindByName {
    /// The name that is looked for.
    pub name: Vec<u8>,
    /// The first entry with that name, once it was seen.
    pub hit: Option<Hit>,
}

impl FindByName {
    /// A visitor that looks for `name` and has not found it yet.
    pub fn new(name: &[u8]) -> (v: Self)
        ensures
            v.state() == (name@, None::<Hit>),
    {
        FindByName { name: copy_range(name, 0, name.len()), hit: None }
    }
}

impl InodeVisitor for FindByName {
    type State = (Seq<u8>, Option<Hit>);

    open spec fn state(&self) -> (Seq<u8>, Option<Hit>) {
        (self.name@, self.hit)
    }

    open spec fn visited(
        state: (Seq<u8>, Option<Hit>),
        name: Seq<u8>,
        inode: RafsV5Inode,
        index: u32,
        offset: u64,
    ) -> ((Seq<u8>, Option<Hit>), Action) {
        if name == state.0 {
            ((state.0, Some(Hit { inode, index, offset })), Action::Break)
        } else {
            (state, Action::Continue)
        }
    }

    fn visit(&mut self, name: &[u8], inode: &RafsV5Inode, index: u32, offset: u64) -> (a: Action)
    {
        if bytes_eq(name, self.name.as_slice()) {
            self.hit = Some(Hit { inode: *inode, index, offset });
            Action::Break
        } else {
            Action::Continue
        }
    }
}

/// Which entries a collecting visitor keeps.
#[derive(Clone, Copy, Debug, PartialEq, Eq, Structural)]
pub enum EntryFilter {
    /// Every entry.
    All,
    /// The regular files.
    Regular,
    /// The entries with the given inode number.
    Ino(u64),
    /// The entries that are no directories and hold data.
    Data,
}

impl EntryFilter {
    /// Whether the filter keeps an entry with the inode header `inode`.
    pub open spec fn spec_accepts(self, inode: RafsV5Inode) -> bool {
        match self {
            EntryFilter::All => true,
            EntryFilter::Regular => inode.spec_is_reg(),
            EntryFilter::Ino(ino) => inode.i_ino == ino,
            EntryFilter::Data => !inode.spec_is_dir() && inode.i_size != 0,
        }
    }

    /// Tells whether the filter keeps an entry with the inode header `inode`.
    pub fn accepts(&self, inode: &RafsV5Inode) -> (r: bool)
        ensures
            r == self.spec_accepts(*inode),
    {
        match self {
            EntryFilter::All => true,
            EntryFilter::Regular => inode.is_reg(),
            EntryFilter::Ino(ino) => inode.i_ino == *ino,
            EntryFilter::Data => !inode.is_dir() && inode.i_size != 0,
        }
    }
}

/// A visitor that keeps the entries that pass a filter, in the order it sees them, and
/// never asks for a `Break`.
pub struct CollectEntries {
    pub filter: EntryFilter,
    pub entries: Vec<DirEntry>,
}

impl CollectEntries {
    /// A visitor that keeps what passes `filter` and has seen nothing yet.
    pub fn new(filter: EntryFilter) -> (v: Self)
        ensures
            v.state() == (filter, Seq::<EntryView>::empty()),
    {
        let v = CollectEntries { filter, entries: Vec::new() };
        assert(entry_views(v.entries@) =~= Seq::<EntryView>::empty());
        v
    }
}

impl InodeVisitor for CollectEntries {
    type State = (EntryFilter, Seq<EntryView>);

    open spec fn state(&self) -> (EntryFilter, Seq<EntryView>) {
        (self.filter, entry_views(self.entries@))
    }

    open spec fn visited(
        state: (EntryFilter, Seq<EntryView>),
        name: Seq<u8>,
        inode: RafsV5Inode,
        index: u32,
        offset: u64,
    ) -> ((EntryFilter, Seq<EntryView>), Action) {
        if state.0.spec_accepts(inode) {
            ((state.0, state.1.push(EntryView { name, inode, index, offset })), Action::Continue)
        } else {
            (state, Action::Continue)
        }
    }

    fn visit(&mut self, name: &[u8], inode: &RafsV5Inode, index: u32, offset: u64) -> (a: Action)
    {
        if self.filter.accepts(inode) {
            let ghost before = entry_views(self.entries@);
            let entry = DirEntry { name: copy_range(name, 0, name.len()), inode: *inode, index, offset };
            let ghost view = entry@;
            assert(view.name =~= name@);
            self.entries.push(entry);
            assert(entry_views(self.entries@) =~= before.push(view));
        }
        Action::Continue
    }
}

/// A visitor that keeps the name of every entry it sees and asks for a `Break` at the
/// entries with a given name.
pub struct CollectUntil {
    /// The name at which the visitor asks for a `Break`.
    pub stop: Vec<u8>,
    /// The names seen so far, in order.
    pub names: Vec<Vec<u8>>,
}

impl CollectUntil {
    /// A visitor that stops at `stop` and has seen nothing yet.
    pub fn new(stop: &[u8]) -> (v: Self)
        ensures
            v.state() == (stop@, Seq::<Seq<u8>>::empty()),
    {
        let v = CollectUntil { stop: copy_range(stop, 0, stop.len()), names: Vec::new() };
        assert(v.stop@ =~= stop@);
        assert(crate::path::views(v.names@) =~= Seq::<Seq<u8>>::empty());
        v
    }
}

impl InodeVisitor for CollectUntil {
    type State = (Seq<u8>, Seq<Seq<u8>>);

    open spec fn state(&self) -> (Seq<u8>, Seq<Seq<u8>>) {
        (self.stop@, crate::path::views(self.names@))
    }

    open spec fn visited(
        state: (Seq<u8>, Seq<Seq<u8>>),
        name: Seq<u8>,
        inode: RafsV5Inode,
        index: u32,
        offset: u64,
    ) -> ((Seq<u8>, Seq<Seq<u8>>), Action) {
        (
            (state.0, state.1.push(name)),
            if name == state.0 {
                Action::Break
            } else {
                Action::Continue
            },
        )
    }

    fn visit(&mut self, name: &[u8], inode: &RafsV5Inode, index: u32, offset: u64) -> (a: Action)
    {
        let ghost before = crate::path::views(self.names@);
        let own = copy_range(name, 0, name.len());
        assert(own@ =~= name@);
        self.names.push(own);
        assert(crate::path::views(self.names@) =~= before.push(name@));
        if bytes_eq(name, self.stop.as_slice()) {
            Action::Break
        } else {
            Action::Continue
        }
    }
}

} // verus!
