//! What makes the inode records of a bootstrap a tree, and what follows from it.

use vstd::prelude::*;
use crate::error::RafsError;
use crate::inode::RafsV5Inode;
use crate::inspect::{Action, InodeVisitor, RafsInspector};
use crate::mock_inode::scan_from;
use crate::visitor::{CollectEntries, EntryFilter, EntryView, FindByName, Hit};

verus! {

impl RafsInspector {
    /// Whether the inode with table index `i` is an entry of the directory with table
    /// index `p`: `p` is a directory, and `i` lies in the range of table indexes that its
    /// header records for its entries.
    pub open spec fn in_child_range(&self, p: int, i: int) -> bool {
        &&& self.inode_by_index(p) is Ok
        &&& self.inode_by_index(p)->Ok_0.0.spec_is_dir()
        &&& self.inode_by_index(p)->Ok_0.0.i_child_index >= 1
        &&& self.inode_by_index(p)->Ok_0.0.i_child_index - 1 <= i
        &&& i < self.inode_by_index(p)->Ok_0.0.i_child_index - 1 + self.inode_by_index(
            p,
        )->Ok_0.0.i_child_count
    }

    /// Whether the inode records form a tree: every entry of the inode table can be
    /// decoded, a directory with entries records a first child, the entries of every
    /// directory are in the table and record that directory as their parent, and every
    /// inode but the root is an entry of some directory.
    pub open spec fn linked(&self) -> bool {
        let n = self.inodes_table@.len();
        &&& forall|i: int| 0 <= i < n ==> (#[trigger] self.inode_by_index(i)) is Ok
        &&& forall|p: int|
            0 <= p < n && (#[trigger] self.inode_by_index(p))->Ok_0.0.spec_is_dir()
                && self.inode_by_index(p)->Ok_0.0.i_child_count > 0 ==> self.inode_by_index(
                p,
            )->Ok_0.0.i_child_index >= 1
        &&& forall|p: int, i: int|
            0 <= p < n && #[trigger] self.in_child_range(p, i) ==> 0 <= i < n
                && self.inode_by_index(i)->Ok_0.0.i_parent == self.inode_by_index(p)->Ok_0.0.i_ino
        &&& forall|i: int| 0 < i < n ==> #[trigger] self.has_parent(i)
    }

    /// Whether the inode with table index `i` is an entry of some directory of the
    /// table.
    pub open spec fn has_parent(&self, i: int) -> bool {
        exists|p: int| 0 <= p < self.inodes_table@.len() && #[trigger] self.in_child_range(p, i)
    }

    /// In a tree the offset that the inode table gives for an inode leads to a record
    /// that fits its ancestry: the inode is an entry of a directory of the table, and the
    /// parent that its record names is that directory.
    pub proof fn lemma_offset_fits_ancestry(&self, i: int)
        requires
            self.linked(),
            0 < i < self.inodes_table@.len(),
        ensures
            crate::inspect::ondisk_inode(self.bootstrap@, crate::table::table_offset(self.inodes_table@, i))
                is Ok,
            exists|p: int|
                0 <= p < self.inodes_table@.len() && #[trigger] self.in_child_range(p, i)
                    && self.inode_by_index(i)->Ok_0.0.i_parent == self.inode_by_index(
                    p,
                )->Ok_0.0.i_ino,
    {
        assert(self.inode_by_index(i) is Ok);
        assert(self.has_parent(i));
        let p = choose|p: int|
            0 <= p < self.inodes_table@.len() && #[trigger] self.in_child_range(p, i);
        assert(self.in_child_range(p, i));
    }

    /// In a tree the iteration over the entries of a directory meets no error, whatever
    /// the visitor does, as long as the budget allows for all its entries.
    pub proof fn lemma_linked_level_has_no_error<V: InodeVisitor>(
        &self,
        p: int,
        budget: int,
        k: int,
        v: V::State,
        dirs: Seq<u32>,
    )
        requires
            self.linked(),
            self.inodes_table@.len() <= 0x1_0000_0000,
            0 <= p < self.inodes_table@.len(),
            self.inode_by_index(p)->Ok_0.0.spec_is_dir(),
            self.inode_by_index(p)->Ok_0.0.i_child_index >= 1,
            0 <= k,
            self.inode_by_index(p)->Ok_0.0.i_child_count <= budget,
        ensures
            self.level::<V>(
                self.inode_by_index(p)->Ok_0.0.i_ino,
                self.inode_by_index(p)->Ok_0.0.i_child_index - 1,
                self.inode_by_index(p)->Ok_0.0.i_child_count as int,
                budget,
                k,
                v,
                dirs,
            ).error is None,
        decreases self.inode_by_index(p)->Ok_0.0.i_child_count - k,
    {
        let dir = self.inode_by_index(p)->Ok_0.0;
        let first = dir.i_child_index - 1;
        if k < dir.i_child_count {
            assert(self.in_child_range(p, first + k));
            let (child, name) = self.inode_by_index(first + k)->Ok_0;
            let index = (first + k) as u32;
            let below = if child.spec_is_dir() {
                dirs.push(index)
            } else {
                dirs
            };
            let (after, action) = V::visited(
                v,
                name,
                child,
                index,
                crate::table::table_offset(self.inodes_table@, first + k) as u64,
            );
            if action == Action::Continue {
                self.lemma_linked_level_has_no_error::<V>(p, budget, k + 1, after, below);
            }
        }
    }

    /// In a tree every directory can be iterated: the iteration over the directory with
    /// table index `p` meets no error.
    pub proof fn lemma_linked_directory_iterates<V: InodeVisitor>(&self, p: int, v: V::State)
        requires
            self.linked(),
            self.inodes_table@.len() <= 0x1_0000_0000,
            0 <= p < self.inodes_table@.len(),
            self.inode_by_index(p)->Ok_0.0.spec_is_dir(),
        ensures
            self.dir_entries::<V>(p, 0x1_0000_0000, v).error is None,
    {
        let dir = self.inode_by_index(p)->Ok_0.0;
        assert(self.inode_by_index(p) is Ok);
        if dir.i_child_count > 0 {
            self.lemma_linked_level_has_no_error::<V>(p, 0x1_0000_0000, 0, v, Seq::empty());
        }
    }

    /// Whether the entries of the directory `dir` can all be decoded and record `dir` as
    /// their parent.
    pub open spec fn entries_readable(&self, dir: RafsV5Inode) -> bool {
        let first = dir.i_child_index - 1;
        let count = dir.i_child_count as int;
        &&& dir.spec_is_dir()
        &&& count > 0 ==> dir.i_child_index >= 1
        &&& first + count <= 0x1_0000_0000
        &&& forall|k: int|
            0 <= k < count ==> (#[trigger] self.inode_by_index(first + k)) is Ok
                && self.inode_by_index(first + k)->Ok_0.0.i_parent == dir.i_ino
    }

    /// The entry with the table index `i`, as an iteration hands it to a visitor.
    pub open spec fn entry_at(&self, i: int) -> EntryView {
        EntryView {
            name: self.inode_by_index(i)->Ok_0.1,
            inode: self.inode_by_index(i)->Ok_0.0,
            index: i as u32,
            offset: crate::table::table_offset(self.inodes_table@, i) as u64,
        }
    }

    /// The search for a name goes on from the `k`-th entry of a readable directory as a
    /// scan of the names of its entries does.
    pub proof fn lemma_search_is_scan(&self, dir: RafsV5Inode, name: Seq<u8>, k: int, dirs: Seq<u32>)
        requires
            self.entries_readable(dir),
            dir.i_child_count > 0,
            0 <= k,
        ensures
            ({
                let first = dir.i_child_index - 1;
                let count = dir.i_child_count as int;
                let out = self.level::<FindByName>(
                    dir.i_ino,
                    first,
                    count,
                    0x1_0000_0000,
                    k,
                    (name, None),
                    dirs,
                );
                &&& out.error is None
                &&& out.state.0 == name
                &&& out.state.1 == match scan_from(self.names_in_range(first, count), name, k) {
                    Some(m) => Some(self.hit_at(first + m)),
                    None => None,
                }
            }),
        decreases dir.i_child_count - k,
    {
        let first = dir.i_child_index - 1;
        let count = dir.i_child_count as int;
        if k < count {
            assert(self.inode_by_index(first + k) is Ok);
            let (child, child_name) = self.inode_by_index(first + k)->Ok_0;
            assert(self.names_in_range(first, count)[k] == child_name);
            let below = if child.spec_is_dir() {
                dirs.push((first + k) as u32)
            } else {
                dirs
            };
            if child_name != name {
                self.lemma_search_is_scan(dir, name, k + 1, below);
            }
        }
    }

    /// In a readable directory the lookup of a name finds what a scan of the names of
    /// its entries finds: the first entry of that name, or nothing where no entry has it.
    pub proof fn lemma_lookup_is_scan(&self, name: Seq<u8>)
        requires
            self.inode_by_index(self.cur_dir_index as int) is Ok,
            self.entries_readable(self.inode_by_index(self.cur_dir_index as int)->Ok_0.0),
        ensures
            ({
                let dir = self.inode_by_index(self.cur_dir_index as int)->Ok_0.0;
                let first = dir.i_child_index - 1;
                let count = dir.i_child_count as int;
                self.lookup(name) == Ok::<Option<Hit>, RafsError>(
                    match scan_from(self.names_in_range(first, count), name, 0) {
                        Some(m) => Some(self.hit_at(first + m)),
                        None => None,
                    },
                )
            }),
    {
        let dir = self.inode_by_index(self.cur_dir_index as int)->Ok_0.0;
        if dir.i_child_count > 0 {
            self.lemma_search_is_scan(dir, name, 0, Seq::empty());
        }
    }

    /// The listing goes on from the `k`-th entry of a readable directory by adding its
    /// entries one by one.
    pub proof fn lemma_listing_from(&self, dir: RafsV5Inode, k: int, acc: Seq<EntryView>, dirs: Seq<u32>)
        requires
            self.entries_readable(dir),
            dir.i_child_count > 0,
            0 <= k <= dir.i_child_count,
        ensures
            ({
                let first = dir.i_child_index - 1;
                let count = dir.i_child_count as int;
                let out = self.level::<CollectEntries>(
                    dir.i_ino,
                    first,
                    count,
                    0x1_0000_0000,
                    k,
                    (EntryFilter::All, acc),
                    dirs,
                );
                &&& out.error is None
                &&& out.state.1 == acc + Seq::new(
                    (count - k) as nat,
                    |j: int| self.entry_at(first + k + j),
                )
            }),
        decreases dir.i_child_count - k,
    {
        let first = dir.i_child_index - 1;
        let count = dir.i_child_count as int;
        if k < count {
            assert(self.inode_by_index(first + k) is Ok);
            let (child, child_name) = self.inode_by_index(first + k)->Ok_0;
            let below = if child.spec_is_dir() {
                dirs.push((first + k) as u32)
            } else {
                dirs
            };
            let next = acc.push(self.entry_at(first + k));
            self.lemma_listing_from(dir, k + 1, next, below);
            assert(next + Seq::new((count - (k + 1)) as nat, |j: int| self.entry_at(first + k + 1 + j))
                =~= acc + Seq::new((count - k) as nat, |j: int| self.entry_at(first + k + j)));
        } else {
            assert(acc + Seq::new((count - k) as nat, |j: int| self.entry_at(first + k + j)) =~= acc);
        }
    }

    /// The listing of a readable directory holds its entries, all of them and in the
    /// order of their table indexes.
    pub proof fn lemma_listing_is_child_range(&self)
        requires
            self.inode_by_index(self.cur_dir_index as int) is Ok,
            self.entries_readable(self.inode_by_index(self.cur_dir_index as int)->Ok_0.0),
        ensures
            ({
                let dir = self.inode_by_index(self.cur_dir_index as int)->Ok_0.0;
                self.listing() == Ok::<Seq<EntryView>, RafsError>(
                    Seq::new(
                        dir.i_child_count as nat,
                        |j: int| self.entry_at(dir.i_child_index - 1 + j),
                    ),
                )
            }),
    {
        let dir = self.inode_by_index(self.cur_dir_index as int)->Ok_0.0;
        let want = Seq::new(dir.i_child_count as nat, |j: int| self.entry_at(dir.i_child_index - 1 + j));
        if dir.i_child_count > 0 {
            self.lemma_listing_from(dir, 0, Seq::empty(), Seq::empty());
            assert(Seq::<EntryView>::empty() + Seq::new(
                (dir.i_child_count - 0) as nat,
                |j: int| self.entry_at(dir.i_child_index - 1 + 0 + j),
            ) =~= want);
        } else {
            assert(want =~= Seq::<EntryView>::empty());
        }
    }
}

} // verus!
