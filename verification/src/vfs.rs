//! The registry of mounted file systems and the vocabulary of files.

use vstd::prelude::*;

verus! {

/// A node of a file system: a file or a directory.
pub enum NodeType<F, D> {
    File(F),
    Directory(D),
}

/// Where a seek counts from.
#[derive(Clone, Copy, Debug, PartialEq, Eq, Structural)]
pub enum SeekFrom {
    /// Sets the offset to the given number of bytes.
    Start(usize),
    /// Sets the offset to the size of the object plus the given number of
    /// bytes (seeking before byte 0 is an error).
    End(isize),
    /// Sets the offset to the current position plus the given number of
    /// bytes (seeking before byte 0 is an error).
    Current(isize),
}

/// A file. Its methods take `&self`: files use interior mutability.
pub trait File {
    /// Reads bytes into `buffer`, returning how many were read.
    fn read(&self, buffer: &mut [u8]) -> Result<usize, &'static str>;

    /// Writes `buffer`, returning how many bytes were written.
    fn write(&self, buffer: &[u8]) -> Result<usize, &'static str>;

    /// Seeks to an offset and returns the new position from the start.
    fn seek(&self, pos: SeekFrom) -> Result<usize, &'static str>;
}

/// A directory.
pub trait Directory {}

/// The names of `entries`, in order.
pub open spec fn entry_names<T>(entries: Seq<(String, T)>) -> Seq<Seq<char>> {
    entries.map_values(|e: (String, T)| e.0@)
}

/// The mounted file systems, by name, in the order they were mounted.
pub struct MountTable<T> {
    entries: Vec<(String, T)>,
}

impl<T> MountTable<T> {
    /// The mounted file systems with their names, in the order they were
    /// mounted.
    pub closed spec fn entries(&self) -> Seq<(Seq<char>, T)> {
        self.entries@.map_values(|e: (String, T)| (e.0@, e.1))
    }

    /// The names of the mounted file systems.
    pub closed spec fn names(&self) -> Seq<Seq<char>> {
        entry_names(self.entries@)
    }

    /// No name is mounted twice.
    pub closed spec fn wf(&self) -> bool {
        forall|i: int, j: int|
            0 <= i < j < self.names().len() ==> #[trigger] self.names()[i] != #[trigger] self.names()[j]
    }

    /// An empty table.
    pub fn new() -> (r: MountTable<T>)
        ensures
            r.wf(),
            r.names() == Seq::<Seq<char>>::empty(),
            r.entries() == Seq::<(Seq<char>, T)>::empty(),
    {
        let r = MountTable { entries: Vec::new() };
        assert(r.names() =~= Seq::<Seq<char>>::empty());
        assert(r.entries() =~= Seq::<(Seq<char>, T)>::empty());
        r
    }

    /// The number of mounted file systems.
    pub fn len(&self) -> (r: usize)
        ensures
            r == self.names().len(),
    {
        self.entries.len()
    }

    /// Mounts `file_system` under `name`; refused (and the file system
    /// dropped) when a file system is already mounted under that name.
    pub fn mount(&mut self, name: String, file_system: T) -> (r: Result<(), ()>)
        requires
            old(self).wf(),
        ensures
            final(self).wf(),
            old(self).names().contains(name@) ==> r is Err && final(self).names() == old(self).names()
                && final(self).entries() == old(self).entries(),
            !old(self).names().contains(name@) ==> r is Ok && final(self).names() == old(
                self,
            ).names().push(name@) && final(self).entries() == old(self).entries().push(
                (name@, file_system),
            ),
    {
        let mut i: usize = 0;
        while i < self.entries.len()
            invariant
                i <= self.entries@.len(),
                self.wf(),
                forall|k: int| 0 <= k < i ==> entry_names(self.entries@)[k] != name@,
            decreases self.entries@.len() - i,
        {
            if self.entries[i].0 == name {
                proof {
                    assert(entry_names(self.entries@)[i as int] == name@);
                }
                return Err(());
            }
            i = i + 1;
        }
        let ghost before = self.names();
        let ghost before_entries = self.entries();
        let ghost n = name@;
        proof {
            assert(!before.contains(name@));
        }
        self.entries.push((name, file_system));
        proof {
            assert(self.names() =~= before.push(n));
            assert(self.entries() =~= before_entries.push((n, file_system)));
        }
        Ok(())
    }
}

} // verus!
