//! Torrent storage held in memory: one growable buffer of bytes for each file.

use vstd::prelude::*;

verus! {

/// Why a storage operation failed.
#[derive(Debug, Clone, Copy, PartialEq, Eq, Structural)]
pub enum StorageError {
    /// The storage has no file with that number.
    NoSuchFile,
    /// The span does not lie inside the file as it is now.
    OutOfBounds,
}

/// Whether the span of `len` bytes at `offset` lies inside `file`.
pub open spec fn span_inside(file: Seq<u8>, offset: u64, len: nat) -> bool {
    offset + len <= file.len()
}

/// `file` cut or filled with zero bytes to the length `len`.
pub open spec fn resized(file: Seq<u8>, len: nat) -> Seq<u8> {
    Seq::new(
        len,
        |i: int|
            if i < file.len() {
                file[i]
            } else {
                0u8
            },
    )
}

/// `file` with `data` written at `offset`.
pub open spec fn written(file: Seq<u8>, offset: u64, data: Seq<u8>) -> Seq<u8> {
    Seq::new(
        file.len(),
        |i: int|
            if offset <= i < offset + data.len() {
                data[i - offset]
            } else {
                file[i]
            },
    )
}

/// Reads `len` bytes of a file at `offset`.
pub fn read_span(file: &Vec<u8>, offset: u64, len: usize) -> (r: Result<Vec<u8>, StorageError>)
    ensures
        match r {
            Ok(data) => span_inside(file@, offset, len as nat) && data@ == file@.subrange(
                offset as int,
                offset + len,
            ),
            Err(e) => !span_inside(file@, offset, len as nat) && e == StorageError::OutOfBounds,
        },
{
    if offset > file.len() as u64 || len > file.len() - offset as usize {
        return Err(StorageError::OutOfBounds);
    }
    let start: usize = offset as usize;
    let mut data: Vec<u8> = Vec::new();
    let mut i: usize = 0;
    while i < len
        invariant
            i <= len,
            start + len <= file.len(),
            data@ == file@.subrange(start as int, start + i),
        decreases len - i,
    {
        data.push(file[start + i]);
        i += 1;
    }
    Ok(data)
}

/// Writes `data` into a file at `offset`. The file keeps its length; a span
/// that does not lie inside it changes nothing.
pub fn write_span(file: &mut Vec<u8>, offset: u64, data: &[u8]) -> (r: Result<(), StorageError>)
    ensures
        match r {
            Ok(_) => span_inside(old(file)@, offset, data@.len()) && final(file)@ == written(
                old(file)@,
                offset,
                data@,
            ),
            Err(e) => !span_inside(old(file)@, offset, data@.len()) && e
                == StorageError::OutOfBounds && final(file)@ == old(file)@,
        },
{
    if offset > file.len() as u64 || data.len() > file.len() - offset as usize {
        return Err(StorageError::OutOfBounds);
    }
    let start: usize = offset as usize;
    let mut i: usize = 0;
    while i < data.len()
        invariant
            i <= data.len(),
            start == offset,
            start + data.len() <= file.len(),
            file@.len() == old(file)@.len(),
            forall|k: int| 0 <= k < file@.len() ==> file@[k] == if start <= k < start + i {
                data@[k - start]
            } else {
                old(file)@[k]
            },
        decreases data.len() - i,
    {
        file.set(start + i, data[i]);
        i += 1;
    }
    assert(file@ =~= written(old(file)@, offset, data@));
    Ok(())
}

/// Cuts a file, or fills it with zero bytes, to the length `len`.
pub fn resize(file: &mut Vec<u8>, len: usize)
    ensures
        final(file)@ == resized(old(file)@, len as nat),
{
    if len <= file.len() {
        file.truncate(len);
        assert(file@ =~= resized(old(file)@, len as nat));
    } else {
        while file.len() < len
            invariant
                old(file).len() <= file.len() <= len,
                file@ == resized(old(file)@, file.len() as nat),
            decreases len - file.len(),
        {
            let ghost before = file@;
            file.push(0);
            assert(file@ =~= resized(old(file)@, file.len() as nat));
        }
    }
}

/// Takes the bytes out of a file and leaves it empty.
pub fn take_file(file: &mut Vec<u8>) -> (taken: Vec<u8>)
    ensures
        taken@ == old(file)@,
        final(file)@.len() == 0,
{
    let mut taken: Vec<u8> = Vec::new();
    std::mem::swap(file, &mut taken);
    taken
}

/// The storage of one torrent.
pub struct InMemStorage {
    files: Vec<Vec<u8>>,
}

/// Makes the storage of a torrent.
#[derive(Debug, Clone, Copy, PartialEq, Eq, Structural)]
pub struct InMemStorageFactory;

impl InMemStorageFactory {
    /// A storage with `file_count` files, all empty.
    pub fn create(&self, file_count: usize) -> (s: InMemStorage)
        ensures
            s@.len() == file_count,
            forall|i: int| 0 <= i < file_count ==> (#[trigger] s@[i]).len() == 0,
    {
        let mut files: Vec<Vec<u8>> = Vec::new();
        while files.len() < file_count
            invariant
                files.len() <= file_count,
                forall|i: int| 0 <= i < files.len() ==> (#[trigger] files@[i])@.len() == 0,
            decreases file_count - files.len(),
        {
            files.push(Vec::new());
        }
        InMemStorage { files }
    }
}

impl InMemStorage {
    /// The bytes of each file.
    pub closed spec fn view(&self) -> Seq<Seq<u8>> {
        Seq::new(self.files@.len(), |i: int| self.files@[i]@)
    }

    /// The number of files.
    pub fn file_count(&self) -> (n: usize)
        ensures
            n == self@.len(),
    {
        self.files.len()
    }

    /// The length of a file, where the storage has it.
    pub fn file_len(&self, file_id: usize) -> (r: Option<usize>)
        ensures
            r == if file_id < self@.len() {
                Some(self@[file_id as int].len() as usize)
            } else {
                None
            },
    {
        if file_id < self.files.len() {
            Some(self.files[file_id].len())
        } else {
            None
        }
    }

    /// Nothing is to be prepared: the storage stays as it is.
    pub fn init(&mut self) -> (r: Result<(), StorageError>)
        ensures
            r is Ok,
            final(self)@ == old(self)@,
    {
        Ok(())
    }

    /// Reads `len` bytes of a file at `offset`.
    pub fn pread_exact(&self, file_id: usize, offset: u64, len: usize) -> (r: Result<
        Vec<u8>,
        StorageError,
    >)
        ensures
            match r {
                Ok(data) => file_id < self@.len() && span_inside(
                    self@[file_id as int],
                    offset,
                    len as nat,
                ) && data@ == self@[file_id as int].subrange(offset as int, offset + len),
                Err(StorageError::NoSuchFile) => file_id >= self@.len(),
                Err(StorageError::OutOfBounds) => file_id < self@.len() && !span_inside(
                    self@[file_id as int],
                    offset,
                    len as nat,
                ),
            },
    {
        if file_id >= self.files.len() {
            return Err(StorageError::NoSuchFile);
        }
        read_span(&self.files[file_id], offset, len)
    }

    /// Writes `data` into a file at `offset`. Nothing changes where it fails,
    /// and no other file changes where it succeeds.
    pub fn pwrite_all(&mut self, file_id: usize, offset: u64, data: &[u8]) -> (r: Result<
        (),
        StorageError,
    >)
        ensures
            match r {
                Ok(_) => file_id < old(self)@.len() && span_inside(
                    old(self)@[file_id as int],
                    offset,
                    data@.len(),
                ) && final(self)@ == old(self)@.update(
                    file_id as int,
                    written(old(self)@[file_id as int], offset, data@),
                ),
                Err(StorageError::NoSuchFile) => file_id >= old(self)@.len() && final(self)@ == old(self)@,
                Err(StorageError::OutOfBounds) => file_id < old(self)@.len() && !span_inside(
                    old(self)@[file_id as int],
                    offset,
                    data@.len(),
                ) && final(self)@ == old(self)@,
            },
    {
        if file_id >= self.files.len() {
            return Err(StorageError::NoSuchFile);
        }
        let r = write_span(&mut self.files[file_id], offset, data);
        proof {
            match r {
                Ok(_) => {
                    assert(self@ =~= old(self)@.update(
                        file_id as int,
                        written(old(self)@[file_id as int], offset, data@),
                    ));
                },
                Err(_) => {
                    assert(self@ =~= old(self)@);
                },
            }
        }
        r
    }

    /// Empties a file. The file itself stays, with no bytes: the storage has
    /// no directory from which it could leave.
    pub fn remove_file(&mut self, file_id: usize) -> (r: Result<(), StorageError>)
        ensures
            match r {
                Ok(_) => file_id < old(self)@.len() && final(self)@ == old(self)@.update(
                    file_id as int,
                    Seq::<u8>::empty(),
                ),
                Err(e) => e == StorageError::NoSuchFile && file_id >= old(self)@.len() && final(self)@ == old(self)@,
            },
    {
        if file_id >= self.files.len() {
            return Err(StorageError::NoSuchFile);
        }
        self.files.set(file_id, Vec::new());
        assert(self@ =~= old(self)@.update(file_id as int, Seq::<u8>::empty()));
        Ok(())
    }

    /// There are no directories: the storage stays as it is.
    pub fn remove_directory_if_empty(&self) -> (r: Result<(), StorageError>)
        ensures
            r is Ok,
    {
        Ok(())
    }

    /// Cuts a file, or fills it with zero bytes, to the length `length`. A
    /// length beyond what memory can address is out of bounds.
    pub fn ensure_file_length(&mut self, file_id: usize, length: u64) -> (r: Result<
        (),
        StorageError,
    >)
        ensures
            match r {
                Ok(_) => file_id < old(self)@.len() && length <= usize::MAX && final(self)@ == old(self)@.update(file_id as int, resized(old(self)@[file_id as int], length as nat)),
                Err(StorageError::NoSuchFile) => file_id >= old(self)@.len() && final(self)@ == old(self)@,
                Err(StorageError::OutOfBounds) => file_id < old(self)@.len() && length
                    > usize::MAX && final(self)@ == old(self)@,
            },
    {
        if file_id >= self.files.len() {
            return Err(StorageError::NoSuchFile);
        }
        if length > usize::MAX as u64 {
            return Err(StorageError::OutOfBounds);
        }
        resize(&mut self.files[file_id], length as usize);
        assert(self@ =~= old(self)@.update(
            file_id as int,
            resized(old(self)@[file_id as int], length as nat),
        ));
        Ok(())
    }

    /// Moves the bytes of every file into a new storage. This storage keeps
    /// its files, all empty.
    pub fn take(&mut self) -> (taken: InMemStorage)
        ensures
            taken@ == old(self)@,
            final(self)@.len() == old(self)@.len(),
            forall|i: int| 0 <= i < final(self)@.len() ==> (#[trigger] final(self)@[i]).len() == 0,
    {
        let n = self.files.len();
        let mut fresh = InMemStorageFactory.create(n);
        std::mem::swap(&mut self.files, &mut fresh.files);
        assert(fresh@ =~= old(self)@);
        fresh
    }
}

} // verus!
