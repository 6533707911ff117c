//! The user-side record of an open file: the handle of the kernel object and
//! a read cursor.
//!
//! Talking to the kernel is the caller's part. The record keeps the cursor
//! and encodes the modes as the kernel expects them.

use vstd::prelude::*;

verus! {

/// Why a file operation failed.
#[derive(Clone, Copy, Debug, PartialEq, Eq, Structural)]
pub enum Error {
    /// No file of that name exists.
    NotFound,
    /// The caller may not do this to the file.
    PermissionDenied,
}

/// How a file is opened.
#[derive(Clone, Copy, Debug, PartialEq, Eq, Structural)]
pub enum FileOpenMode {
    /// No access.
    NoAccess,
    /// Open for reading.
    ReadOnly,
    /// Open for execution.
    Execute,
}

impl FileOpenMode {
    /// The number that stands for the mode in a request to the kernel.
    pub open spec fn spec_code(self) -> u32 {
        match self {
            FileOpenMode::NoAccess => 0,
            FileOpenMode::ReadOnly => 1,
            FileOpenMode::Execute => 2,
        }
    }

    /// The number that stands for the mode in a request to the kernel.
    pub fn code(self) -> (code: u32)
        ensures
            code == self.spec_code(),
    {
        match self {
            FileOpenMode::NoAccess => 0,
            FileOpenMode::ReadOnly => 1,
            FileOpenMode::Execute => 2,
        }
    }
}

/// How a file is mapped into memory.
#[derive(Clone, Copy, Debug, PartialEq, Eq, Structural)]
pub enum MemoryMapMode {
    /// Read-only mapping of a file.
    ReadOnly,
    /// Executable mapping of a file.
    Execute,
    /// Copy-on-write mapping, as used for executable files.
    COW,
    /// Mapping whose changes are written back to the file.
    WriteBack,
}

impl MemoryMapMode {
    /// The number that stands for the mode in a request to the kernel.
    pub open spec fn spec_code(self) -> u8 {
        match self {
            MemoryMapMode::ReadOnly => 0,
            MemoryMapMode::Execute => 1,
            MemoryMapMode::COW => 2,
            MemoryMapMode::WriteBack => 3,
        }
    }

    /// The number that stands for the mode in a request to the kernel.
    pub fn code(self) -> (code: u8)
        ensures
            code == self.spec_code(),
    {
        match self {
            MemoryMapMode::ReadOnly => 0,
            MemoryMapMode::Execute => 1,
            MemoryMapMode::COW => 2,
            MemoryMapMode::WriteBack => 3,
        }
    }
}

/// The handle of a kernel object.
#[derive(Clone, Copy, Debug, PartialEq, Eq, Structural)]
pub struct ObjectHandle(pub u32);

/// An open file: the handle of the kernel object and the read cursor.
pub struct File(ObjectHandle, u64);

impl File {
    /// The handle of the kernel object.
    pub closed spec fn handle(&self) -> ObjectHandle {
        self.0
    }

    /// The offset at which the next read starts.
    pub closed spec fn cursor(&self) -> u64 {
        self.1
    }

    /// Makes the record of a file that the kernel has just opened under
    /// `handle`. Reading starts at the beginning of the file.
    pub fn open(handle: ObjectHandle) -> (file: File)
        ensures
            file.handle() == handle,
            file.cursor() == 0,
    {
        File(handle, 0)
    }

    /// The handle of the kernel object.
    pub fn get_handle(&self) -> (handle: ObjectHandle)
        ensures
            handle == self.handle(),
    {
        self.0
    }

    /// The offset at which the next read starts.
    pub fn get_cursor(&self) -> (pos: u64)
        ensures
            pos == self.cursor(),
    {
        self.1
    }

    /// Moves the cursor to `pos`.
    pub fn set_cursor(&mut self, pos: u64)
        ensures
            final(self).cursor() == pos,
            final(self).handle() == old(self).handle(),
    {
        self.1 = pos;
    }

    /// Accounts for a read at the cursor. `outcome` is what reading at
    /// [`File::get_cursor`] gave: the number of bytes that arrived, or why
    /// none did. The cursor moves past the bytes that arrived, and the
    /// outcome is handed back.
    pub fn read(&mut self, outcome: Result<usize, Error>) -> (result: Result<usize, Error>)
        requires
            outcome matches Ok(count) ==> old(self).cursor() + count <= u64::MAX,
        ensures
            result == outcome,
            final(self).handle() == old(self).handle(),
            final(self).cursor() == match outcome {
                Ok(count) => (old(self).cursor() + count) as u64,
                Err(_) => old(self).cursor(),
            },
    {
        match outcome {
            Ok(count) => {
                self.1 += count as u64;
                Ok(count)
            },
            Err(e) => Err(e),
        }
    }
}

} // verus!
