//! Process sessions: the capability contract a platform session offers, the
//! location of a module inside a target's address space, and the attachment
//! state machine of a snapshot-table platform session.

use vstd::prelude::*;

use crate::error::Error;
use crate::text::{eq_bytes, find_byte, find_last_byte, slice_range, spec_first_index_of};

verus! {

/// The executable path recorded in a process's command line: the bytes up to
/// the first NUL, or all of them when no NUL terminates the record.
pub fn cmdline_path(cmdline: &Vec<u8>) -> (r: Vec<u8>)
    ensures
        r@ == ({
            let f = spec_first_index_of(cmdline@, 0);
            if f == -1 {
                cmdline@
            } else {
                cmdline@.subrange(0, f)
            }
        }),
{
    match find_byte(cmdline, 0, 0) {
        Some(f) => {
            proof {
                crate::text::lemma_first_index_found(cmdline@, 0, f as int);
            }
            slice_range(cmdline, 0, f)
        },
        None => {
            proof {
                crate::text::lemma_first_index_missing(cmdline@, 0);
            }
            let r = slice_range(cmdline, 0, cmdline.len());
            proof {
                assert(r@ =~= cmdline@);
            }
            r
        },
    }
}

/// Whether an executable path's final segment equals the queried process
/// name — the match a process enumeration applies to each candidate.
pub fn path_matches_name(path: &Vec<u8>, name: &Vec<u8>) -> (r: bool)
    ensures
        r <==> crate::locate::spec_last_segment(path@) == name@,
{
    let seg_start: usize = match find_last_byte(path, 0x2f) {
        Some(sl) => {
            proof {
                crate::text::lemma_last_index_found(path@, 0x2f, sl as int);
            }
            sl + 1
        },
        None => {
            proof {
                crate::text::lemma_last_index_missing(path@, 0x2f);
            }
            0
        },
    };
    let seg = slice_range(path, seg_start, path.len());
    eq_bytes(&seg, name)
}

/// Location of one loaded module inside the target process's address space:
/// the virtual address at which it begins and the number of bytes it spans.
#[derive(Clone, Copy, Debug, PartialEq, Eq, Structural)]
pub struct ProcessModule {
    pub module_base: usize,
    pub module_size: usize,
}

/// The capability contract every platform session offers: attach to and
/// detach from the target, read and write its memory raw, and look a module
/// up by name. Platform back ends implement it over their own system calls;
/// module names travel as byte strings, as the operating system reports them.
pub trait ProcessTrait {
    /// Acquires the resource needed for memory access. A second attach
    /// without an intervening detach fails with `AlreadyAttached`.
    fn attach(&mut self) -> Result<(), Error>;

    /// Releases the attachment resource; fails with `NotAttached` if there
    /// is none.
    fn detach(&mut self) -> Result<(), Error>;

    /// Copies `length` bytes starting at `address` out of the target's
    /// address space. A partial read is a failure, never a short buffer.
    fn mem_read(&self, address: usize, length: usize) -> (r: Result<Vec<u8>, Error>)
        ensures
            r is Ok ==> r->Ok_0@.len() == length,
    ;

    /// Writes `data` into the target's address space at `address`.
    fn mem_write(&self, address: usize, data: &Vec<u8>) -> Result<(), Error>;

    /// Returns the base address and size of the loaded module whose
    /// normalized name equals the normalized `name`, or `NotFound`.
    fn mod_find(&self, name: &Vec<u8>) -> Result<ProcessModule, Error>;
}

/// Session state for a snapshot-table platform: the target's process id and
/// the handle acquired by attaching, if any. The handle itself is produced
/// and consumed by platform calls that live with the caller; this type owns
/// the attachment state machine (detached, attached, detached again) and
/// refuses misuse.
#[derive(Clone, Copy, Debug)]
pub struct WindowsProcess {
    process_id: u32,
    process_handle: Option<usize>,
}

impl WindowsProcess {
    /// The identifier of the target process.
    pub closed spec fn spec_process_id(&self) -> u32 {
        self.process_id
    }

    /// The raw handle value recorded by the last attach, if still held.
    pub closed spec fn spec_handle(&self) -> Option<usize> {
        self.process_handle
    }

    /// Whether the session currently holds an attachment handle.
    pub open spec fn attached(&self) -> bool {
        self.spec_handle() is Some
    }

    /// A fresh, detached session for the process with this identifier.
    pub fn new(process_id: u32) -> (r: Self)
        ensures
            r.spec_process_id() == process_id,
            !r.attached(),
    {
        Self { process_id, process_handle: None }
    }

    /// The identifier of the target process.
    pub fn process_id(&self) -> (r: u32)
        ensures
            r == self.spec_process_id(),
    {
        self.process_id
    }

    /// Whether the session currently holds an attachment handle.
    pub fn is_attached(&self) -> (r: bool)
        ensures
            r == self.attached(),
    {
        self.process_handle.is_some()
    }

    /// Records the handle a platform open call produced. Attaching twice
    /// without an intervening detach fails with `AlreadyAttached` and leaves
    /// the session untouched.
    pub fn attach_handle(&mut self, handle: usize) -> (r: Result<(), Error>)
        ensures
            final(self).spec_process_id() == old(self).spec_process_id(),
            old(self).attached() ==> {
                &&& r == Err::<(), Error>(Error::AlreadyAttached)
                &&& final(self).spec_handle() == old(self).spec_handle()
            },
            !old(self).attached() ==> {
                &&& r == Ok::<(), Error>(())
                &&& final(self).spec_handle() == Some(handle)
            },
    {
        if self.process_handle.is_some() {
            return Err(Error::AlreadyAttached);
        }
        self.process_handle = Some(handle);
        Ok(())
    }

    /// Releases the attachment state and hands the recorded handle back so
    /// the caller can close it. Detaching a detached session fails with
    /// `NotAttached`.
    pub fn detach_handle(&mut self) -> (r: Result<usize, Error>)
        ensures
            final(self).spec_process_id() == old(self).spec_process_id(),
            !old(self).attached() ==> {
                &&& r == Err::<usize, Error>(Error::NotAttached)
                &&& final(self).spec_handle() == old(self).spec_handle()
            },
            old(self).attached() ==> {
                &&& r == Ok::<usize, Error>(old(self).spec_handle()->0)
                &&& !final(self).attached()
            },
    {
        match self.process_handle {
            Some(handle) => {
                self.process_handle = None;
                Ok(handle)
            },
            None => Err(Error::NotAttached),
        }
    }
}

} // verus!
