use vstd::prelude::*;
use vstd::slice::slice_to_vec;

verus! {

/// The ways a single backing-store operation can fail.
#[derive(Clone, Copy, Debug, PartialEq, Eq, Structural)]
pub enum DiskError {
    /// No file exists at the path.
    NotFound,
    /// The store failed for some other reason.
    Io,
}

struct StoredFile {
    mtime: u64,
    data: Vec<u8>,
}

/// An in-memory model of the single regular file that backs a cache handle.
///
/// The model keeps the file's contents together with a modification stamp
/// drawn from a strictly increasing clock, so that every write leaves a stamp
/// newer than any stamp handed out before.  It also counts content reads and
/// can inject faults into the metadata query, the read and the write, which
/// makes it an instrumented stub: tests can observe exactly when a handle
/// touched the file and how each failure is reported.
pub struct Disk {
    file: Option<StoredFile>,
    clock: u64,
    read_count: u64,
    fail_stat: bool,
    fail_read: bool,
    fail_write: bool,
}

impl Disk {
    /// Whether a file currently exists.
    pub closed spec fn has_file(&self) -> bool {
        self.file is Some
    }

    /// The modification stamp of the existing file.
    pub closed spec fn mtime(&self) -> u64 {
        self.file->Some_0.mtime
    }

    /// The contents of the existing file.
    pub closed spec fn data(&self) -> Seq<u8> {
        self.file->Some_0.data@
    }

    /// The clock that modification stamps are drawn from.
    pub closed spec fn clock(&self) -> u64 {
        self.clock
    }

    /// How many times the file's contents have been read.
    pub closed spec fn read_count(&self) -> u64 {
        self.read_count
    }

    /// Whether the next metadata queries fail.
    pub closed spec fn stat_fails(&self) -> bool {
        self.fail_stat
    }

    /// Whether the next content reads fail.
    pub closed spec fn read_fails(&self) -> bool {
        self.fail_read
    }

    /// Whether the next writes fail.
    pub closed spec fn write_fails(&self) -> bool {
        self.fail_write
    }

    /// Every file the disk holds got its stamp from the clock, so a later
    /// write always leaves a strictly newer stamp.
    pub open spec fn wf(&self) -> bool {
        self.has_file() ==> 1 <= self.mtime() <= self.clock()
    }

    /// The file and the clock agree between two disk states.
    pub open spec fn same_file_as(&self, other: &Disk) -> bool {
        &&& self.has_file() == other.has_file()
        &&& self.has_file() ==> self.mtime() == other.mtime() && self.data() == other.data()
        &&& self.clock() == other.clock()
    }

    /// The injected faults agree between two disk states.
    pub open spec fn same_faults_as(&self, other: &Disk) -> bool {
        &&& self.stat_fails() == other.stat_fails()
        &&& self.read_fails() == other.read_fails()
        &&& self.write_fails() == other.write_fails()
    }

    /// An empty store: no file, a fresh clock, no reads counted, no faults.
    pub fn new() -> (d: Disk)
        ensures
            !d.has_file(),
            d.clock() == 0,
            d.read_count() == 0,
            !d.stat_fails(),
            !d.read_fails(),
            !d.write_fails(),
            d.wf(),
    {
        Disk {
            file: None,
            clock: 0,
            read_count: 0,
            fail_stat: false,
            fail_read: false,
            fail_write: false,
        }
    }

    /// Query the file's modification stamp without touching its contents.
    /// Absence is reported apart from every other failure.
    pub fn stat(&self) -> (r: Result<u64, DiskError>)
        ensures
            self.stat_fails() ==> r == Err::<u64, DiskError>(DiskError::Io),
            !self.stat_fails() && self.has_file() ==> r == Ok::<u64, DiskError>(self.mtime()),
            !self.stat_fails() && !self.has_file() ==> r == Err::<u64, DiskError>(
                DiskError::NotFound,
            ),
    {
        if self.fail_stat {
            Err(DiskError::Io)
        } else {
            match &self.file {
                Some(f) => Ok(f.mtime),
                None => Err(DiskError::NotFound),
            }
        }
    }

    /// Read the file's full contents, counting the read.
    pub fn read(&mut self) -> (r: Result<Vec<u8>, DiskError>)
        requires
            old(self).read_count() < u64::MAX,
        ensures
            final(self).same_file_as(old(self)),
            final(self).same_faults_as(old(self)),
            old(self).read_fails() ==> r == Err::<Vec<u8>, DiskError>(DiskError::Io)
                && final(self).read_count() == old(self).read_count(),
            !old(self).read_fails() && !old(self).has_file() ==> r == Err::<Vec<u8>, DiskError>(
                DiskError::NotFound,
            ) && final(self).read_count() == old(self).read_count(),
            !old(self).read_fails() && old(self).has_file() ==> (r matches Ok(d) && d@
                == old(self).data()) && final(self).read_count() == old(self).read_count() + 1,
    {
        if self.fail_read {
            Err(DiskError::Io)
        } else {
            match &self.file {
                Some(f) => {
                    let out = slice_to_vec(f.data.as_slice());
                    self.read_count = self.read_count + 1;
                    Ok(out)
                },
                None => Err(DiskError::NotFound),
            }
        }
    }

    /// Create or replace the file with the given contents.  A successful
    /// write stamps the file from the advanced clock, so its stamp is
    /// strictly newer than every stamp the disk handed out before.
    pub fn write(&mut self, data: Vec<u8>) -> (r: Result<(), DiskError>)
        requires
            old(self).clock() < u64::MAX,
        ensures
            final(self).same_faults_as(old(self)),
            final(self).read_count() == old(self).read_count(),
            old(self).write_fails() ==> r == Err::<(), DiskError>(DiskError::Io)
                && final(self).same_file_as(old(self)),
            !old(self).write_fails() ==> r == Ok::<(), DiskError>(()) && final(self).has_file()
                && final(self).mtime() == old(self).clock() + 1
                && final(self).clock() == old(self).clock() + 1
                && final(self).data() == data@,
            old(self).wf() ==> final(self).wf(),
    {
        if self.fail_write {
            Err(DiskError::Io)
        } else {
            let stamp = self.clock + 1;
            self.clock = stamp;
            self.file = Some(StoredFile { mtime: stamp, data });
            Ok(())
        }
    }

    /// The number of content reads performed so far.
    pub fn reads(&self) -> (n: u64)
        ensures
            n == self.read_count(),
    {
        self.read_count
    }

    /// Make the next metadata queries fail, or stop them failing.
    pub fn set_stat_fault(&mut self, fail: bool)
        ensures
            final(self).same_file_as(old(self)),
            final(self).read_count() == old(self).read_count(),
            final(self).stat_fails() == fail,
            final(self).read_fails() == old(self).read_fails(),
            final(self).write_fails() == old(self).write_fails(),
    {
        self.fail_stat = fail;
    }

    /// Make the next content reads fail, or stop them failing.
    pub fn set_read_fault(&mut self, fail: bool)
        ensures
            final(self).same_file_as(old(self)),
            final(self).read_count() == old(self).read_count(),
            final(self).stat_fails() == old(self).stat_fails(),
            final(self).read_fails() == fail,
            final(self).write_fails() == old(self).write_fails(),
    {
        self.fail_read = fail;
    }

    /// Make the next writes fail, or stop them failing.
    pub fn set_write_fault(&mut self, fail: bool)
        ensures
            final(self).same_file_as(old(self)),
            final(self).read_count() == old(self).read_count(),
            final(self).stat_fails() == old(self).stat_fails(),
            final(self).read_fails() == old(self).read_fails(),
            final(self).write_fails() == fail,
    {
        self.fail_write = fail;
    }
}

} // verus!
