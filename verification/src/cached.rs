use vstd::prelude::*;

use crate::codec::Cache;
use crate::disk::Disk;
use crate::disk::DiskError;
use crate::error::CacheError;

verus! {

/// Whether the file on `disk` is strictly newer than the stamp a handle
/// last observed, so the handle's in-memory value is stale and must be
/// refreshed before it may be read or mutated.  An absent file never makes
/// a handle stale: the in-memory value is then authoritative.
pub open spec fn stale(stamp: u64, disk: Disk) -> bool {
    disk.has_file() && disk.mtime() > stamp
}

/// The values a handle may hold after a successful staleness check: the
/// refreshed value must be a decode of the file when the handle was stale,
/// and is the old value untouched otherwise.
pub open spec fn sync_value<T: Cache>(v0: T, s0: u64, disk: Disk, v1: T) -> bool {
    if stale(s0, disk) {
        T::decodes_to(disk.data(), v1)
    } else {
        v1 == v0
    }
}

/// The stamp a handle carries after a successful staleness check: the
/// file's stamp when the handle was stale, the old stamp otherwise.
pub open spec fn sync_stamp(s0: u64, disk: Disk) -> u64 {
    if stale(s0, disk) {
        disk.mtime()
    } else {
        s0
    }
}

/// The full outcome of a successful staleness check.
pub open spec fn sync_result<T: Cache>(v0: T, s0: u64, disk: Disk, v1: T, s1: u64) -> bool {
    sync_value::<T>(v0, s0, disk, v1) && s1 == sync_stamp(s0, disk)
}

/// Whether the staleness check must fail: the handle is stale, yet the
/// file's contents decode to no value at all.
pub open spec fn sync_rejects<T: Cache>(s0: u64, disk: Disk) -> bool {
    stale(s0, disk) && (forall|w: T| !T::decodes_to(disk.data(), w))
}

/// A handle that keeps an in-memory value synchronized with one backing
/// file: it reloads the value before every read or mutation when the file
/// grew a newer stamp, and persists the value back after every mutation.
#[derive(Debug)]
pub struct Cached<T: Cache> {
    path: String,
    last_modified: u64,
    value: T,
}

impl<T: Cache> Cached<T> {
    /// The in-memory value.
    pub closed spec fn val(&self) -> T {
        self.value
    }

    /// The stamp of the file version the in-memory value reflects.
    pub closed spec fn stamp(&self) -> u64 {
        self.last_modified
    }

    /// The path the handle was constructed with.
    pub closed spec fn path_spec(&self) -> Seq<char> {
        self.path@
    }

    /// The staleness check: queries the file's stamp and, when the file is
    /// strictly newer than the last stamp observed, reloads the in-memory
    /// value from its contents.  An absent file leaves everything standing.
    /// A failed reload never corrupts the prior state.
    fn check_load(&mut self, disk: &mut Disk) -> (r: Result<(), CacheError>)
        requires
            old(disk).read_count() < u64::MAX,
        ensures
            final(disk).same_file_as(old(disk)),
            final(disk).same_faults_as(old(disk)),
            final(self).path_spec() == old(self).path_spec(),
            old(disk).stat_fails() ==> r == Err::<(), CacheError>(CacheError::Io) && *final(self)
                == *old(self) && final(disk).read_count() == old(disk).read_count(),
            !old(disk).stat_fails() && !stale(old(self).stamp(), *old(disk)) ==> r == Ok::<
                (),
                CacheError,
            >(()) && *final(self) == *old(self) && final(disk).read_count() == old(disk).read_count(),
            !old(disk).stat_fails() && stale(old(self).stamp(), *old(disk)) && old(disk).read_fails() ==> r == Err::<(), CacheError>(CacheError::Io) && *final(self) == *old(self) && final(disk).read_count() == old(disk).read_count(),
            !old(disk).stat_fails() && stale(old(self).stamp(), *old(disk)) && !old(disk).read_fails() ==> final(disk).read_count() == old(disk).read_count() + 1 && (r is Ok
                <==> !sync_rejects::<T>(old(self).stamp(), *old(disk))),
            !old(disk).stat_fails() && !old(disk).read_fails() ==> (r is Ok ==> sync_result::<T>(
                old(self).val(),
                old(self).stamp(),
                *old(disk),
                final(self).val(),
                final(self).stamp(),
            )) && (r is Err ==> r == Err::<(), CacheError>(CacheError::Decode) && *final(self)
                == *old(self)),
    {
        let file_mtime: u64 = match disk.stat() {
            Ok(m) => m,
            Err(DiskError::NotFound) => {
                return Ok(());
            },
            Err(DiskError::Io) => {
                return Err(CacheError::Io);
            },
        };
        if self.last_modified < file_mtime {
            let data = match disk.read() {
                Ok(d) => d,
                Err(_) => {
                    return Err(CacheError::Io);
                },
            };
            let loaded = match T::load(data.as_slice()) {
                Ok(v) => v,
                Err(e) => {
                    return Err(e);
                },
            };
            self.value = loaded;
            self.last_modified = file_mtime;
        }
        Ok(())
    }

    /// Refresh the in-memory value if the file changed behind the handle's
    /// back, then hand out a view of it.  When the file's stamp is no newer
    /// than the last one observed, the contents are not re-read.
    pub fn get(&mut self, disk: &mut Disk) -> (r: Result<&T, CacheError>)
        requires
            old(disk).read_count() < u64::MAX,
        ensures
            final(disk).same_file_as(old(disk)),
            final(disk).same_faults_as(old(disk)),
            final(self).path_spec() == old(self).path_spec(),
            old(disk).stat_fails() ==> (r matches Err(e) && e == CacheError::Io) && *final(self)
                == *old(self) && final(disk).read_count() == old(disk).read_count(),
            !old(disk).stat_fails() && !stale(old(self).stamp(), *old(disk)) ==> (r matches Ok(v)
                && *v == old(self).val()) && *final(self) == *old(self) && final(disk).read_count()
                == old(disk).read_count(),
            !old(disk).stat_fails() && stale(old(self).stamp(), *old(disk)) && old(disk).read_fails() ==> (r matches Err(e) && e == CacheError::Io) && *final(self) == *old(self) && final(disk).read_count() == old(disk).read_count(),
            !old(disk).stat_fails() && stale(old(self).stamp(), *old(disk)) && !old(disk).read_fails() ==> final(disk).read_count() == old(disk).read_count() + 1 && (r is Ok
                <==> !sync_rejects::<T>(old(self).stamp(), *old(disk))),
            !old(disk).stat_fails() && !old(disk).read_fails() ==> (r matches Ok(v) ==> *v
                == final(self).val() && sync_result::<T>(
                old(self).val(),
                old(self).stamp(),
                *old(disk),
                final(self).val(),
                final(self).stamp(),
            )) && (r is Err ==> (r matches Err(e) && e == CacheError::Decode && *final(self)
                == *old(self))),
    {
        match self.check_load(disk) {
            Ok(()) => Ok(&self.value),
            Err(e) => Err(e),
        }
    }

    /// Persist the in-memory value: write its encoding to the file and, on
    /// success, take the just-written file's stamp as the new last-known
    /// stamp, so the next access does not re-read what was just written.
    /// On failure the value and the stamp are left unchanged.
    pub fn save(&mut self, disk: &mut Disk) -> (r: Result<(), CacheError>)
        requires
            old(disk).clock() < u64::MAX,
        ensures
            final(disk).same_faults_as(old(disk)),
            final(disk).read_count() == old(disk).read_count(),
            final(self).path_spec() == old(self).path_spec(),
            final(self).val() == old(self).val(),
            old(disk).write_fails() ==> (r matches Err(e) && e == CacheError::Io) && *final(self)
                == *old(self) && final(disk).same_file_as(old(disk)),
            !old(disk).write_fails() ==> final(disk).has_file() && final(disk).data() == old(self).val().encode_spec() && final(disk).mtime() == old(disk).clock() + 1 && final(disk).clock() == old(disk).clock() + 1,
            !old(disk).write_fails() && old(disk).stat_fails() ==> (r matches Err(e) && e
                == CacheError::Io) && final(self).stamp() == old(self).stamp(),
            !old(disk).write_fails() && !old(disk).stat_fails() ==> r == Ok::<(), CacheError>(())
                && final(self).stamp() == final(disk).mtime(),
    {
        let data = self.value.save();
        match disk.write(data) {
            Ok(()) => {},
            Err(_) => {
                return Err(CacheError::Io);
            },
        }
        let stamp = match disk.stat() {
            Ok(m) => m,
            Err(_) => {
                return Err(CacheError::Io);
            },
        };
        self.last_modified = stamp;
        Ok(())
    }

    /// Construct a handle at `path`, producing the initial value with
    /// `default`, then perform the staleness check at once: an existing
    /// file is loaded before the handle is handed out, so construction
    /// fails if the file cannot be read or decoded.  An absent file is no
    /// error: the produced default then stands.
    pub fn new_with<F: FnOnce() -> T>(default: F, path: String, disk: &mut Disk) -> (r: Result<
        Cached<T>,
        CacheError,
    >)
        requires
            call_requires(default, ()),
            old(disk).read_count() < u64::MAX,
        ensures
            final(disk).same_file_as(old(disk)),
            final(disk).same_faults_as(old(disk)),
            r matches Ok(h) ==> h.path_spec() == path@ && (exists|d: T|
                #[trigger] call_ensures(default, (), d) && sync_result::<T>(
                    d,
                    0,
                    *old(disk),
                    h.val(),
                    h.stamp(),
                )),
            old(disk).stat_fails() ==> (r matches Err(e) && e == CacheError::Io) && final(disk).read_count() == old(disk).read_count(),
            !old(disk).stat_fails() && !stale(0, *old(disk)) ==> r is Ok && final(disk).read_count() == old(disk).read_count(),
            !old(disk).stat_fails() && stale(0, *old(disk)) && old(disk).read_fails() ==> (
            r matches Err(e) && e == CacheError::Io) && final(disk).read_count() == old(disk).read_count(),
            !old(disk).stat_fails() && stale(0, *old(disk)) && !old(disk).read_fails() ==> final(disk).read_count() == old(disk).read_count() + 1 && (r is Ok <==> !sync_rejects::<T>(
                0,
                *old(disk),
            )),
            !old(disk).stat_fails() && !old(disk).read_fails() && r is Err ==> (r matches Err(e)
                && e == CacheError::Decode) && sync_rejects::<T>(0, *old(disk)),
    {
        let mut ret = Cached { path, last_modified: 0u64, value: default() };
        match ret.check_load(disk) {
            Ok(()) => Ok(ret),
            Err(e) => Err(e),
        }
    }

    /// Apply `f` to the in-memory value after the staleness check, then
    /// persist the result.  The transformation's own result is handed back
    /// on success.  When persisting fails the value has still been changed
    /// in memory but is not on disk; the error says so, and the caller may
    /// retry with `save`.
    pub fn do_mut<R, F: FnOnce(&mut T) -> R>(&mut self, f: F, disk: &mut Disk) -> (r: Result<
        R,
        CacheError,
    >)
        requires
            old(disk).read_count() < u64::MAX,
            old(disk).clock() < u64::MAX,
            forall|v: &mut T|
                sync_value::<T>(old(self).val(), old(self).stamp(), *old(disk), *v)
                    ==> #[trigger] call_requires(f, (v,)),
        ensures
            final(disk).same_faults_as(old(disk)),
            final(self).path_spec() == old(self).path_spec(),
            old(disk).stat_fails() ==> (r matches Err(e) && e == CacheError::Io) && *final(self)
                == *old(self) && final(disk).same_file_as(old(disk)) && final(disk).read_count()
                == old(disk).read_count(),
            !old(disk).stat_fails() && stale(old(self).stamp(), *old(disk)) && old(disk).read_fails() ==> (r matches Err(e) && e == CacheError::Io) && *final(self) == *old(self) && final(disk).same_file_as(old(disk)) && final(disk).read_count() == old(disk).read_count(),
            !old(disk).stat_fails() && !old(disk).read_fails() && sync_rejects::<T>(
                old(self).stamp(),
                *old(disk),
            ) ==> (r matches Err(e) && e == CacheError::Decode) && *final(self) == *old(self)
                && final(disk).same_file_as(old(disk)),
            !old(disk).stat_fails() && !old(disk).read_fails() && !sync_rejects::<T>(
                old(self).stamp(),
                *old(disk),
            ) ==> (exists|v: &mut T, res: R|
                {
                    &&& #[trigger] call_ensures(f, (v,), res)
                    &&& sync_value::<T>(old(self).val(), old(self).stamp(), *old(disk), *v)
                    &&& *final(v) == final(self).val()
                    &&& (r is Ok ==> r == Ok::<R, CacheError>(res))
                }) && (if old(disk).write_fails() {
                (r matches Err(e) && e == CacheError::Io) && final(disk).same_file_as(old(disk))
                    && final(self).stamp() == sync_stamp(old(self).stamp(), *old(disk))
            } else {
                r is Ok && final(disk).has_file() && final(disk).data()
                    == final(self).val().encode_spec() && final(disk).mtime() == old(disk).clock()
                    + 1 && final(disk).clock() == old(disk).clock() + 1 && final(self).stamp()
                    == final(disk).mtime()
            }),
    {
        match self.check_load(disk) {
            Ok(()) => {},
            Err(e) => {
                return Err(e);
            },
        }
        let res = f(&mut self.value);
        match self.save(disk) {
            Ok(()) => {},
            Err(e) => {
                return Err(e);
            },
        }
        Ok(res)
    }

    /// Consume the handle and hand back the in-memory value, dropping the
    /// path and stamp bookkeeping without a final persist.
    pub fn into_inner(self) -> (v: T)
        ensures
            v == self.val(),
    {
        let Cached { value, .. } = self;
        value
    }

    /// The path the handle writes to and reloads from.
    pub fn path(&self) -> (p: &String)
        ensures
            p@ == self.path_spec(),
    {
        &self.path
    }
}

impl<T: Cache + Default> Cached<T> {
    /// Construct a handle at `path` with the type's default value, then
    /// perform the staleness check at once, as `new_with` does.
    pub fn new(path: String, disk: &mut Disk) -> (r: Result<Cached<T>, CacheError>)
        requires
            call_requires(<T as Default>::default, ()),
            old(disk).read_count() < u64::MAX,
        ensures
            final(disk).same_file_as(old(disk)),
            final(disk).same_faults_as(old(disk)),
            r matches Ok(h) ==> h.path_spec() == path@ && (exists|d: T|
                #[trigger] call_ensures(<T as Default>::default, (), d) && sync_result::<T>(
                    d,
                    0,
                    *old(disk),
                    h.val(),
                    h.stamp(),
                )),
            old(disk).stat_fails() ==> (r matches Err(e) && e == CacheError::Io),
            !old(disk).stat_fails() && !stale(0, *old(disk)) ==> r is Ok && final(disk).read_count() == old(disk).read_count(),
            !old(disk).stat_fails() && stale(0, *old(disk)) && !old(disk).read_fails() ==> (
            r is Ok <==> !sync_rejects::<T>(0, *old(disk))),
            !old(disk).stat_fails() && !old(disk).read_fails() && r is Err ==> (r matches Err(e)
                && e == CacheError::Decode) && sync_rejects::<T>(0, *old(disk)),
    {
        Self::new_with(<T as Default>::default, path, disk)
    }
}

} // verus!
