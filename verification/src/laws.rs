use vstd::prelude::*;

use crate::cached::stale;
use crate::cached::sync_rejects;
use crate::cached::sync_result;
use crate::codec::Cache;
use crate::disk::Disk;
use crate::records::Records;
use crate::records::lemma_records_round_trip;

verus! {

/// Round trip: over a file that holds the encoding of `v` with a stamp
/// newer than the one a handle last observed, the staleness check cannot
/// reject, and every state it allows carries exactly `v` together with the
/// file's stamp — whatever value `v0` the handle held before — provided
/// the codec decodes `v`'s encoding to `v` and to nothing else.
pub proof fn lemma_round_trip<T: Cache>(v: T, v0: T, s0: u64, disk: Disk)
    requires
        T::decodes_to(v.encode_spec(), v),
        forall|w: T| #[trigger] T::decodes_to(v.encode_spec(), w) ==> w == v,
        disk.has_file(),
        disk.data() == v.encode_spec(),
        disk.mtime() > s0,
    ensures
        !sync_rejects::<T>(s0, disk),
        forall|v1: T, s1: u64|
            #[trigger] sync_result::<T>(v0, s0, disk, v1, s1) ==> v1 == v && s1 == disk.mtime(),
{
}

/// An absent backing file never makes a handle stale: the staleness check
/// cannot reject, and every state it allows keeps the value and the stamp
/// the handle already had.
pub proof fn lemma_absent_file_keeps_value<T: Cache>(v0: T, s0: u64, disk: Disk)
    requires
        !disk.has_file(),
    ensures
        !stale(s0, disk),
        !sync_rejects::<T>(s0, disk),
        forall|v1: T, s1: u64|
            #[trigger] sync_result::<T>(v0, s0, disk, v1, s1) ==> v1 == v0 && s1 == s0,
{
}

/// A file whose contents decode to no value at all makes every staleness
/// check that must reload it fail: in particular, constructing a handle
/// over such a file is rejected.
pub proof fn lemma_malformed_file_rejects<T: Cache>(s0: u64, disk: Disk)
    requires
        disk.has_file(),
        disk.mtime() > s0,
        forall|w: T| !T::decodes_to(disk.data(), w),
    ensures
        sync_rejects::<T>(s0, disk),
{
}

/// An external update wins: when the file grew newer than what the handle
/// last observed and its bytes decode to `w` and to nothing else, the next
/// staleness check can only leave the handle with `w` and the file's stamp
/// — the value observed earlier is gone.
pub proof fn lemma_external_update_is_seen<T: Cache>(w: T, v0: T, s0: u64, disk: Disk)
    requires
        stale(s0, disk),
        T::decodes_to(disk.data(), w),
        forall|x: T| #[trigger] T::decodes_to(disk.data(), x) ==> x == w,
    ensures
        !sync_rejects::<T>(s0, disk),
        forall|v1: T, s1: u64|
            #[trigger] sync_result::<T>(v0, s0, disk, v1, s1) ==> v1 == w && s1 == disk.mtime(),
{
}

/// Round trip for the provided codec: over a file holding a well-formed
/// table's encoding with a stamp newer than the handle's, the staleness
/// check cannot reject, and every state it allows carries the same table
/// content and the file's stamp.
pub proof fn lemma_records_handle_round_trip(r: Records, v0: Records, s0: u64, disk: Disk)
    requires
        r.wf(),
        disk.has_file(),
        disk.data() == r.encode_spec(),
        disk.mtime() > s0,
    ensures
        !sync_rejects::<Records>(s0, disk),
        forall|v1: Records, s1: u64|
            #[trigger] sync_result::<Records>(v0, s0, disk, v1, s1) ==> v1@ == r@ && s1
                == disk.mtime(),
{
    lemma_records_round_trip(r);
}

/// A file whose stamp is not newer than the one the handle last observed
/// causes no reload: the staleness check cannot reject and leaves the
/// handle's value and stamp untouched.
pub proof fn lemma_fresh_file_not_reloaded<T: Cache>(v0: T, s0: u64, disk: Disk)
    requires
        disk.has_file() ==> disk.mtime() <= s0,
    ensures
        !stale(s0, disk),
        !sync_rejects::<T>(s0, disk),
        forall|v1: T, s1: u64|
            #[trigger] sync_result::<T>(v0, s0, disk, v1, s1) ==> v1 == v0 && s1 == s0,
{
}

} // verus!
