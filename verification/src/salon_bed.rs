//! Beds: listing a branch's beds, finding the free ones for a slot, and the
//! owner-scoped bed management.

use vstd::prelude::*;

use crate::claim::Claims;
use crate::database::Database;
use crate::database::SalonBed;
use crate::error::ServiceError;

verus! {

/// A new bed's display name.
pub struct AddSalonBedInput {
    pub name: String,
}

/// The slot asked about when listing free beds.
pub struct TimeRangeQuery {
    pub time_from: i64,
    pub time_to: i64,
}

/// The beds of one branch, in stored order.
pub open spec fn beds_of_branch(s: Seq<SalonBed>, branch_id: i64) -> Seq<SalonBed>
    decreases s.len(),
{
    if s.len() == 0 {
        Seq::empty()
    } else {
        let prev = beds_of_branch(s.drop_last(), branch_id);
        if s.last().branch_id == branch_id {
            prev.push(s.last())
        } else {
            prev
        }
    }
}

/// The beds of one branch that are free over `[from, to)`, in stored order.
pub open spec fn available_beds_of_branch(
    db: Database,
    s: Seq<SalonBed>,
    branch_id: i64,
    from: int,
    to: int,
) -> Seq<SalonBed>
    decreases s.len(),
{
    if s.len() == 0 {
        Seq::empty()
    } else {
        let prev = available_beds_of_branch(db, s.drop_last(), branch_id, from, to);
        if s.last().branch_id == branch_id && db.bed_free(s.last().id, from, to) {
            prev.push(s.last())
        } else {
            prev
        }
    }
}

/// All beds of a branch.
pub fn list_bed(db: &Database, branch_id: i64) -> (r: Vec<SalonBed>)
    ensures
        r@ == beds_of_branch(db.beds@, branch_id),
{
    let mut out: Vec<SalonBed> = Vec::new();
    let n = db.beds.len();
    for i in 0..n
        invariant
            n == db.beds@.len(),
            out@ == beds_of_branch(db.beds@.subrange(0, i as int), branch_id),
    {
        proof {
            assert(db.beds@.subrange(0, i + 1).drop_last() =~= db.beds@.subrange(0, i as int));
            assert(db.beds@.subrange(0, i + 1).last() == db.beds@[i as int]);
        }
        if db.beds[i].branch_id == branch_id {
            out.push(db.beds[i].clone());
        }
    }
    proof {
        assert(db.beds@.subrange(0, n as int) =~= db.beds@);
    }
    out
}

/// The beds of a branch not blocked by any waiting reservation over the
/// asked slot. Rejects an empty or backward slot.
pub fn available_bed(db: &Database, branch_id: i64, time_range: TimeRangeQuery) -> (r: Result<
    Vec<SalonBed>,
    ServiceError,
>)
    ensures
        r is Ok <==> time_range.time_from < time_range.time_to,
        r matches Ok(v) ==> v@ == available_beds_of_branch(
            *db,
            db.beds@,
            branch_id,
            time_range.time_from as int,
            time_range.time_to as int,
        ),
        r matches Err(e) ==> e == ServiceError::InvalidTimeRange,
{
    if time_range.time_from >= time_range.time_to {
        return Err(ServiceError::InvalidTimeRange);
    }
    let from = time_range.time_from;
    let to = time_range.time_to;
    let mut out: Vec<SalonBed> = Vec::new();
    let n = db.beds.len();
    for i in 0..n
        invariant
            n == db.beds@.len(),
            out@ == available_beds_of_branch(
                *db,
                db.beds@.subrange(0, i as int),
                branch_id,
                from as int,
                to as int,
            ),
    {
        proof {
            assert(db.beds@.subrange(0, i + 1).drop_last() =~= db.beds@.subrange(0, i as int));
            assert(db.beds@.subrange(0, i + 1).last() == db.beds@[i as int]);
        }
        if db.beds[i].branch_id == branch_id && db.check_bed_free(db.beds[i].id, from, to) {
            out.push(db.beds[i].clone());
        }
    }
    proof {
        assert(db.beds@.subrange(0, n as int) =~= db.beds@);
    }
    Ok(out)
}

/// The beds standing anywhere in one salon, in stored order.
pub open spec fn beds_of_salon(db: Database, s: Seq<SalonBed>, salon_id: i64) -> Seq<SalonBed>
    decreases s.len(),
{
    if s.len() == 0 {
        Seq::empty()
    } else {
        let prev = beds_of_salon(db, s.drop_last(), salon_id);
        if db.branch_salon(s.last().branch_id) == Some(salon_id) {
            prev.push(s.last())
        } else {
            prev
        }
    }
}

/// The beds of one salon that are free over `[from, to)`, in stored order.
pub open spec fn available_beds_of_salon(
    db: Database,
    s: Seq<SalonBed>,
    salon_id: i64,
    from: int,
    to: int,
) -> Seq<SalonBed>
    decreases s.len(),
{
    if s.len() == 0 {
        Seq::empty()
    } else {
        let prev = available_beds_of_salon(db, s.drop_last(), salon_id, from, to);
        if db.branch_salon(s.last().branch_id) == Some(salon_id) && db.bed_free(
            s.last().id,
            from,
            to,
        ) {
            prev.push(s.last())
        } else {
            prev
        }
    }
}

/// Whether this bed stands in this salon, resolved through its branch.
fn bed_in_salon(db: &Database, bed: &SalonBed, salon_id: i64) -> (r: bool)
    requires
        db.wf(),
    ensures
        r == (db.branch_salon(bed.branch_id) == Some(salon_id)),
{
    match db.find_branch(bed.branch_id) {
        Some(bri) => {
            proof {
                db.lemma_branch_salon_at(bri as int);
            }
            db.branches[bri].salon_id == salon_id
        },
        None => false,
    }
}

/// All beds of one salon, whichever branch they stand in.
pub fn list_salon_bed(db: &Database, salon_id: i64) -> (r: Vec<SalonBed>)
    requires
        db.wf(),
    ensures
        r@ == beds_of_salon(*db, db.beds@, salon_id),
{
    let mut out: Vec<SalonBed> = Vec::new();
    let n = db.beds.len();
    for i in 0..n
        invariant
            db.wf(),
            n == db.beds@.len(),
            out@ == beds_of_salon(*db, db.beds@.subrange(0, i as int), salon_id),
    {
        proof {
            assert(db.beds@.subrange(0, i + 1).drop_last() =~= db.beds@.subrange(0, i as int));
            assert(db.beds@.subrange(0, i + 1).last() == db.beds@[i as int]);
        }
        if bed_in_salon(db, &db.beds[i], salon_id) {
            out.push(db.beds[i].clone());
        }
    }
    proof {
        assert(db.beds@.subrange(0, n as int) =~= db.beds@);
    }
    out
}

/// The beds of one salon not blocked by any waiting reservation over the
/// asked slot. Rejects an empty or backward slot.
pub fn list_available_salon_bed(db: &Database, salon_id: i64, time_range: TimeRangeQuery) -> (r:
    Result<Vec<SalonBed>, ServiceError>)
    requires
        db.wf(),
    ensures
        r is Ok <==> time_range.time_from < time_range.time_to,
        r matches Ok(v) ==> v@ == available_beds_of_salon(
            *db,
            db.beds@,
            salon_id,
            time_range.time_from as int,
            time_range.time_to as int,
        ),
        r matches Err(e) ==> e == ServiceError::InvalidTimeRange,
{
    if time_range.time_from >= time_range.time_to {
        return Err(ServiceError::InvalidTimeRange);
    }
    let from = time_range.time_from;
    let to = time_range.time_to;
    let mut out: Vec<SalonBed> = Vec::new();
    let n = db.beds.len();
    for i in 0..n
        invariant
            db.wf(),
            n == db.beds@.len(),
            out@ == available_beds_of_salon(
                *db,
                db.beds@.subrange(0, i as int),
                salon_id,
                from as int,
                to as int,
            ),
    {
        proof {
            assert(db.beds@.subrange(0, i + 1).drop_last() =~= db.beds@.subrange(0, i as int));
            assert(db.beds@.subrange(0, i + 1).last() == db.beds@[i as int]);
        }
        if bed_in_salon(db, &db.beds[i], salon_id) && db.check_bed_free(db.beds[i].id, from, to) {
            out.push(db.beds[i].clone());
        }
    }
    proof {
        assert(db.beds@.subrange(0, n as int) =~= db.beds@);
    }
    Ok(out)
}

/// The user owns the salon this branch belongs to.
pub open spec fn owns_branch(db: Database, user_id: i64, branch_id: i64) -> bool {
    exists|ui: int, bi: int|
        0 <= ui < db.users@.len() && 0 <= bi < db.branches@.len()
            && (#[trigger] db.users@[ui]).id == user_id && (#[trigger] db.branches@[bi]).id
            == branch_id && db.users@[ui].salon_id == Some(db.branches@[bi].salon_id)
}

/// The user owns the salon this bed's branch belongs to.
pub open spec fn owns_bed(db: Database, user_id: i64, bed_id: i64) -> bool {
    exists|bi: int|
        0 <= bi < db.beds@.len() && (#[trigger] db.beds@[bi]).id == bed_id && owns_branch(
            db,
            user_id,
            db.beds@[bi].branch_id,
        )
}

/// Adds a bed to a branch of the caller's own salon.
///
/// Succeeds exactly when the branch exists and belongs to the salon the
/// caller owns; the new bed then carries the next free id.
pub fn add_bed(db: &mut Database, claims: &Claims, branch_id: i64, input: AddSalonBedInput) -> (r:
    Result<SalonBed, ServiceError>)
    requires
        old(db).wf(),
        old(db).next_bed_id < i64::MAX,
    ensures
        final(db).wf(),
        r is Ok <==> owns_branch(*old(db), claims.id, branch_id),
        r matches Ok(bed) ==> {
            &&& bed == (SalonBed {
                id: old(db).next_bed_id,
                branch_id: branch_id,
                name: Some(input.name),
            })
            &&& final(db).beds@ == old(db).beds@.push(bed)
            &&& final(db).next_bed_id == old(db).next_bed_id + 1
            &&& *final(db) == (Database {
                beds: final(db).beds,
                next_bed_id: final(db).next_bed_id,
                ..*old(db)
            })
        },
        r matches Err(e) ==> *final(db) == *old(db) && e == ServiceError::BranchNotFound,
{
    let ui = match db.find_user(claims.id) {
        Some(i) => i,
        None => {
            return Err(ServiceError::BranchNotFound);
        },
    };
    let bi = match db.find_branch(branch_id) {
        Some(i) => i,
        None => {
            return Err(ServiceError::BranchNotFound);
        },
    };
    let owned = match db.users[ui].salon_id {
        Some(sid) => sid == db.branches[bi].salon_id,
        None => false,
    };
    if !owned {
        proof {
            lemma_branch_ownership_decided(*db, claims.id, branch_id, ui as int, bi as int);
        }
        return Err(ServiceError::BranchNotFound);
    }
    let bed = SalonBed { id: db.next_bed_id, branch_id: branch_id, name: Some(input.name) };
    let out = bed.clone();
    let ghost prev = *db;
    db.beds.push(bed);
    db.next_bed_id = db.next_bed_id + 1;
    proof {
        assert(db.bed_ids() =~= prev.bed_ids().push(out.id));
        assert(db.user_ids() =~= prev.user_ids());
        assert(db.salon_ids() =~= prev.salon_ids());
        assert(db.branch_ids() =~= prev.branch_ids());
        assert(db.therapy_ids() =~= prev.therapy_ids());
        assert(db.reservation_ids() =~= prev.reservation_ids());
    }
    Ok(out)
}

/// With well-formed ids, the rows found for a user and a branch decide
/// ownership for the whole store: no other pair of rows can say otherwise.
pub proof fn lemma_branch_ownership_decided(
    db: Database,
    user_id: i64,
    branch_id: i64,
    ui: int,
    bi: int,
)
    requires
        db.wf(),
        0 <= ui < db.users@.len(),
        0 <= bi < db.branches@.len(),
        db.users@[ui].id == user_id,
        db.branches@[bi].id == branch_id,
        db.users@[ui].salon_id != Some(db.branches@[bi].salon_id),
    ensures
        !owns_branch(db, user_id, branch_id),
{
    assert forall|uj: int, bj: int|
        0 <= uj < db.users@.len() && 0 <= bj < db.branches@.len()
            && (#[trigger] db.users@[uj]).id == user_id && (#[trigger] db.branches@[bj]).id
            == branch_id implies db.users@[uj].salon_id != Some(db.branches@[bj].salon_id) by {
        assert(db.user_ids()[uj] == db.users@[uj].id);
        assert(db.user_ids()[ui] == db.users@[ui].id);
        crate::database::lemma_ids_unique(db.user_ids(), db.next_user_id, uj, ui);
        assert(db.branch_ids()[bj] == db.branches@[bj].id);
        assert(db.branch_ids()[bi] == db.branches@[bi].id);
        crate::database::lemma_ids_unique(db.branch_ids(), db.next_branch_id, bj, bi);
    }
}

/// Removes a bed of the caller's own salon.
///
/// Succeeds exactly when the bed exists and sits in a branch of the salon
/// the caller owns; the bed's row is then gone and everything else stays.
pub fn delete_bed(db: &mut Database, claims: &Claims, bed_id: i64) -> (r: Result<
    SalonBed,
    ServiceError,
>)
    requires
        old(db).wf(),
    ensures
        final(db).wf(),
        r is Ok <==> owns_bed(*old(db), claims.id, bed_id),
        r matches Ok(bed) ==> exists|i: int|
            {
                &&& 0 <= i < old(db).beds@.len()
                &&& (#[trigger] old(db).beds@[i]).id == bed_id
                &&& bed == old(db).beds@[i]
                &&& final(db).beds@ == old(db).beds@.remove(i)
            },
        r is Ok ==> *final(db) == (Database { beds: final(db).beds, ..*old(db) }),
        r matches Err(e) ==> *final(db) == *old(db) && e == ServiceError::BedNotFound,
{
    let bi = match db.find_bed(bed_id) {
        Some(i) => i,
        None => {
            return Err(ServiceError::BedNotFound);
        },
    };
    let branch_id = db.beds[bi].branch_id;
    let ui = match db.find_user(claims.id) {
        Some(i) => i,
        None => {
            proof {
                lemma_bed_ownership_decided(*db, claims.id, bed_id, bi as int);
            }
            return Err(ServiceError::BedNotFound);
        },
    };
    let bri = match db.find_branch(branch_id) {
        Some(i) => i,
        None => {
            proof {
                lemma_bed_ownership_decided(*db, claims.id, bed_id, bi as int);
            }
            return Err(ServiceError::BedNotFound);
        },
    };
    let owned = match db.users[ui].salon_id {
        Some(sid) => sid == db.branches[bri].salon_id,
        None => false,
    };
    if !owned {
        proof {
            lemma_branch_ownership_decided(*db, claims.id, branch_id, ui as int, bri as int);
            lemma_bed_ownership_decided(*db, claims.id, bed_id, bi as int);
        }
        return Err(ServiceError::BedNotFound);
    }
    proof {
        assert(owns_branch(*db, claims.id, branch_id));
        assert(owns_bed(*db, claims.id, bed_id));
    }
    let out = db.beds[bi].clone();
    let ghost prev = *db;
    let _removed = db.beds.remove(bi);
    proof {
        assert(db.bed_ids() =~= prev.bed_ids().remove(bi as int));
        assert(db.user_ids() =~= prev.user_ids());
        assert(db.salon_ids() =~= prev.salon_ids());
        assert(db.branch_ids() =~= prev.branch_ids());
        assert(db.therapy_ids() =~= prev.therapy_ids());
        assert(db.reservation_ids() =~= prev.reservation_ids());
    }
    Ok(out)
}

/// With well-formed ids, the one row carrying a bed's id decides whether the
/// bed is owned: if ownership fails through that row's branch, it fails.
proof fn lemma_bed_ownership_decided(db: Database, user_id: i64, bed_id: i64, bi: int)
    requires
        db.wf(),
        0 <= bi < db.beds@.len(),
        db.beds@[bi].id == bed_id,
        !owns_branch(db, user_id, db.beds@[bi].branch_id),
    ensures
        !owns_bed(db, user_id, bed_id),
{
    assert forall|bj: int|
        0 <= bj < db.beds@.len() && (#[trigger] db.beds@[bj]).id == bed_id implies !owns_branch(
        db,
        user_id,
        db.beds@[bj].branch_id,
    ) by {
        assert(db.bed_ids()[bj] == db.beds@[bj].id);
        assert(db.bed_ids()[bi] == db.beds@[bi].id);
        crate::database::lemma_ids_unique(db.bed_ids(), db.next_bed_id, bj, bi);
    }
}

} // verus!
