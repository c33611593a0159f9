//! The reservation service: booking a bed for a time slot, cancelling a
//! booking, and reading back one user's history.
//!
//! Each operation takes the store by `&mut` and is a single atomic unit: the
//! availability check and the insert cannot be separated, so no two
//! overlapping bookings for one bed can both succeed.

use vstd::prelude::*;

use crate::claim::Claims;
use crate::database::blocks;
use crate::database::overlaps;
use crate::database::Database;
use crate::database::clone_opt_string;
use crate::database::reservation_output_of;
use crate::database::Reservation;
use crate::database::ReservationOutput;
use crate::database::ReservationStatus;
use crate::error::ServiceError;

verus! {

/// A booking request: which therapy on which bed, over `[time_from, time_to)`.
pub struct CreateReservationInput {
    pub therapy_id: i64,
    pub salon_bed_id: i64,
    pub time_from: i64,
    pub time_to: i64,
    pub comment: Option<String>,
}

/// The request passes every booking rule against this store at time `now`:
/// a non-empty slot lying strictly in the future, therapy and bed in the same
/// salon, and no waiting reservation in the way.
pub open spec fn create_allowed(db: Database, input: CreateReservationInput, now: i64) -> bool {
    &&& input.time_from < input.time_to
    &&& input.time_from > now
    &&& db.same_salon(input.therapy_id, input.salon_bed_id)
    &&& db.bed_free(input.salon_bed_id, input.time_from as int, input.time_to as int)
}

/// The first booking rule the request breaks, checked in the order the
/// service applies them. A bed that does not exist falls under the
/// availability error, not the salon mismatch.
pub open spec fn create_error(db: Database, input: CreateReservationInput, now: i64) -> ServiceError {
    if input.time_from >= input.time_to {
        ServiceError::InvalidTimeRange
    } else if input.time_from <= now {
        ServiceError::TimeNotInFuture
    } else if !db.has_bed(input.salon_bed_id) {
        ServiceError::BedUnavailable
    } else if !db.same_salon(input.therapy_id, input.salon_bed_id) {
        ServiceError::TherapyBedSalonMismatch
    } else {
        ServiceError::BedUnavailable
    }
}

/// The row a successful booking appends.
pub open spec fn created_reservation(
    db: Database,
    user_id: i64,
    input: CreateReservationInput,
) -> Reservation {
    Reservation {
        id: db.next_reservation_id,
        user_id: user_id,
        therapy_id: input.therapy_id,
        salon_bed_id: input.salon_bed_id,
        time_from: input.time_from,
        time_to: input.time_to,
        comment: input.comment,
        status: ReservationStatus::Waiting,
    }
}

/// Books a bed for the requesting user.
///
/// Succeeds exactly when every rule of [`create_allowed`] holds, appending a
/// waiting reservation owned by the caller; on failure the store is
/// untouched and the error names the first rule broken.
pub fn create_reservation(
    db: &mut Database,
    claims: &Claims,
    input: CreateReservationInput,
    now: i64,
) -> (r: Result<Reservation, ServiceError>)
    requires
        old(db).wf(),
        old(db).next_reservation_id < i64::MAX,
    ensures
        final(db).wf(),
        r is Ok <==> create_allowed(*old(db), input, now),
        r matches Ok(res) ==> {
            &&& res == created_reservation(*old(db), claims.id, input)
            &&& final(db).reservations@ == old(db).reservations@.push(res)
            &&& final(db).next_reservation_id == old(db).next_reservation_id + 1
            &&& *final(db) == (Database {
                reservations: final(db).reservations,
                next_reservation_id: final(db).next_reservation_id,
                ..*old(db)
            })
        },
        r matches Err(e) ==> *final(db) == *old(db) && e == create_error(*old(db), input, now),
{
    if input.time_from >= input.time_to {
        return Err(ServiceError::InvalidTimeRange);
    }
    if input.time_from <= now {
        return Err(ServiceError::TimeNotInFuture);
    }
    if db.find_bed(input.salon_bed_id).is_none() {
        return Err(ServiceError::BedUnavailable);
    }
    if !db.check_same_salon(input.therapy_id, input.salon_bed_id) {
        return Err(ServiceError::TherapyBedSalonMismatch);
    }
    if !db.check_bed_free(input.salon_bed_id, input.time_from, input.time_to) {
        return Err(ServiceError::BedUnavailable);
    }
    let res = Reservation {
        id: db.next_reservation_id,
        user_id: claims.id,
        therapy_id: input.therapy_id,
        salon_bed_id: input.salon_bed_id,
        time_from: input.time_from,
        time_to: input.time_to,
        comment: input.comment,
        status: ReservationStatus::Waiting,
    };
    let out = res.clone();
    let ghost prev = *db;
    db.reservations.push(res);
    db.next_reservation_id = db.next_reservation_id + 1;
    proof {
        assert(db.reservation_ids() =~= prev.reservation_ids().push(out.id));
        assert(db.user_ids() =~= prev.user_ids());
        assert(db.salon_ids() =~= prev.salon_ids());
        assert(db.branch_ids() =~= prev.branch_ids());
        assert(db.bed_ids() =~= prev.bed_ids());
        assert(db.therapy_ids() =~= prev.therapy_ids());
    }
    Ok(out)
}

/// A reservation with this id exists, belongs to this user, and still waits.
pub open spec fn cancellable(db: Database, user_id: i64, reservation_id: i64) -> bool {
    exists|i: int|
        0 <= i < db.reservations@.len() && (#[trigger] db.reservations@[i]).id == reservation_id
            && db.reservations@[i].user_id == user_id && db.reservations@[i].status is Waiting
}

/// Cancels the caller's own waiting reservation.
///
/// Succeeds exactly when the reservation exists, is owned by the caller and
/// still waits; the row then moves to `Cancel` and everything else stays.
/// Any other case fails with the one collapsed error, so a caller cannot
/// tell a missing reservation from someone else's.
pub fn cancel_reservation(db: &mut Database, claims: &Claims, reservation_id: i64) -> (r: Result<
    Reservation,
    ServiceError,
>)
    requires
        old(db).wf(),
    ensures
        final(db).wf(),
        r is Ok <==> cancellable(*old(db), claims.id, reservation_id),
        r matches Ok(res) ==> exists|i: int|
            {
                &&& 0 <= i < old(db).reservations@.len()
                &&& (#[trigger] old(db).reservations@[i]).id == reservation_id
                &&& old(db).reservations@[i].user_id == claims.id
                &&& old(db).reservations@[i].status is Waiting
                &&& res == (Reservation {
                    status: ReservationStatus::Cancel,
                    ..old(db).reservations@[i]
                })
                &&& final(db).reservations@ == old(db).reservations@.update(i, res)
            },
        r is Ok ==> *final(db) == (Database { reservations: final(db).reservations, ..*old(db) }),
        r matches Err(e) ==> *final(db) == *old(db) && e == ServiceError::ReservationNotCancellable,
{
    let position = db.find_reservation(reservation_id);
    match position {
        Some(i) => {
            let found = &db.reservations[i];
            if found.user_id == claims.id && found.status == ReservationStatus::Waiting {
                let updated = Reservation { status: ReservationStatus::Cancel, ..found.clone() };
                let out = updated.clone();
                let ghost prev = *db;
                db.reservations.set(i, updated);
                proof {
                    assert(db.reservation_ids() =~= prev.reservation_ids());
                    assert(db.user_ids() =~= prev.user_ids());
                    assert(db.salon_ids() =~= prev.salon_ids());
                    assert(db.branch_ids() =~= prev.branch_ids());
                    assert(db.bed_ids() =~= prev.bed_ids());
                    assert(db.therapy_ids() =~= prev.therapy_ids());
                }
                Ok(out)
            } else {
                proof {
                    assert forall|j: int|
                        0 <= j < db.reservations@.len() && (#[trigger] db.reservations@[j]).id
                            == reservation_id implies !(db.reservations@[j].user_id == claims.id
                        && db.reservations@[j].status is Waiting) by {
                        assert(db.reservation_ids()[j] == db.reservations@[j].id);
                        assert(db.reservation_ids()[i as int] == db.reservations@[i as int].id);
                        crate::database::lemma_ids_unique(
                            db.reservation_ids(),
                            db.next_reservation_id,
                            j,
                            i as int,
                        );
                    }
                }
                Err(ServiceError::ReservationNotCancellable)
            }
        },
        None => Err(ServiceError::ReservationNotCancellable),
    }
}

/// `a` is shown no later than `b` in a history listing: later start times
/// first, ties broken by ascending id.
pub open spec fn history_before(a: Reservation, b: Reservation) -> bool {
    a.time_from > b.time_from || (a.time_from == b.time_from && a.id <= b.id)
}

/// `r` slotted into `s` at the first position it may take under
/// [`history_before`].
pub open spec fn insert_by_time(r: Reservation, s: Seq<Reservation>) -> Seq<Reservation>
    decreases s.len(),
{
    if s.len() == 0 {
        seq![r]
    } else if history_before(r, s[0]) {
        seq![r] + s
    } else {
        seq![s[0]] + insert_by_time(r, s.drop_first())
    }
}

/// One user's reservations, ordered latest start first (ids break ties).
pub open spec fn user_history(s: Seq<Reservation>, user_id: i64) -> Seq<Reservation>
    decreases s.len(),
{
    if s.len() == 0 {
        Seq::empty()
    } else {
        let prev = user_history(s.drop_last(), user_id);
        if s.last().user_id == user_id {
            insert_by_time(s.last(), prev)
        } else {
            prev
        }
    }
}

/// Every position of `s` comes before every later one under
/// [`history_before`].
pub open spec fn history_sorted(s: Seq<Reservation>) -> bool {
    forall|i: int, j: int| 0 <= i < j < s.len() ==> history_before(s[i], s[j])
}

pub proof fn lemma_insert_by_time_len(r: Reservation, s: Seq<Reservation>)
    ensures
        insert_by_time(r, s).len() == s.len() + 1,
    decreases s.len(),
{
    if s.len() != 0 && !history_before(r, s[0]) {
        lemma_insert_by_time_len(r, s.drop_first());
    }
}

pub proof fn lemma_user_history_len(s: Seq<Reservation>, user_id: i64)
    ensures
        user_history(s, user_id).len() <= s.len(),
    decreases s.len(),
{
    if s.len() != 0 {
        lemma_user_history_len(s.drop_last(), user_id);
        if s.last().user_id == user_id {
            lemma_insert_by_time_len(s.last(), user_history(s.drop_last(), user_id));
        }
    }
}

/// Where the first `j` rows of `s` come before `r` and row `j` (if any) does
/// not, the insertion lands exactly at position `j`.
pub proof fn lemma_insert_by_time_at(r: Reservation, s: Seq<Reservation>, j: int)
    requires
        0 <= j <= s.len(),
        forall|k: int| 0 <= k < j ==> !history_before(r, #[trigger] s[k]),
        j < s.len() ==> history_before(r, s[j]),
    ensures
        insert_by_time(r, s) =~= s.subrange(0, j) + seq![r] + s.subrange(j, s.len() as int),
    decreases j,
{
    if j == 0 {
        if s.len() == 0 {
            assert(insert_by_time(r, s) =~= seq![r]);
        }
    } else {
        assert(!history_before(r, s[0]));
        let rest = s.drop_first();
        assert(forall|k: int| 0 <= k < j - 1 ==> !history_before(r, #[trigger] rest[k])) by {
            assert(forall|k: int| 0 <= k < j - 1 ==> rest[k] == s[k + 1]);
        }
        lemma_insert_by_time_at(r, rest, j - 1);
    }
}

/// Everything in the inserted sequence is either `r` or was in `s` already.
pub proof fn lemma_insert_by_time_membership(r: Reservation, s: Seq<Reservation>, i: int)
    requires
        0 <= i < insert_by_time(r, s).len(),
    ensures
        insert_by_time(r, s)[i] == r || s.contains(insert_by_time(r, s)[i]),
    decreases s.len(),
{
    if s.len() == 0 {
    } else if history_before(r, s[0]) {
    } else {
        if i == 0 {
            assert(s.contains(s[0]));
        } else {
            lemma_insert_by_time_membership(r, s.drop_first(), i - 1);
            let x = insert_by_time(r, s)[i];
            if x != r {
                assert(s.drop_first().contains(x));
                let w = choose|k: int| 0 <= k < s.drop_first().len() && s.drop_first()[k] == x;
                assert(s[w + 1] == x);
            }
        }
    }
}

pub proof fn lemma_insert_by_time_sorted(r: Reservation, s: Seq<Reservation>)
    requires
        history_sorted(s),
    ensures
        history_sorted(insert_by_time(r, s)),
    decreases s.len(),
{
    if s.len() == 0 {
    } else if history_before(r, s[0]) {
        let out = seq![r] + s;
        assert forall|i: int, j: int| 0 <= i < j < out.len() implies history_before(
            out[i],
            out[j],
        ) by {
            if i == 0 {
                if j > 1 {
                    assert(history_before(s[0], s[j - 1]));
                }
            }
        }
    } else {
        lemma_insert_by_time_sorted(r, s.drop_first());
        let inner = insert_by_time(r, s.drop_first());
        let out = seq![s[0]] + inner;
        assert forall|i: int, j: int| 0 <= i < j < out.len() implies history_before(
            out[i],
            out[j],
        ) by {
            lemma_insert_by_time_len(r, s.drop_first());
            if i == 0 {
                lemma_insert_by_time_membership(r, s.drop_first(), j - 1);
                if inner[j - 1] == r {
                    assert(history_before(s[0], r));
                } else {
                    let w = choose|k: int|
                        0 <= k < s.drop_first().len() && s.drop_first()[k] == inner[j - 1];
                    assert(s[w + 1] == inner[j - 1]);
                    assert(history_before(s[0], s[w + 1]));
                }
            }
        }
    }
}

/// The listing order really is sorted, and it shows only the user's own
/// reservations.
pub proof fn lemma_user_history_sorted(s: Seq<Reservation>, user_id: i64)
    ensures
        history_sorted(user_history(s, user_id)),
        forall|i: int|
            0 <= i < user_history(s, user_id).len() ==> (#[trigger] user_history(s, user_id)[i]).user_id
                == user_id,
    decreases s.len(),
{
    if s.len() != 0 {
        lemma_user_history_sorted(s.drop_last(), user_id);
        let prev = user_history(s.drop_last(), user_id);
        if s.last().user_id == user_id {
            lemma_insert_by_time_sorted(s.last(), prev);
            let out = insert_by_time(s.last(), prev);
            assert forall|i: int| 0 <= i < out.len() implies (#[trigger] out[i]).user_id
                == user_id by {
                lemma_insert_by_time_membership(s.last(), prev, i);
            }
        }
    }
}

/// Slots one reservation into an already sorted listing.
fn insert_sorted(out: &mut Vec<Reservation>, r: Reservation)
    ensures
        final(out)@ == insert_by_time(r, old(out)@),
{
    let mut j: usize = 0;
    while j < out.len() && !(r.time_from > out[j].time_from || (r.time_from == out[j].time_from
        && r.id <= out[j].id))
        invariant
            j <= out@.len(),
            *out == *old(out),
            forall|k: int| 0 <= k < j ==> !history_before(r, #[trigger] out@[k]),
        decreases out@.len() - j,
    {
        j = j + 1;
    }
    proof {
        lemma_insert_by_time_at(r, out@, j as int);
    }
    out.insert(j, r);
}

/// The page number after defaults, always at least 1.
pub open spec fn effective_page(q: crate::database::GeneralPagingQueryInput) -> int {
    match q.page {
        Some(p) => if p <= 0 {
            1int
        } else {
            p as int
        },
        None => 1int,
    }
}

/// The page size after defaults; non-positive only if the caller says so.
pub open spec fn effective_limit(q: crate::database::GeneralPagingQueryInput) -> int {
    match q.limit {
        Some(l) => l as int,
        None => 9999int,
    }
}

/// The page selector is valid: an explicit page or limit must be positive,
/// and the window's last row must be representable.
pub open spec fn paging_valid(q: crate::database::GeneralPagingQueryInput) -> bool {
    &&& (q.page matches Some(p) ==> p > 0)
    &&& effective_limit(q) > 0
    &&& effective_page(q) * effective_limit(q) - 1 <= i64::MAX
}

pub use crate::utils::page_of;

/// Attaches the catalog snapshot to one reservation row, resolving the
/// therapy directly and the salon through the bed's branch.
fn attach_snapshot(db: &Database, r: &Reservation) -> (out: ReservationOutput)
    requires
        db.wf(),
    ensures
        out == reservation_output_of(*db, *r),
{
    let therapy = match db.find_therapy(r.therapy_id) {
        Some(ti) => {
            proof {
                db.lemma_therapy_row_at(ti as int);
            }
            Some(db.therapies[ti].clone())
        },
        None => None,
    };
    let bed = match db.find_bed(r.salon_bed_id) {
        Some(bi) => {
            proof {
                db.lemma_bed_row_at(bi as int);
            }
            Some(db.beds[bi].clone())
        },
        None => None,
    };
    let branch = match &bed {
        Some(b) => match db.find_branch(b.branch_id) {
            Some(bri) => {
                proof {
                    db.lemma_branch_row_at(bri as int);
                }
                Some(db.branches[bri].clone())
            },
            None => None,
        },
        None => None,
    };
    let salon = match &branch {
        Some(br) => match db.find_salon(br.salon_id) {
            Some(si) => {
                proof {
                    db.lemma_salon_row_at(si as int);
                }
                Some(db.salons[si].clone())
            },
            None => None,
        },
        None => None,
    };
    ReservationOutput {
        id: r.id,
        user_id: r.user_id,
        therapy_id: r.therapy_id,
        salon_bed_id: r.salon_bed_id,
        time_from: r.time_from,
        time_to: r.time_to,
        comment: clone_opt_string(&r.comment),
        status: r.status,
        therapy,
        salon_bed: bed,
        salon,
        salon_branch: branch,
    }
}

/// One page of the caller's own reservations, latest start first, with the
/// total row count and the page count.
///
/// Succeeds exactly for a valid page selector (explicit page and limit
/// positive, window representable); the rows returned are exactly the
/// window `[(page-1)*limit, page*limit)` of [`user_history`], each joined
/// with its catalog snapshot.
pub fn list_reservation_history(
    db: &Database,
    claims: &Claims,
    query: crate::database::GeneralPagingQueryInput,
) -> (r: Result<(Vec<ReservationOutput>, i64, i64), ServiceError>)
    requires
        db.wf(),
    ensures
        r is Ok <==> paging_valid(query),
        r matches Ok(t) ==> {
            let hist = user_history(db.reservations@, claims.id);
            let from = (effective_page(query) - 1) * effective_limit(query);
            let to = effective_page(query) * effective_limit(query) - 1;
            &&& t.0@ == page_of(hist, from, to).map_values(
                |x: Reservation| reservation_output_of(*db, x),
            )
            &&& t.1 == hist.len()
            &&& t.2 == (hist.len() + effective_limit(query) - 1) / effective_limit(query)
        },
        r matches Err(e) ==> e == ServiceError::InvalidPaging,
{
    if let Some(p) = query.page {
        if p <= 0 {
            return Err(ServiceError::InvalidPaging);
        }
    }
    let (page, limit) = crate::utils::extract_page_and_limit(query.page, query.limit);
    let window = match crate::utils::get_query_from_to(page, limit) {
        Ok(w) => w,
        Err(_) => {
            return Err(ServiceError::InvalidPaging);
        },
    };
    let from = window.0;
    let to = window.1;
    proof {
        assert(from >= 0 && to + 1 - from == limit) by (nonlinear_arith)
            requires
                page >= 1,
                limit > 0,
                from == (page - 1) * limit,
                to == page * limit - 1,
        ;
    }

    let mut full: Vec<Reservation> = Vec::new();
    let n = db.reservations.len();
    for i in 0..n
        invariant
            n == db.reservations@.len(),
            full@ == user_history(db.reservations@.subrange(0, i as int), claims.id),
    {
        proof {
            assert(db.reservations@.subrange(0, i + 1).drop_last() =~= db.reservations@.subrange(
                0,
                i as int,
            ));
            assert(db.reservations@.subrange(0, i + 1).last() == db.reservations@[i as int]);
        }
        if db.reservations[i].user_id == claims.id {
            insert_sorted(&mut full, db.reservations[i].clone());
        }
    }
    proof {
        assert(db.reservations@.subrange(0, n as int) =~= db.reservations@);
        lemma_user_history_len(db.reservations@, claims.id);
    }
    let total: i64 = full.len() as i64;
    let pages = crate::utils::total_pages(total, limit);

    let ghost hist = user_history(db.reservations@, claims.id);
    let mut page_rows: Vec<Reservation> = Vec::new();
    let m = full.len();
    assert(m < i64::MAX);
    for k in 0..m
        invariant
            m == full@.len(),
            m < i64::MAX,
            full@ == hist,
            from == (effective_page(query) - 1) * effective_limit(query),
            to == effective_page(query) * effective_limit(query) - 1,
            0 <= from <= to + 1,
            page_rows@ =~= page_of(hist.subrange(0, k as int), from as int, to as int),
    {
        if (k as i64) >= from && (k as i64) <= to {
            page_rows.push(full[k].clone());
        }
        proof {
            let prefix = hist.subrange(0, k as int);
            let step = hist.subrange(0, k + 1);
            assert(step[k as int] == hist[k as int]);
            assert(forall|j: int| 0 <= j < k ==> step[j] == #[trigger] prefix[j]);
            if (k as int) < from {
                assert(page_of(step, from as int, to as int) =~= page_of(
                    prefix,
                    from as int,
                    to as int,
                ));
            } else if (k as int) <= to {
                assert(page_of(step, from as int, to as int) =~= page_of(
                    prefix,
                    from as int,
                    to as int,
                ).push(hist[k as int]));
            } else {
                assert(page_of(step, from as int, to as int) =~= page_of(
                    prefix,
                    from as int,
                    to as int,
                ));
            }
            assert(page_rows@ =~= page_of(step, from as int, to as int));
        }
    }
    proof {
        assert(hist.subrange(0, m as int) =~= hist);
    }

    let mut out_rows: Vec<ReservationOutput> = Vec::new();
    let p = page_rows.len();
    for k in 0..p
        invariant
            db.wf(),
            p == page_rows@.len(),
            out_rows@ =~= page_rows@.subrange(0, k as int).map_values(
                |x: Reservation| reservation_output_of(*db, x),
            ),
    {
        out_rows.push(attach_snapshot(db, &page_rows[k]));
        proof {
            assert(page_rows@.subrange(0, k + 1) =~= page_rows@.subrange(0, k as int).push(
                page_rows@[k as int],
            ));
            assert(out_rows@ =~= page_rows@.subrange(0, k + 1).map_values(
                |x: Reservation| reservation_output_of(*db, x),
            ));
        }
    }
    proof {
        assert(page_rows@.subrange(0, p as int) =~= page_rows@);
    }
    Ok((out_rows, total, pages))
}

/// Once a waiting reservation holds a bed, any request for that bed over an
/// intersecting slot finds it taken: of two overlapping bookings, only the
/// one that got in first can stand.
pub proof fn lemma_no_double_booking(db: Database, i: int, from: int, to: int)
    requires
        0 <= i < db.reservations@.len(),
        db.reservations@[i].status is Waiting,
        overlaps(db.reservations@[i].time_from as int, db.reservations@[i].time_to as int, from, to),
    ensures
        !db.bed_free(db.reservations@[i].salon_bed_id, from, to),
{
    assert(blocks(db.reservations@[i], db.reservations@[i].salon_bed_id, from, to));
}

/// Slots that merely touch do not intersect: under half-open semantics a
/// booking ending at some instant leaves a booking starting there possible.
pub proof fn lemma_adjacent_slots_compatible(a_from: int, a_to: int, b_from: int, b_to: int)
    requires
        a_to <= b_from || b_to <= a_from,
    ensures
        !overlaps(a_from, a_to, b_from, b_to),
{
}

/// After one booking gets in, a second request for the same bed over an
/// intersecting slot breaks the availability rule: at most one of two
/// overlapping bookings can ever succeed, in whichever order they arrive.
pub proof fn lemma_second_overlapping_create_fails(
    db0: Database,
    db1: Database,
    r: Reservation,
    input: CreateReservationInput,
    now: i64,
)
    requires
        db1.reservations@ == db0.reservations@.push(r),
        r.status is Waiting,
        r.salon_bed_id == input.salon_bed_id,
        overlaps(
            r.time_from as int,
            r.time_to as int,
            input.time_from as int,
            input.time_to as int,
        ),
    ensures
        !create_allowed(db1, input, now),
{
    let n = db0.reservations@.len() as int;
    assert(db1.reservations@[n] == r);
    assert(blocks(db1.reservations@[n], input.salon_bed_id, input.time_from as int, input.time_to as int));
}

/// Cancelling only removes obstacles: once the one reservation standing in
/// the way of a slot is cancelled, the bed is free for that slot again.
pub proof fn lemma_cancel_frees_slot(
    db0: Database,
    db1: Database,
    i: int,
    bed: i64,
    from: int,
    to: int,
)
    requires
        0 <= i < db0.reservations@.len(),
        db1.reservations@ == db0.reservations@.update(
            i,
            Reservation { status: ReservationStatus::Cancel, ..db0.reservations@[i] },
        ),
        forall|j: int|
            0 <= j < db0.reservations@.len() && j != i ==> !blocks(
                #[trigger] db0.reservations@[j],
                bed,
                from,
                to,
            ),
    ensures
        db1.bed_free(bed, from, to),
{
    assert forall|j: int| 0 <= j < db1.reservations@.len() implies !blocks(
        #[trigger] db1.reservations@[j],
        bed,
        from,
        to,
    ) by {
        if j != i {
            assert(db1.reservations@[j] == db0.reservations@[j]);
        }
    }
}

/// Books a bed against the system clock, returning the instant used, so a
/// caller can see which rules applied. The outcome is exactly that of
/// [`create_reservation`] at that instant.
pub fn create_reservation_now(db: &mut Database, claims: &Claims, input: CreateReservationInput)
    -> (r: (i64, Result<Reservation, ServiceError>))
    requires
        old(db).wf(),
        old(db).next_reservation_id < i64::MAX,
    ensures
        final(db).wf(),
        r.1 is Ok <==> create_allowed(*old(db), input, r.0),
        r.1 matches Ok(res) ==> {
            &&& res == created_reservation(*old(db), claims.id, input)
            &&& final(db).reservations@ == old(db).reservations@.push(res)
            &&& final(db).next_reservation_id == old(db).next_reservation_id + 1
            &&& *final(db) == (Database {
                reservations: final(db).reservations,
                next_reservation_id: final(db).next_reservation_id,
                ..*old(db)
            })
        },
        r.1 matches Err(e) ==> *final(db) == *old(db) && e == create_error(*old(db), input, r.0),
{
    let now = crate::clock::current_timestamp();
    let outcome = create_reservation(db, claims, input, now);
    (now, outcome)
}

} // verus!

