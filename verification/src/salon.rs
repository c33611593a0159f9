//! Salons, their branches and their therapies: the public catalog reads and
//! the owner- and admin-scoped writes.

use vstd::prelude::*;

use crate::claim::Claims;
use crate::database::Database;
use crate::database::GeneralPagingQueryInput;
use crate::database::GeneralStatus;
use crate::database::Salon;
use crate::database::SalonBranch;
use crate::database::SalonDetailOutput;
use crate::database::Therapy;
use crate::error::ServiceError;
use crate::utils::page_of;

verus! {

/// Fields of a salon created by an administrator.
pub struct CreateSalonInput {
    pub logo: Option<String>,
    pub cover_photo: Option<String>,
    pub name: String,
    pub phone: Option<String>,
    pub email: Option<String>,
    pub description: Option<String>,
}

/// Replacement values for a salon's describable fields; an absent field
/// clears the stored one, as the full-row update of the store does.
pub struct UpdateSalonInput {
    pub logo: Option<String>,
    pub cover_photo: Option<String>,
    pub name: Option<String>,
    pub phone: Option<String>,
    pub email: Option<String>,
    pub description: Option<String>,
}

/// A branch row as named in an update request.
pub struct UpdateSalonBranchInput {
    pub id: Option<i64>,
    pub address: Option<String>,
}

/// The address of a branch to open.
pub struct AddSalonBranchInput {
    pub address: String,
}

/// Name, description, price and duration of a therapy on the menu.
pub struct AddAndUpdateTherapyInput {
    pub name: Option<String>,
    pub description: Option<String>,
    pub price: Option<i64>,
    pub duration: Option<String>,
}

/// An account with this id exists.
pub open spec fn has_user(db: Database, user_id: i64) -> bool {
    exists|i: int| 0 <= i < db.users@.len() && (#[trigger] db.users@[i]).id == user_id
}

/// A salon with this id exists.
pub open spec fn has_salon(db: Database, salon_id: i64) -> bool {
    exists|i: int| 0 <= i < db.salons@.len() && (#[trigger] db.salons@[i]).id == salon_id
}

/// The salon this user owns, if the user exists and owns one.
pub open spec fn user_salon(db: Database, user_id: i64) -> Option<i64> {
    if has_user(db, user_id) {
        let i = choose|i: int|
            0 <= i < db.users@.len() && (#[trigger] db.users@[i]).id == user_id;
        db.users@[i].salon_id
    } else {
        None
    }
}

/// A therapy with this id exists and belongs to the salon this user owns.
pub open spec fn owns_therapy(db: Database, user_id: i64, therapy_id: i64) -> bool {
    exists|ti: int|
        0 <= ti < db.therapies@.len() && (#[trigger] db.therapies@[ti]).id == therapy_id
            && user_salon(db, user_id) == Some(db.therapies@[ti].salon_id)
}

/// The branches of one salon, in stored order.
pub open spec fn branches_of_salon(s: Seq<SalonBranch>, salon_id: i64) -> Seq<SalonBranch>
    decreases s.len(),
{
    if s.len() == 0 {
        Seq::empty()
    } else {
        let prev = branches_of_salon(s.drop_last(), salon_id);
        if s.last().salon_id == salon_id {
            prev.push(s.last())
        } else {
            prev
        }
    }
}

/// The therapies of one salon, in stored order.
pub open spec fn therapies_of_salon(s: Seq<Therapy>, salon_id: i64) -> Seq<Therapy>
    decreases s.len(),
{
    if s.len() == 0 {
        Seq::empty()
    } else {
        let prev = therapies_of_salon(s.drop_last(), salon_id);
        if s.last().salon_id == salon_id {
            prev.push(s.last())
        } else {
            prev
        }
    }
}

impl Database {
    /// With well-formed ids, `user_salon` reads the salon of the account
    /// standing at any position that carries the looked-up id.
    pub proof fn lemma_user_salon_at(&self, i: int)
        requires
            self.wf(),
            0 <= i < self.users@.len(),
        ensures
            user_salon(*self, self.users@[i].id) == self.users@[i].salon_id,
    {
        let id = self.users@[i].id;
        assert(has_user(*self, id));
        let c = choose|j: int| 0 <= j < self.users@.len() && (#[trigger] self.users@[j]).id == id;
        assert(self.user_ids()[c] == self.users@[c].id);
        assert(self.user_ids()[i] == self.users@[i].id);
        crate::database::lemma_ids_unique(self.user_ids(), self.next_user_id, c, i);
    }
}

/// Opens a new salon; the row carries the next free id and starts activated.
pub fn create_salon(db: &mut Database, input: CreateSalonInput) -> (r: Salon)
    requires
        old(db).wf(),
        old(db).next_salon_id < i64::MAX,
    ensures
        final(db).wf(),
        r == (Salon {
            id: old(db).next_salon_id,
            logo: input.logo,
            cover_photo: input.cover_photo,
            name: Some(input.name),
            phone: input.phone,
            email: input.email,
            description: input.description,
            status: Some(GeneralStatus::Activate),
        }),
        final(db).salons@ == old(db).salons@.push(r),
        final(db).next_salon_id == old(db).next_salon_id + 1,
        *final(db) == (Database {
            salons: final(db).salons,
            next_salon_id: final(db).next_salon_id,
            ..*old(db)
        }),
{
    let salon = Salon {
        id: db.next_salon_id,
        logo: input.logo,
        cover_photo: input.cover_photo,
        name: Some(input.name),
        phone: input.phone,
        email: input.email,
        description: input.description,
        status: Some(GeneralStatus::Activate),
    };
    let out = salon.clone();
    let ghost prev = *db;
    db.salons.push(salon);
    db.next_salon_id = db.next_salon_id + 1;
    proof {
        assert(db.salon_ids() =~= prev.salon_ids().push(out.id));
        assert(db.user_ids() =~= prev.user_ids());
        assert(db.branch_ids() =~= prev.branch_ids());
        assert(db.bed_ids() =~= prev.bed_ids());
        assert(db.therapy_ids() =~= prev.therapy_ids());
        assert(db.reservation_ids() =~= prev.reservation_ids());
    }
    out
}

/// Removes a salon by id. Succeeds exactly when the salon exists.
pub fn delete_salon(db: &mut Database, salon_id: i64) -> (r: Result<Salon, ServiceError>)
    requires
        old(db).wf(),
    ensures
        final(db).wf(),
        r is Ok <==> has_salon(*old(db), salon_id),
        r matches Ok(salon) ==> exists|i: int|
            {
                &&& 0 <= i < old(db).salons@.len()
                &&& (#[trigger] old(db).salons@[i]).id == salon_id
                &&& salon == old(db).salons@[i]
                &&& final(db).salons@ == old(db).salons@.remove(i)
            },
        r is Ok ==> *final(db) == (Database { salons: final(db).salons, ..*old(db) }),
        r matches Err(e) ==> *final(db) == *old(db) && e == ServiceError::SalonNotFound,
{
    let i = match db.find_salon(salon_id) {
        Some(i) => i,
        None => {
            return Err(ServiceError::SalonNotFound);
        },
    };
    let out = db.salons[i].clone();
    let ghost prev = *db;
    let _removed = db.salons.remove(i);
    proof {
        assert(db.salon_ids() =~= prev.salon_ids().remove(i as int));
        assert(db.user_ids() =~= prev.user_ids());
        assert(db.branch_ids() =~= prev.branch_ids());
        assert(db.bed_ids() =~= prev.bed_ids());
        assert(db.therapy_ids() =~= prev.therapy_ids());
        assert(db.reservation_ids() =~= prev.reservation_ids());
    }
    Ok(out)
}

/// One page of all salons in stored order, with total and page counts.
/// Succeeds exactly for a valid page selector.
pub fn list_salon(db: &Database, query: GeneralPagingQueryInput) -> (r: Result<
    (Vec<Salon>, i64, i64),
    ServiceError,
>)
    requires
        db.wf(),
    ensures
        r is Ok <==> crate::reservation::paging_valid(query),
        r matches Ok(t) ==> {
            let from = (crate::reservation::effective_page(query) - 1)
                * crate::reservation::effective_limit(query);
            let to = crate::reservation::effective_page(query) * crate::reservation::effective_limit(
                query,
            ) - 1;
            &&& t.0@ == page_of(db.salons@, from, to)
            &&& t.1 == db.salons@.len()
            &&& t.2 == (db.salons@.len() + crate::reservation::effective_limit(query) - 1)
                / crate::reservation::effective_limit(query)
        },
        r matches Err(e) ==> e == ServiceError::InvalidPaging,
{
    if let Some(p) = query.page {
        if p <= 0 {
            return Err(ServiceError::InvalidPaging);
        }
    }
    let (page, limit) = crate::utils::extract_page_and_limit(query.page, query.limit);
    let window = match crate::utils::get_query_from_to(page, limit) {
        Ok(w) => w,
        Err(_) => {
            return Err(ServiceError::InvalidPaging);
        },
    };
    let from = window.0;
    let to = window.1;
    proof {
        assert(from >= 0 && to + 1 - from == limit) by (nonlinear_arith)
            requires
                page >= 1,
                limit > 0,
                from == (page - 1) * limit,
                to == page * limit - 1,
        ;
    }
    let total: i64 = db.salons.len() as i64;
    let pages = crate::utils::total_pages(total, limit);
    let mut page_rows: Vec<Salon> = Vec::new();
    let m = db.salons.len();
    for k in 0..m
        invariant
            m == db.salons@.len(),
            m < i64::MAX,
            0 <= from <= to + 1,
            page_rows@ =~= page_of(db.salons@.subrange(0, k as int), from as int, to as int),
    {
        if (k as i64) >= from && (k as i64) <= to {
            page_rows.push(db.salons[k].clone());
        }
        proof {
            let prefix = db.salons@.subrange(0, k as int);
            let step = db.salons@.subrange(0, k + 1);
            assert(step[k as int] == db.salons@[k as int]);
            assert(forall|j: int| 0 <= j < k ==> step[j] == #[trigger] prefix[j]);
            if (k as int) < from {
                assert(page_of(step, from as int, to as int) =~= page_of(
                    prefix,
                    from as int,
                    to as int,
                ));
            } else if (k as int) <= to {
                assert(page_of(step, from as int, to as int) =~= page_of(
                    prefix,
                    from as int,
                    to as int,
                ).push(db.salons@[k as int]));
            } else {
                assert(page_of(step, from as int, to as int) =~= page_of(
                    prefix,
                    from as int,
                    to as int,
                ));
            }
            assert(page_rows@ =~= page_of(step, from as int, to as int));
        }
    }
    proof {
        assert(db.salons@.subrange(0, m as int) =~= db.salons@);
    }
    Ok((page_rows, total, pages))
}

/// Collects the branches of one salon, in stored order.
fn collect_branches(db: &Database, salon_id: i64) -> (r: Vec<SalonBranch>)
    ensures
        r@ == branches_of_salon(db.branches@, salon_id),
{
    let mut out: Vec<SalonBranch> = Vec::new();
    let n = db.branches.len();
    for i in 0..n
        invariant
            n == db.branches@.len(),
            out@ == branches_of_salon(db.branches@.subrange(0, i as int), salon_id),
    {
        proof {
            assert(db.branches@.subrange(0, i + 1).drop_last() =~= db.branches@.subrange(
                0,
                i as int,
            ));
            assert(db.branches@.subrange(0, i + 1).last() == db.branches@[i as int]);
        }
        if db.branches[i].salon_id == salon_id {
            out.push(db.branches[i].clone());
        }
    }
    proof {
        assert(db.branches@.subrange(0, n as int) =~= db.branches@);
    }
    out
}

/// Collects the therapies of one salon, in stored order.
fn collect_therapies(db: &Database, salon_id: i64) -> (r: Vec<Therapy>)
    ensures
        r@ == therapies_of_salon(db.therapies@, salon_id),
{
    let mut out: Vec<Therapy> = Vec::new();
    let n = db.therapies.len();
    for i in 0..n
        invariant
            n == db.therapies@.len(),
            out@ == therapies_of_salon(db.therapies@.subrange(0, i as int), salon_id),
    {
        proof {
            assert(db.therapies@.subrange(0, i + 1).drop_last() =~= db.therapies@.subrange(
                0,
                i as int,
            ));
            assert(db.therapies@.subrange(0, i + 1).last() == db.therapies@[i as int]);
        }
        if db.therapies[i].salon_id == salon_id {
            out.push(db.therapies[i].clone());
        }
    }
    proof {
        assert(db.therapies@.subrange(0, n as int) =~= db.therapies@);
    }
    out
}

/// A salon with its branches and therapies, for anyone to read.
/// Succeeds exactly when the salon exists.
pub fn salon_detail(db: &Database, salon_id: i64) -> (r: Result<SalonDetailOutput, ServiceError>)
    requires
        db.wf(),
    ensures
        r is Ok <==> has_salon(*db, salon_id),
        r matches Ok(d) ==> exists|i: int|
            {
                &&& 0 <= i < db.salons@.len()
                &&& (#[trigger] db.salons@[i]).id == salon_id
                &&& d.salon == db.salons@[i]
                &&& d.salon_branches@ == branches_of_salon(db.branches@, salon_id)
                &&& d.therapies@ == therapies_of_salon(db.therapies@, salon_id)
            },
        r matches Err(e) ==> e == ServiceError::SalonNotFound,
{
    let i = match db.find_salon(salon_id) {
        Some(i) => i,
        None => {
            return Err(ServiceError::SalonNotFound);
        },
    };
    let salon = db.salons[i].clone();
    let salon_branches = collect_branches(db, salon_id);
    let therapies = collect_therapies(db, salon_id);
    Ok(SalonDetailOutput { salon, salon_branches, therapies })
}

/// The owner's own salon with branches and therapies attached.
///
/// Fails with `Unauthorized` for an unknown account, `NoSalonOwned` where
/// the account has no salon, and `SalonNotFound` where the linked salon row
/// is gone.
pub fn get_salon(db: &Database, claims: &Claims) -> (r: Result<SalonDetailOutput, ServiceError>)
    requires
        db.wf(),
    ensures
        r is Ok <==> has_user(*db, claims.id) && user_salon(*db, claims.id) is Some && has_salon(
            *db,
            user_salon(*db, claims.id).unwrap(),
        ),
        r matches Ok(d) ==> {
            let sid = user_salon(*db, claims.id).unwrap();
            exists|i: int|
                {
                    &&& 0 <= i < db.salons@.len()
                    &&& (#[trigger] db.salons@[i]).id == sid
                    &&& d.salon == db.salons@[i]
                    &&& d.salon_branches@ == branches_of_salon(db.branches@, sid)
                    &&& d.therapies@ == therapies_of_salon(db.therapies@, sid)
                }
        },
        r matches Err(e) ==> {
            &&& e == if !has_user(*db, claims.id) {
                ServiceError::Unauthorized
            } else if user_salon(*db, claims.id) is None {
                ServiceError::NoSalonOwned
            } else {
                ServiceError::SalonNotFound
            }
        },
{
    let ui = match db.find_user(claims.id) {
        Some(i) => i,
        None => {
            return Err(ServiceError::Unauthorized);
        },
    };
    proof {
        db.lemma_user_salon_at(ui as int);
    }
    let sid = match db.users[ui].salon_id {
        Some(sid) => sid,
        None => {
            return Err(ServiceError::NoSalonOwned);
        },
    };
    match salon_detail(db, sid) {
        Ok(d) => Ok(d),
        Err(_) => Err(ServiceError::SalonNotFound),
    }
}

/// Replaces the describable fields of the owner's salon with the request's
/// values, absent ones included; id and status stay.
pub fn update_salon(db: &mut Database, claims: &Claims, input: UpdateSalonInput) -> (r: Result<
    Salon,
    ServiceError,
>)
    requires
        old(db).wf(),
    ensures
        final(db).wf(),
        r is Ok <==> has_user(*old(db), claims.id) && user_salon(*old(db), claims.id) is Some
            && has_salon(*old(db), user_salon(*old(db), claims.id).unwrap()),
        r matches Ok(salon) ==> exists|i: int|
            {
                &&& 0 <= i < old(db).salons@.len()
                &&& (#[trigger] old(db).salons@[i]).id == user_salon(*old(db), claims.id).unwrap()
                &&& salon == (Salon {
                    id: old(db).salons@[i].id,
                    logo: input.logo,
                    cover_photo: input.cover_photo,
                    name: input.name,
                    phone: input.phone,
                    email: input.email,
                    description: input.description,
                    status: old(db).salons@[i].status,
                })
                &&& final(db).salons@ == old(db).salons@.update(i, salon)
            },
        r is Ok ==> *final(db) == (Database { salons: final(db).salons, ..*old(db) }),
        r matches Err(e) ==> *final(db) == *old(db) && e == if !has_user(*old(db), claims.id) {
            ServiceError::Unauthorized
        } else if user_salon(*old(db), claims.id) is None {
            ServiceError::NoSalonOwned
        } else {
            ServiceError::SalonNotFound
        },
{
    let ui = match db.find_user(claims.id) {
        Some(i) => i,
        None => {
            return Err(ServiceError::Unauthorized);
        },
    };
    proof {
        db.lemma_user_salon_at(ui as int);
    }
    let sid = match db.users[ui].salon_id {
        Some(sid) => sid,
        None => {
            return Err(ServiceError::NoSalonOwned);
        },
    };
    let i = match db.find_salon(sid) {
        Some(i) => i,
        None => {
            return Err(ServiceError::SalonNotFound);
        },
    };
    let updated = Salon {
        id: db.salons[i].id,
        logo: input.logo,
        cover_photo: input.cover_photo,
        name: input.name,
        phone: input.phone,
        email: input.email,
        description: input.description,
        status: db.salons[i].status,
    };
    let out = updated.clone();
    let ghost prev = *db;
    db.salons.set(i, updated);
    proof {
        assert(db.salon_ids() =~= prev.salon_ids());
        assert(db.user_ids() =~= prev.user_ids());
        assert(db.branch_ids() =~= prev.branch_ids());
        assert(db.bed_ids() =~= prev.bed_ids());
        assert(db.therapy_ids() =~= prev.therapy_ids());
        assert(db.reservation_ids() =~= prev.reservation_ids());
    }
    Ok(out)
}

/// Opens a branch of the caller's own salon at the given address.
pub fn add_branch(db: &mut Database, claims: &Claims, input: AddSalonBranchInput) -> (r: Result<
    SalonBranch,
    ServiceError,
>)
    requires
        old(db).wf(),
        old(db).next_branch_id < i64::MAX,
    ensures
        final(db).wf(),
        r is Ok <==> has_user(*old(db), claims.id) && user_salon(*old(db), claims.id) is Some,
        r matches Ok(branch) ==> {
            &&& branch == (SalonBranch {
                id: old(db).next_branch_id,
                address: Some(input.address),
                salon_id: user_salon(*old(db), claims.id).unwrap(),
            })
            &&& final(db).branches@ == old(db).branches@.push(branch)
            &&& final(db).next_branch_id == old(db).next_branch_id + 1
            &&& *final(db) == (Database {
                branches: final(db).branches,
                next_branch_id: final(db).next_branch_id,
                ..*old(db)
            })
        },
        r matches Err(e) ==> *final(db) == *old(db) && e == if !has_user(*old(db), claims.id) {
            ServiceError::Unauthorized
        } else {
            ServiceError::NoSalonOwned
        },
{
    let ui = match db.find_user(claims.id) {
        Some(i) => i,
        None => {
            return Err(ServiceError::Unauthorized);
        },
    };
    proof {
        db.lemma_user_salon_at(ui as int);
    }
    let sid = match db.users[ui].salon_id {
        Some(sid) => sid,
        None => {
            return Err(ServiceError::NoSalonOwned);
        },
    };
    let branch = SalonBranch {
        id: db.next_branch_id,
        address: Some(input.address),
        salon_id: sid,
    };
    let out = branch.clone();
    let ghost prev = *db;
    db.branches.push(branch);
    db.next_branch_id = db.next_branch_id + 1;
    proof {
        assert(db.branch_ids() =~= prev.branch_ids().push(out.id));
        assert(db.user_ids() =~= prev.user_ids());
        assert(db.salon_ids() =~= prev.salon_ids());
        assert(db.bed_ids() =~= prev.bed_ids());
        assert(db.therapy_ids() =~= prev.therapy_ids());
        assert(db.reservation_ids() =~= prev.reservation_ids());
    }
    Ok(out)
}

/// Closes a branch of the caller's own salon.
pub fn delete_branch(db: &mut Database, claims: &Claims, branch_id: i64) -> (r: Result<
    SalonBranch,
    ServiceError,
>)
    requires
        old(db).wf(),
    ensures
        final(db).wf(),
        r is Ok <==> crate::salon_bed::owns_branch(*old(db), claims.id, branch_id),
        r matches Ok(branch) ==> exists|i: int|
            {
                &&& 0 <= i < old(db).branches@.len()
                &&& (#[trigger] old(db).branches@[i]).id == branch_id
                &&& branch == old(db).branches@[i]
                &&& final(db).branches@ == old(db).branches@.remove(i)
            },
        r is Ok ==> *final(db) == (Database { branches: final(db).branches, ..*old(db) }),
        r matches Err(e) ==> *final(db) == *old(db) && e == ServiceError::BranchNotFound,
{
    let bi = match db.find_branch(branch_id) {
        Some(i) => i,
        None => {
            return Err(ServiceError::BranchNotFound);
        },
    };
    let ui = match db.find_user(claims.id) {
        Some(i) => i,
        None => {
            return Err(ServiceError::BranchNotFound);
        },
    };
    let owned = match db.users[ui].salon_id {
        Some(sid) => sid == db.branches[bi].salon_id,
        None => false,
    };
    if !owned {
        proof {
            crate::salon_bed::lemma_branch_ownership_decided(
                *db,
                claims.id,
                branch_id,
                ui as int,
                bi as int,
            );
        }
        return Err(ServiceError::BranchNotFound);
    }
    let out = db.branches[bi].clone();
    let ghost prev = *db;
    let _removed = db.branches.remove(bi);
    proof {
        assert(db.branch_ids() =~= prev.branch_ids().remove(bi as int));
        assert(db.user_ids() =~= prev.user_ids());
        assert(db.salon_ids() =~= prev.salon_ids());
        assert(db.bed_ids() =~= prev.bed_ids());
        assert(db.therapy_ids() =~= prev.therapy_ids());
        assert(db.reservation_ids() =~= prev.reservation_ids());
    }
    Ok(out)
}

/// Puts a therapy on the menu of the caller's own salon.
pub fn add_therapy(db: &mut Database, claims: &Claims, input: AddAndUpdateTherapyInput) -> (r:
    Result<Therapy, ServiceError>)
    requires
        old(db).wf(),
        old(db).next_therapy_id < i64::MAX,
    ensures
        final(db).wf(),
        r is Ok <==> has_user(*old(db), claims.id) && user_salon(*old(db), claims.id) is Some,
        r matches Ok(therapy) ==> {
            &&& therapy == (Therapy {
                id: old(db).next_therapy_id,
                salon_id: user_salon(*old(db), claims.id).unwrap(),
                name: input.name,
                description: input.description,
                price: input.price,
                duration: input.duration,
            })
            &&& final(db).therapies@ == old(db).therapies@.push(therapy)
            &&& final(db).next_therapy_id == old(db).next_therapy_id + 1
            &&& *final(db) == (Database {
                therapies: final(db).therapies,
                next_therapy_id: final(db).next_therapy_id,
                ..*old(db)
            })
        },
        r matches Err(e) ==> *final(db) == *old(db) && e == if !has_user(*old(db), claims.id) {
            ServiceError::Unauthorized
        } else {
            ServiceError::NoSalonOwned
        },
{
    let ui = match db.find_user(claims.id) {
        Some(i) => i,
        None => {
            return Err(ServiceError::Unauthorized);
        },
    };
    proof {
        db.lemma_user_salon_at(ui as int);
    }
    let sid = match db.users[ui].salon_id {
        Some(sid) => sid,
        None => {
            return Err(ServiceError::NoSalonOwned);
        },
    };
    let therapy = Therapy {
        id: db.next_therapy_id,
        salon_id: sid,
        name: input.name,
        description: input.description,
        price: input.price,
        duration: input.duration,
    };
    let out = therapy.clone();
    let ghost prev = *db;
    db.therapies.push(therapy);
    db.next_therapy_id = db.next_therapy_id + 1;
    proof {
        assert(db.therapy_ids() =~= prev.therapy_ids().push(out.id));
        assert(db.user_ids() =~= prev.user_ids());
        assert(db.salon_ids() =~= prev.salon_ids());
        assert(db.branch_ids() =~= prev.branch_ids());
        assert(db.bed_ids() =~= prev.bed_ids());
        assert(db.reservation_ids() =~= prev.reservation_ids());
    }
    Ok(out)
}

/// With well-formed ids, the one row carrying a therapy's id decides whether
/// the caller owns the therapy.
proof fn lemma_therapy_ownership_decided(db: Database, user_id: i64, therapy_id: i64, ti: int)
    requires
        db.wf(),
        0 <= ti < db.therapies@.len(),
        db.therapies@[ti].id == therapy_id,
        user_salon(db, user_id) != Some(db.therapies@[ti].salon_id),
    ensures
        !owns_therapy(db, user_id, therapy_id),
{
    assert forall|tj: int|
        0 <= tj < db.therapies@.len() && (#[trigger] db.therapies@[tj]).id == therapy_id implies
        user_salon(db, user_id) != Some(db.therapies@[tj].salon_id) by {
        assert(db.therapy_ids()[tj] == db.therapies@[tj].id);
        assert(db.therapy_ids()[ti] == db.therapies@[ti].id);
        crate::database::lemma_ids_unique(db.therapy_ids(), db.next_therapy_id, tj, ti);
    }
}

/// Rewrites a therapy of the caller's own salon with the request's values.
pub fn update_therapy(
    db: &mut Database,
    claims: &Claims,
    therapy_id: i64,
    input: AddAndUpdateTherapyInput,
) -> (r: Result<Therapy, ServiceError>)
    requires
        old(db).wf(),
    ensures
        final(db).wf(),
        r is Ok <==> owns_therapy(*old(db), claims.id, therapy_id),
        r matches Ok(therapy) ==> exists|i: int|
            {
                &&& 0 <= i < old(db).therapies@.len()
                &&& (#[trigger] old(db).therapies@[i]).id == therapy_id
                &&& therapy == (Therapy {
                    id: old(db).therapies@[i].id,
                    salon_id: old(db).therapies@[i].salon_id,
                    name: input.name,
                    description: input.description,
                    price: input.price,
                    duration: input.duration,
                })
                &&& final(db).therapies@ == old(db).therapies@.update(i, therapy)
            },
        r is Ok ==> *final(db) == (Database { therapies: final(db).therapies, ..*old(db) }),
        r matches Err(e) ==> *final(db) == *old(db) && e == ServiceError::TherapyNotFound,
{
    let ti = match db.find_therapy(therapy_id) {
        Some(i) => i,
        None => {
            return Err(ServiceError::TherapyNotFound);
        },
    };
    let ui = match db.find_user(claims.id) {
        Some(i) => i,
        None => {
            proof {
                lemma_therapy_ownership_decided(*db, claims.id, therapy_id, ti as int);
            }
            return Err(ServiceError::TherapyNotFound);
        },
    };
    proof {
        db.lemma_user_salon_at(ui as int);
    }
    let owned = match db.users[ui].salon_id {
        Some(sid) => sid == db.therapies[ti].salon_id,
        None => false,
    };
    if !owned {
        proof {
            lemma_therapy_ownership_decided(*db, claims.id, therapy_id, ti as int);
        }
        return Err(ServiceError::TherapyNotFound);
    }
    let updated = Therapy {
        id: db.therapies[ti].id,
        salon_id: db.therapies[ti].salon_id,
        name: input.name,
        description: input.description,
        price: input.price,
        duration: input.duration,
    };
    let out = updated.clone();
    let ghost prev = *db;
    db.therapies.set(ti, updated);
    proof {
        assert(db.therapy_ids() =~= prev.therapy_ids());
        assert(db.user_ids() =~= prev.user_ids());
        assert(db.salon_ids() =~= prev.salon_ids());
        assert(db.branch_ids() =~= prev.branch_ids());
        assert(db.bed_ids() =~= prev.bed_ids());
        assert(db.reservation_ids() =~= prev.reservation_ids());
    }
    Ok(out)
}

/// Takes a therapy of the caller's own salon off the menu.
pub fn delete_therapy(db: &mut Database, claims: &Claims, therapy_id: i64) -> (r: Result<
    Therapy,
    ServiceError,
>)
    requires
        old(db).wf(),
    ensures
        final(db).wf(),
        r is Ok <==> owns_therapy(*old(db), claims.id, therapy_id),
        r matches Ok(therapy) ==> exists|i: int|
            {
                &&& 0 <= i < old(db).therapies@.len()
                &&& (#[trigger] old(db).therapies@[i]).id == therapy_id
                &&& therapy == old(db).therapies@[i]
                &&& final(db).therapies@ == old(db).therapies@.remove(i)
            },
        r is Ok ==> *final(db) == (Database { therapies: final(db).therapies, ..*old(db) }),
        r matches Err(e) ==> *final(db) == *old(db) && e == ServiceError::TherapyNotFound,
{
    let ti = match db.find_therapy(therapy_id) {
        Some(i) => i,
        None => {
            return Err(ServiceError::TherapyNotFound);
        },
    };
    let ui = match db.find_user(claims.id) {
        Some(i) => i,
        None => {
            proof {
                lemma_therapy_ownership_decided(*db, claims.id, therapy_id, ti as int);
            }
            return Err(ServiceError::TherapyNotFound);
        },
    };
    proof {
        db.lemma_user_salon_at(ui as int);
    }
    let owned = match db.users[ui].salon_id {
        Some(sid) => sid == db.therapies[ti].salon_id,
        None => false,
    };
    if !owned {
        proof {
            lemma_therapy_ownership_decided(*db, claims.id, therapy_id, ti as int);
        }
        return Err(ServiceError::TherapyNotFound);
    }
    let out = db.therapies[ti].clone();
    let ghost prev = *db;
    let _removed = db.therapies.remove(ti);
    proof {
        assert(db.therapy_ids() =~= prev.therapy_ids().remove(ti as int));
        assert(db.user_ids() =~= prev.user_ids());
        assert(db.salon_ids() =~= prev.salon_ids());
        assert(db.branch_ids() =~= prev.branch_ids());
        assert(db.bed_ids() =~= prev.bed_ids());
        assert(db.reservation_ids() =~= prev.reservation_ids());
    }
    Ok(out)
}

} // verus!
