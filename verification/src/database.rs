//! The data model: rows of every table, and the in-memory [`Database`] the
//! service operations run against.
//!
//! Timestamps are kept as seconds since the Unix epoch, identifiers as
//! positive integers handed out by the store itself.

use vstd::prelude::*;

verus! {

#[derive(Clone, Copy, Debug, PartialEq, Eq, Structural)]
pub enum UserGender {
    Male,
    Female,
}

#[derive(Clone, Copy, Debug, PartialEq, Eq, Structural)]
pub enum UserRole {
    Admin,
    SalonOwner,
    Customer,
}

#[derive(Clone, Copy, Debug, PartialEq, Eq, Structural)]
pub enum GeneralStatus {
    Activate,
    Inactivate,
}

#[derive(Clone, Copy, Debug, PartialEq, Eq, Structural)]
pub enum ReservationStatus {
    Waiting,
    Done,
    Cancel,
}

impl UserRole {
    /// The wire name of the role, as stored and filtered on.
    pub fn code(&self) -> (r: &'static str)
        ensures
            r@ == self.code_spec(),
    {
        match self {
            UserRole::Admin => "ADMIN",
            UserRole::SalonOwner => "SALON_OWNER",
            UserRole::Customer => "CUSTOMER",
        }
    }

    pub open spec fn code_spec(&self) -> Seq<char> {
        match self {
            UserRole::Admin => "ADMIN"@,
            UserRole::SalonOwner => "SALON_OWNER"@,
            UserRole::Customer => "CUSTOMER"@,
        }
    }
}

impl UserGender {
    /// The display name of the gender.
    pub fn code(&self) -> (r: &'static str)
        ensures
            r@ == self.code_spec(),
    {
        match self {
            UserGender::Male => "Male",
            UserGender::Female => "Female",
        }
    }

    pub open spec fn code_spec(&self) -> Seq<char> {
        match self {
            UserGender::Male => "Male"@,
            UserGender::Female => "Female"@,
        }
    }
}

/// An account row. `salon_id` links a salon owner to the salon they manage.
#[derive(Debug)]
pub struct User {
    pub id: i64,
    pub username: String,
    pub password: String,
    pub full_name: Option<String>,
    pub email: Option<String>,
    pub gender: Option<UserGender>,
    pub role: UserRole,
    pub avatar: Option<String>,
    pub date_of_birth: Option<String>,
    pub salon_id: Option<i64>,
}

#[derive(Debug)]
pub struct Salon {
    pub id: i64,
    pub logo: Option<String>,
    pub cover_photo: Option<String>,
    pub name: Option<String>,
    pub phone: Option<String>,
    pub email: Option<String>,
    pub description: Option<String>,
    pub status: Option<GeneralStatus>,
}

#[derive(Debug)]
pub struct SalonBranch {
    pub id: i64,
    pub address: Option<String>,
    pub salon_id: i64,
}

#[derive(Debug)]
pub struct Therapy {
    pub id: i64,
    pub salon_id: i64,
    pub name: Option<String>,
    pub description: Option<String>,
    pub price: Option<i64>,
    pub duration: Option<String>,
}

#[derive(Debug)]
pub struct SalonBed {
    pub id: i64,
    pub branch_id: i64,
    pub name: Option<String>,
}

/// A booking of one bed for a half-open time slot `[time_from, time_to)`.
#[derive(Debug)]
pub struct Reservation {
    pub id: i64,
    pub user_id: i64,
    pub therapy_id: i64,
    pub salon_bed_id: i64,
    pub time_from: i64,
    pub time_to: i64,
    pub comment: Option<String>,
    pub status: ReservationStatus,
}

/// Page selector accepted by every listing endpoint.
#[derive(Debug)]
pub struct GeneralPagingQueryInput {
    pub page: Option<i64>,
    pub limit: Option<i64>,
}

/// An account as shown to callers: everything but the password hash.
#[derive(Debug)]
pub struct UserOutput {
    pub id: i64,
    pub username: String,
    pub full_name: Option<String>,
    pub email: Option<String>,
    pub gender: Option<UserGender>,
    pub role: UserRole,
    pub avatar: Option<String>,
    pub date_of_birth: Option<String>,
}

/// A salon with its branches and therapies attached.
#[derive(Debug)]
pub struct SalonDetailOutput {
    pub salon: Salon,
    pub salon_branches: Vec<SalonBranch>,
    pub therapies: Vec<Therapy>,
}

/// A reservation as listed for display: the row itself with a snapshot of
/// the therapy, bed, branch and salon it points at, where those still exist.
#[derive(Debug)]
pub struct ReservationOutput {
    pub id: i64,
    pub user_id: i64,
    pub therapy_id: i64,
    pub salon_bed_id: i64,
    pub time_from: i64,
    pub time_to: i64,
    pub comment: Option<String>,
    pub status: ReservationStatus,
    pub therapy: Option<Therapy>,
    pub salon_bed: Option<SalonBed>,
    pub salon: Option<Salon>,
    pub salon_branch: Option<SalonBranch>,
}

pub fn clone_opt_string(o: &Option<String>) -> (r: Option<String>)
    ensures
        r == *o,
{
    match o {
        Option::None => Option::None,
        Option::Some(s) => Option::Some(s.clone()),
    }
}

pub fn clone_opt_i64(o: &Option<i64>) -> (r: Option<i64>)
    ensures
        r == *o,
{
    match o {
        Option::None => Option::None,
        Option::Some(v) => Option::Some(*v),
    }
}

impl Clone for User {
    fn clone(&self) -> (r: Self)
        ensures
            r == *self,
    {
        User {
            id: self.id,
            username: self.username.clone(),
            password: self.password.clone(),
            full_name: clone_opt_string(&self.full_name),
            email: clone_opt_string(&self.email),
            gender: self.gender,
            role: self.role,
            avatar: clone_opt_string(&self.avatar),
            date_of_birth: clone_opt_string(&self.date_of_birth),
            salon_id: clone_opt_i64(&self.salon_id),
        }
    }
}

impl Clone for Salon {
    fn clone(&self) -> (r: Self)
        ensures
            r == *self,
    {
        Salon {
            id: self.id,
            logo: clone_opt_string(&self.logo),
            cover_photo: clone_opt_string(&self.cover_photo),
            name: clone_opt_string(&self.name),
            phone: clone_opt_string(&self.phone),
            email: clone_opt_string(&self.email),
            description: clone_opt_string(&self.description),
            status: self.status,
        }
    }
}

impl Clone for SalonBranch {
    fn clone(&self) -> (r: Self)
        ensures
            r == *self,
    {
        SalonBranch { id: self.id, address: clone_opt_string(&self.address), salon_id: self.salon_id }
    }
}

impl Clone for Therapy {
    fn clone(&self) -> (r: Self)
        ensures
            r == *self,
    {
        Therapy {
            id: self.id,
            salon_id: self.salon_id,
            name: clone_opt_string(&self.name),
            description: clone_opt_string(&self.description),
            price: clone_opt_i64(&self.price),
            duration: clone_opt_string(&self.duration),
        }
    }
}

impl Clone for SalonBed {
    fn clone(&self) -> (r: Self)
        ensures
            r == *self,
    {
        SalonBed { id: self.id, branch_id: self.branch_id, name: clone_opt_string(&self.name) }
    }
}

impl Clone for Reservation {
    fn clone(&self) -> (r: Self)
        ensures
            r == *self,
    {
        Reservation {
            id: self.id,
            user_id: self.user_id,
            therapy_id: self.therapy_id,
            salon_bed_id: self.salon_bed_id,
            time_from: self.time_from,
            time_to: self.time_to,
            comment: clone_opt_string(&self.comment),
            status: self.status,
        }
    }
}

/// Two half-open intervals `[a_from, a_to)` and `[b_from, b_to)` intersect.
pub open spec fn overlaps(a_from: int, a_to: int, b_from: int, b_to: int) -> bool {
    a_from < b_to && b_from < a_to
}

/// The reservation stands in the way of booking `bed` over `[from, to)`.
pub open spec fn blocks(r: Reservation, bed: i64, from: int, to: int) -> bool {
    &&& r.status is Waiting
    &&& r.salon_bed_id == bed
    &&& overlaps(r.time_from as int, r.time_to as int, from, to)
}

/// The whole backing store, one field per table plus the id counters.
pub struct Database {
    pub users: Vec<User>,
    pub salons: Vec<Salon>,
    pub branches: Vec<SalonBranch>,
    pub beds: Vec<SalonBed>,
    pub therapies: Vec<Therapy>,
    pub reservations: Vec<Reservation>,
    pub next_user_id: i64,
    pub next_salon_id: i64,
    pub next_branch_id: i64,
    pub next_bed_id: i64,
    pub next_therapy_id: i64,
    pub next_reservation_id: i64,
}

/// All ids drawn from `[1, next)`, no id twice.
pub open spec fn ids_well_formed(ids: Seq<i64>, next: i64) -> bool {
    &&& forall|i: int| 0 <= i < ids.len() ==> 1 <= #[trigger] ids[i] < next
    &&& forall|i: int, j: int| 0 <= i < j < ids.len() ==> ids[i] != ids[j]
}

impl Database {
    pub open spec fn user_ids(&self) -> Seq<i64> {
        self.users@.map_values(|u: User| u.id)
    }

    pub open spec fn salon_ids(&self) -> Seq<i64> {
        self.salons@.map_values(|s: Salon| s.id)
    }

    pub open spec fn branch_ids(&self) -> Seq<i64> {
        self.branches@.map_values(|b: SalonBranch| b.id)
    }

    pub open spec fn bed_ids(&self) -> Seq<i64> {
        self.beds@.map_values(|b: SalonBed| b.id)
    }

    pub open spec fn therapy_ids(&self) -> Seq<i64> {
        self.therapies@.map_values(|t: Therapy| t.id)
    }

    pub open spec fn reservation_ids(&self) -> Seq<i64> {
        self.reservations@.map_values(|r: Reservation| r.id)
    }

    /// No bed has two waiting reservations over intersecting slots.
    pub open spec fn no_double_booking(&self) -> bool {
        forall|i: int, j: int|
            0 <= i < self.reservations@.len() && 0 <= j < self.reservations@.len() && i != j
                && #[trigger] self.reservations@[i].status is Waiting
                && #[trigger] self.reservations@[j].status is Waiting
                && self.reservations@[i].salon_bed_id == self.reservations@[j].salon_bed_id
                ==> !overlaps(
                self.reservations@[i].time_from as int,
                self.reservations@[i].time_to as int,
                self.reservations@[j].time_from as int,
                self.reservations@[j].time_to as int,
            )
    }

    /// Every reservation covers a non-empty, forward slot.
    pub open spec fn reservation_times_valid(&self) -> bool {
        forall|i: int|
            0 <= i < self.reservations@.len() ==> (#[trigger] self.reservations@[i]).time_from
                < self.reservations@[i].time_to
    }

    /// No two accounts share a username.
    pub open spec fn usernames_unique(&self) -> bool {
        forall|i: int, j: int|
            0 <= i < j < self.users@.len() ==> #[trigger] self.users@[i].username@
                != #[trigger] self.users@[j].username@
    }

    /// The store's invariant: well-formed ids in every table, row counts
    /// bounded by the id counters, unique usernames, and the reservation
    /// table free of empty slots and double bookings.
    pub open spec fn wf(&self) -> bool {
        &&& ids_well_formed(self.user_ids(), self.next_user_id)
        &&& ids_well_formed(self.salon_ids(), self.next_salon_id)
        &&& ids_well_formed(self.branch_ids(), self.next_branch_id)
        &&& ids_well_formed(self.bed_ids(), self.next_bed_id)
        &&& ids_well_formed(self.therapy_ids(), self.next_therapy_id)
        &&& ids_well_formed(self.reservation_ids(), self.next_reservation_id)
        &&& self.users@.len() < self.next_user_id
        &&& self.salons@.len() < self.next_salon_id
        &&& self.branches@.len() < self.next_branch_id
        &&& self.beds@.len() < self.next_bed_id
        &&& self.therapies@.len() < self.next_therapy_id
        &&& self.reservations@.len() < self.next_reservation_id
        &&& self.usernames_unique()
        &&& self.reservation_times_valid()
        &&& self.no_double_booking()
    }

    /// An empty store.
    pub fn new() -> (db: Database)
        ensures
            db.wf(),
            db.users@ =~= Seq::<User>::empty(),
            db.salons@ =~= Seq::<Salon>::empty(),
            db.branches@ =~= Seq::<SalonBranch>::empty(),
            db.beds@ =~= Seq::<SalonBed>::empty(),
            db.therapies@ =~= Seq::<Therapy>::empty(),
            db.reservations@ =~= Seq::<Reservation>::empty(),
    {
        Database {
            users: Vec::new(),
            salons: Vec::new(),
            branches: Vec::new(),
            beds: Vec::new(),
            therapies: Vec::new(),
            reservations: Vec::new(),
            next_user_id: 1,
            next_salon_id: 1,
            next_branch_id: 1,
            next_bed_id: 1,
            next_therapy_id: 1,
            next_reservation_id: 1,
        }
    }

    /// The bed exists in the catalog.
    pub open spec fn has_bed(&self, bed_id: i64) -> bool {
        exists|i: int| 0 <= i < self.beds@.len() && (#[trigger] self.beds@[i]).id == bed_id
    }

    /// The therapy exists in the catalog.
    pub open spec fn has_therapy(&self, therapy_id: i64) -> bool {
        exists|i: int|
            0 <= i < self.therapies@.len() && (#[trigger] self.therapies@[i]).id == therapy_id
    }

    /// The salon that the branch belongs to, if the branch exists.
    pub open spec fn branch_salon(&self, branch_id: i64) -> Option<i64> {
        if exists|i: int|
            0 <= i < self.branches@.len() && (#[trigger] self.branches@[i]).id == branch_id {
            let i = choose|i: int|
                0 <= i < self.branches@.len() && (#[trigger] self.branches@[i]).id == branch_id;
            Some(self.branches@[i].salon_id)
        } else {
            None
        }
    }

    /// The salon a bed sits in, resolved bed -> branch -> salon.
    pub open spec fn bed_salon(&self, bed_id: i64) -> Option<i64> {
        if exists|i: int| 0 <= i < self.beds@.len() && (#[trigger] self.beds@[i]).id == bed_id {
            let i = choose|i: int|
                0 <= i < self.beds@.len() && (#[trigger] self.beds@[i]).id == bed_id;
            self.branch_salon(self.beds@[i].branch_id)
        } else {
            None
        }
    }

    /// The salon a therapy is offered by, if the therapy exists.
    pub open spec fn therapy_salon(&self, therapy_id: i64) -> Option<i64> {
        if exists|i: int|
            0 <= i < self.therapies@.len() && (#[trigger] self.therapies@[i]).id == therapy_id {
            let i = choose|i: int|
                0 <= i < self.therapies@.len() && (#[trigger] self.therapies@[i]).id
                    == therapy_id;
            Some(self.therapies@[i].salon_id)
        } else {
            None
        }
    }

    /// The therapy row carrying this id, if any.
    pub open spec fn therapy_row(&self, therapy_id: i64) -> Option<Therapy> {
        if exists|i: int|
            0 <= i < self.therapies@.len() && (#[trigger] self.therapies@[i]).id == therapy_id {
            let i = choose|i: int|
                0 <= i < self.therapies@.len() && (#[trigger] self.therapies@[i]).id
                    == therapy_id;
            Some(self.therapies@[i])
        } else {
            None
        }
    }

    /// The bed row carrying this id, if any.
    pub open spec fn bed_row(&self, bed_id: i64) -> Option<SalonBed> {
        if exists|i: int| 0 <= i < self.beds@.len() && (#[trigger] self.beds@[i]).id == bed_id {
            let i = choose|i: int|
                0 <= i < self.beds@.len() && (#[trigger] self.beds@[i]).id == bed_id;
            Some(self.beds@[i])
        } else {
            None
        }
    }

    /// The branch row carrying this id, if any.
    pub open spec fn branch_row(&self, branch_id: i64) -> Option<SalonBranch> {
        if exists|i: int|
            0 <= i < self.branches@.len() && (#[trigger] self.branches@[i]).id == branch_id {
            let i = choose|i: int|
                0 <= i < self.branches@.len() && (#[trigger] self.branches@[i]).id == branch_id;
            Some(self.branches@[i])
        } else {
            None
        }
    }

    /// The salon row carrying this id, if any.
    pub open spec fn salon_row(&self, salon_id: i64) -> Option<Salon> {
        if exists|i: int|
            0 <= i < self.salons@.len() && (#[trigger] self.salons@[i]).id == salon_id {
            let i = choose|i: int|
                0 <= i < self.salons@.len() && (#[trigger] self.salons@[i]).id == salon_id;
            Some(self.salons@[i])
        } else {
            None
        }
    }

    /// Therapy and bed both resolve to the same salon.
    pub open spec fn same_salon(&self, therapy_id: i64, bed_id: i64) -> bool {
        &&& self.therapy_salon(therapy_id) is Some
        &&& self.bed_salon(bed_id) is Some
        &&& self.therapy_salon(therapy_id) == self.bed_salon(bed_id)
    }

    /// No waiting reservation blocks booking `bed` over `[from, to)`.
    pub open spec fn bed_free(&self, bed: i64, from: int, to: int) -> bool {
        forall|i: int|
            0 <= i < self.reservations@.len() ==> !blocks(
                #[trigger] self.reservations@[i],
                bed,
                from,
                to,
            )
    }

    /// An account with this id and this username exists.
    pub open spec fn has_credentials(&self, id: i64, username: Seq<char>) -> bool {
        exists|i: int|
            0 <= i < self.users@.len() && (#[trigger] self.users@[i]).id == id
                && self.users@[i].username@ == username
    }

    /// Some account uses this username.
    pub open spec fn has_username(&self, username: Seq<char>) -> bool {
        exists|i: int|
            0 <= i < self.users@.len() && (#[trigger] self.users@[i]).username@ == username
    }

    /// Position of the bed with this id, if any.
    pub fn find_bed(&self, bed_id: i64) -> (r: Option<usize>)
        ensures
            match r {
                Some(i) => i < self.beds@.len() && self.beds@[i as int].id == bed_id,
                None => !self.has_bed(bed_id),
            },
    {
        let n = self.beds.len();
        for i in 0..n
            invariant
                n == self.beds@.len(),
                forall|j: int| 0 <= j < i ==> (#[trigger] self.beds@[j]).id != bed_id,
        {
            if self.beds[i].id == bed_id {
                return Some(i);
            }
        }
        None
    }

    /// Position of the branch with this id, if any.
    pub fn find_branch(&self, branch_id: i64) -> (r: Option<usize>)
        ensures
            match r {
                Some(i) => i < self.branches@.len() && self.branches@[i as int].id == branch_id,
                None => forall|j: int|
                    0 <= j < self.branches@.len() ==> (#[trigger] self.branches@[j]).id
                        != branch_id,
            },
    {
        let n = self.branches.len();
        for i in 0..n
            invariant
                n == self.branches@.len(),
                forall|j: int| 0 <= j < i ==> (#[trigger] self.branches@[j]).id != branch_id,
        {
            if self.branches[i].id == branch_id {
                return Some(i);
            }
        }
        None
    }

    /// Position of the therapy with this id, if any.
    pub fn find_therapy(&self, therapy_id: i64) -> (r: Option<usize>)
        ensures
            match r {
                Some(i) => i < self.therapies@.len() && self.therapies@[i as int].id
                    == therapy_id,
                None => !self.has_therapy(therapy_id),
            },
    {
        let n = self.therapies.len();
        for i in 0..n
            invariant
                n == self.therapies@.len(),
                forall|j: int| 0 <= j < i ==> (#[trigger] self.therapies@[j]).id != therapy_id,
        {
            if self.therapies[i].id == therapy_id {
                return Some(i);
            }
        }
        None
    }

    /// Position of the salon with this id, if any.
    pub fn find_salon(&self, salon_id: i64) -> (r: Option<usize>)
        ensures
            match r {
                Some(i) => i < self.salons@.len() && self.salons@[i as int].id == salon_id,
                None => forall|j: int|
                    0 <= j < self.salons@.len() ==> (#[trigger] self.salons@[j]).id != salon_id,
            },
    {
        let n = self.salons.len();
        for i in 0..n
            invariant
                n == self.salons@.len(),
                forall|j: int| 0 <= j < i ==> (#[trigger] self.salons@[j]).id != salon_id,
        {
            if self.salons[i].id == salon_id {
                return Some(i);
            }
        }
        None
    }

    /// Position of the account with this id, if any.
    pub fn find_user(&self, user_id: i64) -> (r: Option<usize>)
        ensures
            match r {
                Some(i) => i < self.users@.len() && self.users@[i as int].id == user_id,
                None => forall|j: int|
                    0 <= j < self.users@.len() ==> (#[trigger] self.users@[j]).id != user_id,
            },
    {
        let n = self.users.len();
        for i in 0..n
            invariant
                n == self.users@.len(),
                forall|j: int| 0 <= j < i ==> (#[trigger] self.users@[j]).id != user_id,
        {
            if self.users[i].id == user_id {
                return Some(i);
            }
        }
        None
    }

    /// Position of the reservation with this id, if any.
    pub fn find_reservation(&self, reservation_id: i64) -> (r: Option<usize>)
        ensures
            match r {
                Some(i) => i < self.reservations@.len() && self.reservations@[i as int].id
                    == reservation_id,
                None => forall|j: int|
                    0 <= j < self.reservations@.len() ==> (#[trigger] self.reservations@[j]).id
                        != reservation_id,
            },
    {
        let n = self.reservations.len();
        for i in 0..n
            invariant
                n == self.reservations@.len(),
                forall|j: int|
                    0 <= j < i ==> (#[trigger] self.reservations@[j]).id != reservation_id,
        {
            if self.reservations[i].id == reservation_id {
                return Some(i);
            }
        }
        None
    }
}

impl Database {
    /// Decides [`Database::same_salon`]: resolves the therapy, the bed and
    /// its branch, and compares the two salon ids.
    pub fn check_same_salon(&self, therapy_id: i64, bed_id: i64) -> (r: bool)
        requires
            self.wf(),
        ensures
            r == self.same_salon(therapy_id, bed_id),
    {
        let ti = match self.find_therapy(therapy_id) {
            Some(i) => i,
            None => {
                return false;
            },
        };
        let bi = match self.find_bed(bed_id) {
            Some(i) => i,
            None => {
                return false;
            },
        };
        let bri = match self.find_branch(self.beds[bi].branch_id) {
            Some(i) => i,
            None => {
                proof {
                    self.lemma_bed_salon_at(bi as int);
                }
                return false;
            },
        };
        proof {
            self.lemma_therapy_salon_at(ti as int);
            self.lemma_bed_salon_at(bi as int);
            self.lemma_branch_salon_at(bri as int);
        }
        self.therapies[ti].salon_id == self.branches[bri].salon_id
    }

    /// With well-formed ids, `therapy_salon` reads the salon of the therapy
    /// standing at any position that carries the looked-up id.
    pub proof fn lemma_therapy_salon_at(&self, i: int)
        requires
            self.wf(),
            0 <= i < self.therapies@.len(),
        ensures
            self.therapy_salon(self.therapies@[i].id) == Some(self.therapies@[i].salon_id),
    {
        let id = self.therapies@[i].id;
        assert(exists|j: int|
            0 <= j < self.therapies@.len() && (#[trigger] self.therapies@[j]).id == id);
        let c = choose|j: int|
            0 <= j < self.therapies@.len() && (#[trigger] self.therapies@[j]).id == id;
        assert(self.therapy_ids()[c] == self.therapies@[c].id);
        assert(self.therapy_ids()[i] == self.therapies@[i].id);
        lemma_ids_unique(self.therapy_ids(), self.next_therapy_id, c, i);
    }

    /// As above, for branches.
    pub proof fn lemma_branch_salon_at(&self, i: int)
        requires
            self.wf(),
            0 <= i < self.branches@.len(),
        ensures
            self.branch_salon(self.branches@[i].id) == Some(self.branches@[i].salon_id),
    {
        let id = self.branches@[i].id;
        assert(exists|j: int|
            0 <= j < self.branches@.len() && (#[trigger] self.branches@[j]).id == id);
        let c = choose|j: int|
            0 <= j < self.branches@.len() && (#[trigger] self.branches@[j]).id == id;
        assert(self.branch_ids()[c] == self.branches@[c].id);
        assert(self.branch_ids()[i] == self.branches@[i].id);
        lemma_ids_unique(self.branch_ids(), self.next_branch_id, c, i);
    }

    /// As above, for beds: the bed's salon is its branch's salon.
    pub proof fn lemma_bed_salon_at(&self, i: int)
        requires
            self.wf(),
            0 <= i < self.beds@.len(),
        ensures
            self.bed_salon(self.beds@[i].id) == self.branch_salon(self.beds@[i].branch_id),
    {
        let id = self.beds@[i].id;
        assert(exists|j: int| 0 <= j < self.beds@.len() && (#[trigger] self.beds@[j]).id == id);
        let c = choose|j: int| 0 <= j < self.beds@.len() && (#[trigger] self.beds@[j]).id == id;
        assert(self.bed_ids()[c] == self.beds@[c].id);
        assert(self.bed_ids()[i] == self.beds@[i].id);
        lemma_ids_unique(self.bed_ids(), self.next_bed_id, c, i);
    }

    /// Decides [`Database::bed_free`] by scanning the reservation table.
    pub fn check_bed_free(&self, bed: i64, from: i64, to: i64) -> (r: bool)
        ensures
            r == self.bed_free(bed, from as int, to as int),
    {
        let n = self.reservations.len();
        for i in 0..n
            invariant
                n == self.reservations@.len(),
                forall|j: int|
                    0 <= j < i ==> !blocks(#[trigger] self.reservations@[j], bed, from as int, to as int),
        {
            let res = &self.reservations[i];
            if res.status == ReservationStatus::Waiting && res.salon_bed_id == bed
                && res.time_from < to && from < res.time_to {
                return false;
            }
        }
        true
    }
}

/// A reservation joined with the catalog rows it references, resolved
/// reservation -> therapy and reservation -> bed -> branch -> salon; a
/// dangling reference leaves its snapshot absent.
pub open spec fn reservation_output_of(db: Database, r: Reservation) -> ReservationOutput {
    let bed = db.bed_row(r.salon_bed_id);
    let branch = match bed {
        Some(b) => db.branch_row(b.branch_id),
        None => None,
    };
    let salon = match branch {
        Some(br) => db.salon_row(br.salon_id),
        None => None,
    };
    ReservationOutput {
        id: r.id,
        user_id: r.user_id,
        therapy_id: r.therapy_id,
        salon_bed_id: r.salon_bed_id,
        time_from: r.time_from,
        time_to: r.time_to,
        comment: r.comment,
        status: r.status,
        therapy: db.therapy_row(r.therapy_id),
        salon_bed: bed,
        salon: salon,
        salon_branch: branch,
    }
}

impl Database {
    /// With well-formed ids, `therapy_row` reads exactly the therapy
    /// standing at any position that carries the looked-up id.
    pub proof fn lemma_therapy_row_at(&self, i: int)
        requires
            self.wf(),
            0 <= i < self.therapies@.len(),
        ensures
            self.therapy_row(self.therapies@[i].id) == Some(self.therapies@[i]),
    {
        let id = self.therapies@[i].id;
        let c = choose|j: int|
            0 <= j < self.therapies@.len() && (#[trigger] self.therapies@[j]).id == id;
        assert(self.therapy_ids()[c] == self.therapies@[c].id);
        assert(self.therapy_ids()[i] == self.therapies@[i].id);
        lemma_ids_unique(self.therapy_ids(), self.next_therapy_id, c, i);
    }

    /// As above, for beds.
    pub proof fn lemma_bed_row_at(&self, i: int)
        requires
            self.wf(),
            0 <= i < self.beds@.len(),
        ensures
            self.bed_row(self.beds@[i].id) == Some(self.beds@[i]),
    {
        let id = self.beds@[i].id;
        let c = choose|j: int| 0 <= j < self.beds@.len() && (#[trigger] self.beds@[j]).id == id;
        assert(self.bed_ids()[c] == self.beds@[c].id);
        assert(self.bed_ids()[i] == self.beds@[i].id);
        lemma_ids_unique(self.bed_ids(), self.next_bed_id, c, i);
    }

    /// As above, for branches.
    pub proof fn lemma_branch_row_at(&self, i: int)
        requires
            self.wf(),
            0 <= i < self.branches@.len(),
        ensures
            self.branch_row(self.branches@[i].id) == Some(self.branches@[i]),
    {
        let id = self.branches@[i].id;
        let c = choose|j: int|
            0 <= j < self.branches@.len() && (#[trigger] self.branches@[j]).id == id;
        assert(self.branch_ids()[c] == self.branches@[c].id);
        assert(self.branch_ids()[i] == self.branches@[i].id);
        lemma_ids_unique(self.branch_ids(), self.next_branch_id, c, i);
    }

    /// As above, for salons.
    pub proof fn lemma_salon_row_at(&self, i: int)
        requires
            self.wf(),
            0 <= i < self.salons@.len(),
        ensures
            self.salon_row(self.salons@[i].id) == Some(self.salons@[i]),
    {
        let id = self.salons@[i].id;
        let c = choose|j: int|
            0 <= j < self.salons@.len() && (#[trigger] self.salons@[j]).id == id;
        assert(self.salon_ids()[c] == self.salons@[c].id);
        assert(self.salon_ids()[i] == self.salons@[i].id);
        lemma_ids_unique(self.salon_ids(), self.next_salon_id, c, i);
    }
}

/// Ids that are pairwise distinct pin an index: two positions carrying the
/// same id are the same position.
pub proof fn lemma_ids_unique(ids: Seq<i64>, next: i64, i: int, j: int)
    requires
        ids_well_formed(ids, next),
        0 <= i < ids.len(),
        0 <= j < ids.len(),
        ids[i] == ids[j],
    ensures
        i == j,
{
    if i < j {
        assert(ids[i] != ids[j]);
    } else if j < i {
        assert(ids[j] != ids[i]);
    }
}

} // verus!
