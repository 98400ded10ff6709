//! The vault's persistent state, held as plain rows, and the mathematical
//! model that every contract of the library speaks of.
//!
//! An application loads the rows from its storage engine, runs an operation of
//! the library on them, and writes back what changed. The operations are
//! total: none asks more of a `Store` than its type gives.

use vstd::prelude::*;

verus! {

/// The vault key, sealed under a key derived from the one-time secret.
pub struct RecoveryEnvelope {
    pub encrypted_key: Vec<u8>,
    pub nonce: Vec<u8>,
    pub salt: String,
}

/// An account: its salt, the verification hash of its master password, and
/// what one-time-code login needs.
pub struct User {
    pub id: i64,
    pub username: String,
    pub salt: String,
    pub hash: String,
    pub otp_secret: Option<String>,
    pub recovery: Option<RecoveryEnvelope>,
}

/// An alternate password of a user, with a salt and a verification hash of
/// its own.
pub struct DuressCredential {
    pub id: i64,
    pub user_id: i64,
    pub salt: String,
    pub hash: String,
}

/// A stored entry: service and login in the clear, password and note sealed
/// separately, each under its own nonce.
pub struct VaultEntry {
    pub id: i64,
    pub user_id: i64,
    pub service: String,
    pub login: String,
    pub enc_password: Vec<u8>,
    pub password_nonce: Vec<u8>,
    pub enc_note: Vec<u8>,
    pub note_nonce: Vec<u8>,
}

/// What a duress session may see, per user.
#[derive(Clone, Copy, Debug, PartialEq, Eq, Structural)]
pub struct DuressFlags {
    pub enabled: bool,
    pub hide_activity_logs: bool,
    pub hide_failed_login_photos: bool,
    pub hide_security_settings: bool,
    pub show_fake_entries: bool,
    pub hide_pseudo_mode_card: bool,
}

/// The duress flags of one user.
#[derive(Clone, Copy, Debug, PartialEq, Eq, Structural)]
pub struct DuressSettingsRow {
    pub user_id: i64,
    pub flags: DuressFlags,
}

/// One event of the activity log.
#[derive(Debug)]
pub struct ActivityLog {
    pub id: i64,
    pub user_id: i64,
    pub action_type: String,
    pub details: String,
    pub timestamp: String,
}

/// A photo taken at a failed login, sealed under the user's photo key.
pub struct StoredPhoto {
    pub id: i64,
    pub user_id: i64,
    pub encrypted_photo: Vec<u8>,
    pub photo_nonce: Vec<u8>,
    pub timestamp: String,
    pub username_attempt: String,
}

/// A request to drop a user's activity log at the next login.
pub struct PendingDeletion {
    pub user_id: i64,
    pub scheduled_at: String,
}

/// Whether failed logins of a user are photographed.
#[derive(Clone, Copy, Debug, PartialEq, Eq, Structural)]
pub struct SecuritySetting {
    pub user_id: i64,
    pub photo_on_failed_login: bool,
}

/// All rows of the vault. Each table keeps its rows in the order in which
/// they were inserted.
pub struct Store {
    pub users: Vec<User>,
    pub entries: Vec<VaultEntry>,
    pub duress: Vec<DuressCredential>,
    pub settings: Vec<DuressSettingsRow>,
    pub logs: Vec<ActivityLog>,
    pub photos: Vec<StoredPhoto>,
    pub pending: Vec<PendingDeletion>,
    pub security: Vec<SecuritySetting>,
}

/// Model of a [`RecoveryEnvelope`].
pub struct EnvelopeModel {
    pub encrypted_key: Seq<u8>,
    pub nonce: Seq<u8>,
    pub salt: Seq<char>,
}

/// Model of a [`User`].
pub struct UserModel {
    pub id: int,
    pub username: Seq<char>,
    pub salt: Seq<char>,
    pub hash: Seq<char>,
    pub otp_secret: Option<Seq<char>>,
    pub recovery: Option<EnvelopeModel>,
}

/// Model of a [`DuressCredential`].
pub struct DuressModel {
    pub id: int,
    pub user_id: int,
    pub salt: Seq<char>,
    pub hash: Seq<char>,
}

/// Model of a [`VaultEntry`].
pub struct EntryModel {
    pub id: int,
    pub user_id: int,
    pub service: Seq<char>,
    pub login: Seq<char>,
    pub enc_password: Seq<u8>,
    pub password_nonce: Seq<u8>,
    pub enc_note: Seq<u8>,
    pub note_nonce: Seq<u8>,
}

/// Model of an [`ActivityLog`].
pub struct LogModel {
    pub id: int,
    pub user_id: int,
    pub action_type: Seq<char>,
    pub details: Seq<char>,
    pub timestamp: Seq<char>,
}

/// Model of a [`StoredPhoto`].
pub struct PhotoModel {
    pub id: int,
    pub user_id: int,
    pub encrypted_photo: Seq<u8>,
    pub photo_nonce: Seq<u8>,
    pub timestamp: Seq<char>,
    pub username_attempt: Seq<char>,
}

/// Model of a [`PendingDeletion`].
pub struct PendingModel {
    pub user_id: int,
    pub scheduled_at: Seq<char>,
}

/// Model of a [`Store`]: one sequence of row models per table.
pub struct StoreModel {
    pub users: Seq<UserModel>,
    pub entries: Seq<EntryModel>,
    pub duress: Seq<DuressModel>,
    pub settings: Seq<DuressSettingsRow>,
    pub logs: Seq<LogModel>,
    pub photos: Seq<PhotoModel>,
    pub pending: Seq<PendingModel>,
    pub security: Seq<SecuritySetting>,
}

impl View for RecoveryEnvelope {
    type V = EnvelopeModel;

    open spec fn view(&self) -> EnvelopeModel {
        EnvelopeModel { encrypted_key: self.encrypted_key@, nonce: self.nonce@, salt: self.salt@ }
    }
}

impl View for User {
    type V = UserModel;

    open spec fn view(&self) -> UserModel {
        UserModel {
            id: self.id as int,
            username: self.username@,
            salt: self.salt@,
            hash: self.hash@,
            otp_secret: match self.otp_secret {
                Some(s) => Some(s@),
                None => None,
            },
            recovery: match self.recovery {
                Some(e) => Some(e@),
                None => None,
            },
        }
    }
}

impl View for DuressCredential {
    type V = DuressModel;

    open spec fn view(&self) -> DuressModel {
        DuressModel { id: self.id as int, user_id: self.user_id as int, salt: self.salt@, hash: self.hash@ }
    }
}

impl View for VaultEntry {
    type V = EntryModel;

    open spec fn view(&self) -> EntryModel {
        EntryModel {
            id: self.id as int,
            user_id: self.user_id as int,
            service: self.service@,
            login: self.login@,
            enc_password: self.enc_password@,
            password_nonce: self.password_nonce@,
            enc_note: self.enc_note@,
            note_nonce: self.note_nonce@,
        }
    }
}

impl View for ActivityLog {
    type V = LogModel;

    open spec fn view(&self) -> LogModel {
        LogModel {
            id: self.id as int,
            user_id: self.user_id as int,
            action_type: self.action_type@,
            details: self.details@,
            timestamp: self.timestamp@,
        }
    }
}

impl View for StoredPhoto {
    type V = PhotoModel;

    open spec fn view(&self) -> PhotoModel {
        PhotoModel {
            id: self.id as int,
            user_id: self.user_id as int,
            encrypted_photo: self.encrypted_photo@,
            photo_nonce: self.photo_nonce@,
            timestamp: self.timestamp@,
            username_attempt: self.username_attempt@,
        }
    }
}

impl View for DuressSettingsRow {
    type V = DuressSettingsRow;

    open spec fn view(&self) -> DuressSettingsRow {
        *self
    }
}

impl View for SecuritySetting {
    type V = SecuritySetting;

    open spec fn view(&self) -> SecuritySetting {
        *self
    }
}

impl View for PendingDeletion {
    type V = PendingModel;

    open spec fn view(&self) -> PendingModel {
        PendingModel { user_id: self.user_id as int, scheduled_at: self.scheduled_at@ }
    }
}

/// The models of a table's rows, in the table's order.
pub open spec fn models<T: View>(rows: Seq<T>) -> Seq<T::V> {
    Seq::new(rows.len(), |i: int| rows[i]@)
}

impl View for Store {
    type V = StoreModel;

    open spec fn view(&self) -> StoreModel {
        StoreModel {
            users: models(self.users@),
            entries: models(self.entries@),
            duress: models(self.duress@),
            settings: models(self.settings@),
            logs: models(self.logs@),
            photos: models(self.photos@),
            pending: models(self.pending@),
            security: models(self.security@),
        }
    }
}

/// Appending a row appends its model.
pub proof fn lemma_models_push<T: View>(rows: Seq<T>, row: T)
    ensures
        models(rows.push(row)) == models(rows).push(row@),
{
    assert(models(rows.push(row)) =~= models(rows).push(row@));
}

impl Store {
    /// A store without rows.
    pub fn new() -> (store: Store)
        ensures
            store@ == StoreModel::empty(),
    {
        let store = Store {
            users: Vec::new(),
            entries: Vec::new(),
            duress: Vec::new(),
            settings: Vec::new(),
            logs: Vec::new(),
            photos: Vec::new(),
            pending: Vec::new(),
            security: Vec::new(),
        };
        assert(store@.users =~= Seq::empty());
        assert(store@.entries =~= Seq::empty());
        assert(store@.duress =~= Seq::empty());
        assert(store@.logs =~= Seq::empty());
        assert(store@.photos =~= Seq::empty());
        assert(store@.pending =~= Seq::empty());
        assert(store@.settings =~= Seq::empty());
        assert(store@.security =~= Seq::empty());
        store
    }
}

impl StoreModel {
    /// The model of a store without rows.
    pub open spec fn empty() -> StoreModel {
        StoreModel {
            users: Seq::empty(),
            entries: Seq::empty(),
            duress: Seq::empty(),
            settings: Seq::empty(),
            logs: Seq::empty(),
            photos: Seq::empty(),
            pending: Seq::empty(),
            security: Seq::empty(),
        }
    }
}

/// A row that its table finds by a numeric id.
pub trait Row: View + Sized {
    /// The id held by a row's model.
    spec fn id_of(model: Self::V) -> int;

    /// The row's id.
    fn id(&self) -> (id: i64)
        ensures
            id == Self::id_of(self@),
    ;
}

impl Row for User {
    open spec fn id_of(model: UserModel) -> int {
        model.id
    }

    fn id(&self) -> (id: i64) {
        self.id
    }
}

impl Row for DuressCredential {
    open spec fn id_of(model: DuressModel) -> int {
        model.id
    }

    fn id(&self) -> (id: i64) {
        self.id
    }
}

impl Row for VaultEntry {
    open spec fn id_of(model: EntryModel) -> int {
        model.id
    }

    fn id(&self) -> (id: i64) {
        self.id
    }
}

impl Row for ActivityLog {
    open spec fn id_of(model: LogModel) -> int {
        model.id
    }

    fn id(&self) -> (id: i64) {
        self.id
    }
}

impl Row for StoredPhoto {
    open spec fn id_of(model: PhotoModel) -> int {
        model.id
    }

    fn id(&self) -> (id: i64) {
        self.id
    }
}

/// A row that belongs to a user. A user's own row belongs to that user.
pub trait Owned: View + Sized {
    /// The owner held by a row's model.
    spec fn owner_of(model: Self::V) -> int;

    /// The id of the user the row belongs to.
    fn owner(&self) -> (user_id: i64)
        ensures
            user_id == Self::owner_of(self@),
    ;
}

impl Owned for User {
    open spec fn owner_of(model: UserModel) -> int {
        model.id
    }

    fn owner(&self) -> (user_id: i64) {
        self.id
    }
}

impl Owned for DuressCredential {
    open spec fn owner_of(model: DuressModel) -> int {
        model.user_id
    }

    fn owner(&self) -> (user_id: i64) {
        self.user_id
    }
}

impl Owned for VaultEntry {
    open spec fn owner_of(model: EntryModel) -> int {
        model.user_id
    }

    fn owner(&self) -> (user_id: i64) {
        self.user_id
    }
}

impl Owned for DuressSettingsRow {
    open spec fn owner_of(model: DuressSettingsRow) -> int {
        model.user_id as int
    }

    fn owner(&self) -> (user_id: i64) {
        self.user_id
    }
}

impl Owned for ActivityLog {
    open spec fn owner_of(model: LogModel) -> int {
        model.user_id
    }

    fn owner(&self) -> (user_id: i64) {
        self.user_id
    }
}

impl Owned for StoredPhoto {
    open spec fn owner_of(model: PhotoModel) -> int {
        model.user_id
    }

    fn owner(&self) -> (user_id: i64) {
        self.user_id
    }
}

impl Owned for PendingDeletion {
    open spec fn owner_of(model: PendingModel) -> int {
        model.user_id
    }

    fn owner(&self) -> (user_id: i64) {
        self.user_id
    }
}

impl Owned for SecuritySetting {
    open spec fn owner_of(model: SecuritySetting) -> int {
        model.user_id as int
    }

    fn owner(&self) -> (user_id: i64) {
        self.user_id
    }
}

/// The ids of a table's rows, in the table's order.
pub open spec fn ids<T: Row>(rows: Seq<T::V>) -> Seq<int> {
    Seq::new(rows.len(), |i: int| T::id_of(rows[i]))
}

/// The id that a table gives its next row: one more than the greatest id in
/// use, and 1 for an empty table.
pub open spec fn fresh_id(ids: Seq<int>) -> int
    decreases ids.len(),
{
    if ids.len() == 0 {
        1
    } else {
        let rest = fresh_id(ids.drop_last());
        if ids.last() >= rest {
            ids.last() + 1
        } else {
            rest
        }
    }
}

/// A fresh id is positive and above every id in use.
pub proof fn lemma_fresh_id_above(ids: Seq<int>)
    ensures
        fresh_id(ids) >= 1,
        forall|i: int| 0 <= i < ids.len() ==> #[trigger] ids[i] < fresh_id(ids),
    decreases ids.len(),
{
    if ids.len() > 0 {
        lemma_fresh_id_above(ids.drop_last());
        assert forall|i: int| 0 <= i < ids.len() implies #[trigger] ids[i] < fresh_id(ids) by {
            if i < ids.len() - 1 {
                assert(ids.drop_last()[i] == ids[i]);
            }
        }
    }
}

/// The id for the next row of a table, `None` when the id space is used up.
pub fn next_id<T: Row>(rows: &Vec<T>) -> (id: Option<i64>)
    ensures
        match id {
            Some(n) => n == fresh_id(ids::<T>(models(rows@))),
            None => fresh_id(ids::<T>(models(rows@))) > i64::MAX,
        },
{
    let ghost all = ids::<T>(models(rows@));
    let mut next: i64 = 1;
    let mut full: bool = false;
    let mut i: usize = 0;
    assert(all.take(0) =~= Seq::<int>::empty());
    while i < rows.len()
        invariant
            i <= rows.len(),
            all == ids::<T>(models(rows@)),
            all.len() == rows.len(),
            full ==> fresh_id(all.take(i as int)) > i64::MAX,
            !full ==> next == fresh_id(all.take(i as int)),
        decreases rows.len() - i,
    {
        let id = rows[i].id();
        proof {
            assert(all.take(i + 1).drop_last() =~= all.take(i as int));
            assert(all.take(i + 1).last() == id);
        }
        if !full && id >= next {
            if id == i64::MAX {
                full = true;
            } else {
                next = id + 1;
            }
        }
        i = i + 1;
    }
    assert(all.take(i as int) =~= all);
    if full {
        None
    } else {
        Some(next)
    }
}

} // verus!
