pub use crate::models::AddFriend;
use crate::models::{HubError, Id};
use argon2::password_hash::rand_core::OsRng;
use argon2::password_hash::{PasswordHash, PasswordHasher, PasswordVerifier, SaltString};
use argon2::Argon2;
use vstd::prelude::*;
use vstd::string::StringSliceAdditionalSpecFns;

verus! {

/// A user as the store holds it. `created_at` counts milliseconds since the
/// Unix epoch.
#[derive(Debug, PartialEq, Eq)]
pub struct UserDB {
    pub id: Id,
    pub avatar: Option<String>,
    pub name: String,
    pub username: String,
    pub email: String,
    pub password_hash: Option<String>,
    pub created_at: Option<i64>,
}

fn clone_text(text: &Option<String>) -> (copy: Option<String>)
    ensures
        copy == *text,
{
    match text {
        Some(inner) => Some(inner.clone()),
        None => None,
    }
}

impl Clone for UserDB {
    fn clone(&self) -> (copy: Self)
        ensures
            copy == *self,
    {
        UserDB {
            id: self.id,
            avatar: clone_text(&self.avatar),
            name: self.name.clone(),
            username: self.username.clone(),
            email: self.email.clone(),
            password_hash: clone_text(&self.password_hash),
            created_at: self.created_at,
        }
    }
}

impl UserDB {
    /// Whether `shown` is what others may see of this user: neither its
    /// address nor its password hash nor the day it registered.
    pub open spec fn is_shown_as(self, shown: UserDB) -> bool {
        &&& shown.id == self.id
        &&& shown.avatar == self.avatar
        &&& shown.name == self.name
        &&& shown.username == self.username
        &&& shown.email@ == Seq::<char>::empty()
        &&& shown.password_hash is None
        &&& shown.created_at is None
    }

    /// What others may see of the user.
    pub fn public(&self) -> (shown: UserDB)
        ensures
            self.is_shown_as(shown),
    {
        UserDB {
            id: self.id,
            avatar: clone_text(&self.avatar),
            name: self.name.clone(),
            username: self.username.clone(),
            email: String::new(),
            password_hash: None,
            created_at: None,
        }
    }
}

/// A group as it is listed for one of its members.
#[derive(Debug, PartialEq, Eq)]
pub struct Gruplist {
    pub id: Id,
    pub avatar: Option<String>,
    pub name: String,
    pub description: Option<String>,
}

/// A registration that is ready to be written to the store.
#[derive(Debug, PartialEq, Eq)]
pub struct NewUser {
    pub username: String,
    pub name: String,
    pub email: String,
    pub password_hash: String,
}

/// Whether a stored hash can be read and Argon2 accepts the password for it.
pub uninterp spec fn password_matches(password: Seq<char>, hash: Seq<char>) -> bool;

/// The most bytes that a password may have for Argon2 to hash it.
pub const MAX_PASSWORD_BYTES: usize = 0xFFFF_FFFF;

/// `SaltString::generate` and `Argon2::hash_password`: a hash of the password
/// under a fresh random salt, or nothing where Argon2 refused, which it does
/// only to a password of more than `MAX_PASSWORD_BYTES` bytes. The hash is
/// one that the password verifies against.
#[verifier::external_body]
fn argon2_hash(password: &str) -> (hash: Option<String>)
    ensures
        password.spec_bytes().len() <= MAX_PASSWORD_BYTES ==> hash is Some,
        hash matches Some(text) ==> password_matches(password@, text@),
{
    let salt = SaltString::generate(&mut OsRng);
    match Argon2::default().hash_password(password.as_bytes(), &salt) {
        Ok(hash) => Some(hash.to_string()),
        Err(_) => None,
    }
}

/// `PasswordHash::new` and `Argon2::verify_password`: whether the text is a
/// password hash that the password verifies against.
#[verifier::external_body]
fn argon2_verify(password: &str, hash: &str) -> (accepted: bool)
    ensures
        accepted == password_matches(password@, hash@),
{
    match PasswordHash::new(hash) {
        Ok(parsed) => Argon2::default().verify_password(password.as_bytes(), &parsed).is_ok(),
        Err(_) => false,
    }
}

/// Prepares a registration for the store: the password is replaced by a
/// salted hash that it verifies against. Fails as an internal error where no
/// hash could be made, which can be so only for a password of more than
/// `MAX_PASSWORD_BYTES` bytes.
pub fn register(username: String, name: String, email: String, password: &str) -> (prepared: Result<
    NewUser,
    HubError,
>)
    ensures
        password.spec_bytes().len() <= MAX_PASSWORD_BYTES ==> prepared is Ok,
        prepared matches Ok(user) ==> {
            &&& user.username == username
            &&& user.name == name
            &&& user.email == email
            &&& password_matches(password@, user.password_hash@)
        },
        prepared matches Err(failure) ==> failure == HubError::Internal,
{
    new_user(username, name, email, argon2_hash(password))
}

/// The registration that goes to the store with a hash of its password; an
/// internal error where there is no hash.
pub fn new_user(username: String, name: String, email: String, password_hash: Option<String>) -> (prepared:
    Result<NewUser, HubError>)
    ensures
        prepared == (match password_hash {
            Some(hash) => Ok::<NewUser, HubError>(
                NewUser { username, name, email, password_hash: hash },
            ),
            None => Err::<NewUser, HubError>(HubError::Internal),
        }),
{
    match password_hash {
        Some(password_hash) => Ok(NewUser { username, name, email, password_hash }),
        None => Err(HubError::Internal),
    }
}

/// Whether a login goes through: the store knows the user, holds a hash for
/// it, and the password verifies against that hash.
pub open spec fn login_accepted(user: Option<UserDB>, password: Seq<char>) -> bool {
    &&& user is Some
    &&& user->0.password_hash is Some
    &&& password_matches(password, user->0.password_hash->0@)
}

/// Grants a login to a user that the store knows and holds a hash for, where
/// the password was found to verify against that hash.
pub fn grant_login(user: Option<UserDB>, verified: bool) -> (granted: Option<UserDB>)
    ensures
        granted == (if user is Some && user->0.password_hash is Some && verified {
            user
        } else {
            None
        }),
{
    match user {
        Some(user) => if user.password_hash.is_some() && verified {
            Some(user)
        } else {
            None
        },
        None => None,
    }
}

/// Decides a login, given what the store holds under the username: the user
/// comes back where the password is the right one.
pub fn login(user: Option<UserDB>, password: &str) -> (granted: Option<UserDB>)
    ensures
        granted == (if login_accepted(user, password@) {
            user
        } else {
            None
        }),
{
    let verified = match &user {
        Some(UserDB { password_hash: Some(hash), .. }) => argon2_verify(password, hash.as_str()),
        _ => false,
    };
    grant_login(user, verified)
}

/// A user that is stored as it was registered logs in with the password it
/// registered with.
pub proof fn lemma_registered_password_logs_in(registered: NewUser, stored: UserDB, password: Seq<char>)
    requires
        password_matches(password, registered.password_hash@),
        stored.password_hash == Some(registered.password_hash),
    ensures
        login_accepted(Some(stored), password),
{
}

/// The pair in the order in which a friendship is stored: the lesser id
/// first.
pub open spec fn spec_sort_pair(a: Id, b: Id) -> (Id, Id) {
    if a < b {
        (a, b)
    } else {
        (b, a)
    }
}

#[verifier::when_used_as_spec(spec_sort_pair)]
pub fn sort_pair(a: Id, b: Id) -> (pair: (Id, Id))
    ensures
        pair == spec_sort_pair(a, b),
{
    if a < b {
        (a, b)
    } else {
        (b, a)
    }
}

/// The two tables of friendship: a friendship is a row of `friends`, lesser
/// id first; a request is a row of `requests`, from the one who asks to the
/// one who is asked.
pub struct FriendTables {
    pub friends: Set<(Id, Id)>,
    pub requests: Set<(Id, Id)>,
}

/// A write to the tables of friendship.
#[derive(Clone, Copy, Debug, PartialEq, Eq, Structural)]
pub enum FriendWrite {
    InsertFriends(Id, Id),
    InsertRequest { from: Id, to: Id },
    DeleteRequest { from: Id, to: Id },
}

/// The tables after a write, or `None` where the store refuses it: a row
/// that is already there, or a friendship whose first id is not the lesser.
pub open spec fn apply_write(tables: FriendTables, write: FriendWrite) -> Option<FriendTables> {
    match write {
        FriendWrite::InsertFriends(first, second) => if first < second && !tables.friends.contains(
            (first, second),
        ) {
            Some(FriendTables { friends: tables.friends.insert((first, second)), ..tables })
        } else {
            None
        },
        FriendWrite::InsertRequest { from, to } => if !tables.requests.contains((from, to)) {
            Some(FriendTables { requests: tables.requests.insert((from, to)), ..tables })
        } else {
            None
        },
        FriendWrite::DeleteRequest { from, to } => Some(
            FriendTables { requests: tables.requests.remove((from, to)), ..tables },
        ),
    }
}

/// The tables after a transaction of writes, or `None` where one of them is
/// refused and nothing is written.
pub open spec fn apply_writes(tables: FriendTables, writes: Seq<FriendWrite>) -> Option<FriendTables>
    decreases writes.len(),
{
    if writes.len() == 0 {
        Some(tables)
    } else {
        match apply_write(tables, writes[0]) {
            Some(next) => apply_writes(next, writes.drop_first()),
            None => None,
        }
    }
}

/// What a friend request of `user` to `friend` writes, given whether
/// `friend` has asked `user` before: the friendship in place of that request,
/// or a request of its own.
pub open spec fn spec_add_friend(user_id: Id, friend_id: Id, request_exists: bool) -> (
    AddFriend,
    Seq<FriendWrite>,
) {
    if request_exists {
        (
            AddFriend::Add,
            seq![
                FriendWrite::InsertFriends(
                    spec_sort_pair(user_id, friend_id).0,
                    spec_sort_pair(user_id, friend_id).1,
                ),
                FriendWrite::DeleteRequest { from: friend_id, to: user_id },
            ],
        )
    } else {
        (AddFriend::Request, seq![FriendWrite::InsertRequest { from: user_id, to: friend_id }])
    }
}

/// Decides a friend request. `request_exists` says whether the store holds a
/// request of `friend_id` to `user_id`. The writes are one transaction.
pub fn add_friend(user_id: Id, friend_id: Id, request_exists: bool) -> (plan: (AddFriend, Vec<FriendWrite>))
    ensures
        (plan.0, plan.1@) == spec_add_friend(user_id, friend_id, request_exists),
{
    let mut writes: Vec<FriendWrite> = Vec::new();
    if request_exists {
        let (first, second) = sort_pair(user_id, friend_id);
        writes.push(FriendWrite::InsertFriends(first, second));
        writes.push(FriendWrite::DeleteRequest { from: friend_id, to: user_id });
        assert(writes@ =~= spec_add_friend(user_id, friend_id, request_exists).1);
        (AddFriend::Add, writes)
    } else {
        writes.push(FriendWrite::InsertRequest { from: user_id, to: friend_id });
        assert(writes@ =~= spec_add_friend(user_id, friend_id, request_exists).1);
        (AddFriend::Request, writes)
    }
}

/// The tables and the answer after `user` has asked `friend` for friendship;
/// where the store refuses a write, the tables stay and there is no answer.
pub open spec fn befriend(tables: FriendTables, user_id: Id, friend_id: Id) -> (
    FriendTables,
    Option<AddFriend>,
) {
    let plan = spec_add_friend(user_id, friend_id, tables.requests.contains((friend_id, user_id)));
    match apply_writes(tables, plan.1) {
        Some(next) => (next, Some(plan.0)),
        None => (tables, None),
    }
}

/// Whether the tables hold a friendship of the two users.
pub open spec fn are_friends(tables: FriendTables, a: Id, b: Id) -> bool {
    tables.friends.contains(spec_sort_pair(a, b))
}

/// Whether the tables hold no row about the two users.
pub open spec fn strangers(tables: FriendTables, a: Id, b: Id) -> bool {
    &&& !tables.friends.contains((a, b))
    &&& !tables.friends.contains((b, a))
    &&& !tables.requests.contains((a, b))
    &&& !tables.requests.contains((b, a))
}

/// Between two different users of whom the tables hold nothing: a first
/// request is answered as a request, and leaves that one request and no
/// friendship.
pub proof fn lemma_single_request(tables: FriendTables, a: Id, b: Id)
    requires
        a != b,
        strangers(tables, a, b),
    ensures
        befriend(tables, a, b).1 == Some(AddFriend::Request),
        befriend(tables, a, b).0.requests == tables.requests.insert((a, b)),
        befriend(tables, a, b).0.friends == tables.friends,
        !are_friends(befriend(tables, a, b).0, a, b),
{
    let plan = spec_add_friend(a, b, false);
    let written = apply_write(tables, plan.1[0]);
    assert(plan.1.drop_first() =~= Seq::<FriendWrite>::empty());
    assert(apply_writes(written->0, plan.1.drop_first()) == written);
    assert(apply_writes(tables, plan.1) == written);
}

/// Between two different users of whom the tables hold nothing: a request
/// and the request back are answered as a request and as a friendship, and
/// leave one friendship, lesser id first, and no request of either to the
/// other.
pub proof fn lemma_request_then_request_back(tables: FriendTables, a: Id, b: Id)
    requires
        a != b,
        strangers(tables, a, b),
    ensures
        ({
            let first = befriend(tables, a, b);
            let second = befriend(first.0, b, a);
            &&& first.1 == Some(AddFriend::Request)
            &&& second.1 == Some(AddFriend::Add)
            &&& second.0.friends == tables.friends.insert(spec_sort_pair(a, b))
            &&& spec_sort_pair(a, b).0 < spec_sort_pair(a, b).1
            &&& second.0.requests == tables.requests
            &&& !second.0.requests.contains((a, b))
            &&& !second.0.requests.contains((b, a))
            &&& are_friends(second.0, a, b)
        }),
{
    lemma_single_request(tables, a, b);
    let first = befriend(tables, a, b);
    let plan = spec_add_friend(b, a, true);
    assert(first.0.requests.contains((a, b)));
    let pair = spec_sort_pair(b, a);
    assert(pair == spec_sort_pair(a, b));
    let one = apply_write(first.0, plan.1[0]);
    assert(one is Some);
    let rest = plan.1.drop_first();
    assert(rest[0] == FriendWrite::DeleteRequest { from: a, to: b });
    let two = apply_write(one->0, rest[0]);
    assert(rest.drop_first() =~= Seq::<FriendWrite>::empty());
    assert(apply_writes(two->0, rest.drop_first()) == two);
    assert(apply_writes(one->0, rest) == two);
    assert(apply_writes(first.0, plan.1) == two);
    assert(two->0.requests =~= tables.requests);
}

} // verus!
