//! Accounts: their fields, the checks on them, and how a stored row
//! becomes an account.

use vstd::prelude::*;
use num::FromPrimitive;
use crate::text::{byte_count, byte_len};

verus! {

#[verifier::external_type_specification]
#[verifier::external_body]
pub struct ExBigInt(num::BigInt);

/// Whether a user accepts friend requests.
#[derive(Debug, Clone, Copy, PartialEq, Eq, Structural)]
pub enum AcceptFriendRequest {
    No,
    OnlyFromFriendOfFriends,
    Yes,
    Unknown,
}

/// The setting that a stored number stands for: 0, 1 and 2 name the three
/// settings, any other number is `Unknown`.
pub open spec fn accept_friend_request_of(i: i32) -> AcceptFriendRequest {
    if i == 0 {
        AcceptFriendRequest::No
    } else if i == 1 {
        AcceptFriendRequest::OnlyFromFriendOfFriends
    } else if i == 2 {
        AcceptFriendRequest::Yes
    } else {
        AcceptFriendRequest::Unknown
    }
}

impl AcceptFriendRequest {
    /// The setting that a stored number stands for.
    pub fn from(i: i32) -> (r: AcceptFriendRequest)
        ensures
            r == accept_friend_request_of(i),
    {
        match i {
            0 => AcceptFriendRequest::No,
            1 => AcceptFriendRequest::OnlyFromFriendOfFriends,
            2 => AcceptFriendRequest::Yes,
            _ => AcceptFriendRequest::Unknown,
        }
    }
}

/// An instant in UTC: whole seconds since the Unix epoch and the
/// nanoseconds past them.
#[derive(Debug, Clone, Copy, PartialEq, Eq, Structural)]
pub struct Timestamp {
    pub secs: i64,
    pub nanos: u32,
}

/// The instant that `chrono::NaiveDateTime::parse_from_str(text, format)`
/// reads as UTC, as (seconds, nanoseconds), or `None` when it refuses the
/// text.
pub uninterp spec fn parsed_utc(text: Seq<char>, format: Seq<char>) -> Option<(i64, u32)>;

/// `chrono::NaiveDateTime::parse_from_str`, the result read as UTC and
/// given as seconds and nanoseconds since the epoch; the result is named.
#[verifier::external_body]
fn parse_utc(text: &str, format: &str) -> (r: Option<(i64, u32)>)
    ensures
        r == parsed_utc(text@, format@),
{
    match chrono::NaiveDateTime::parse_from_str(text, format) {
        Ok(d) => Some((d.and_utc().timestamp(), d.and_utc().timestamp_subsec_nanos())),
        Err(_) => None,
    }
}

/// `chrono::Utc::now()` as seconds and nanoseconds since the epoch; it
/// depends on the clock, so nothing is stated of it.
#[verifier::external_body]
fn utc_now() -> (r: (i64, u32)) {
    let now = chrono::Utc::now();
    (now.timestamp(), now.timestamp_subsec_nanos())
}

/// The big integer that `num::BigInt::from_i32(value)` holds.
pub uninterp spec fn bigint_of_i32(value: i32) -> num::BigInt;

/// `num::BigInt::from_i32`: always some big integer (every `i32` converts),
/// the one named by `bigint_of_i32`.
#[verifier::external_body]
fn bigint_from_i32(value: i32) -> (r: Option<num::BigInt>)
    ensures
        r == Some(bigint_of_i32(value)),
{
    num::BigInt::from_i32(value)
}

/// `num::BigInt::default()`; nothing is stated of it.
#[verifier::external_body]
fn bigint_default() -> (r: num::BigInt) {
    num::BigInt::default()
}

/// The big integer that `num::BigInt::new(Sign::Plus, digits)` builds from
/// base-2^32 digits, least significant first.
pub uninterp spec fn bigint_positive(digits: Seq<u32>) -> num::BigInt;

/// `num::BigInt::new` with a positive sign; the result is named.
#[verifier::external_body]
fn bigint_new_positive(digits: Vec<u32>) -> (r: num::BigInt)
    ensures
        r == bigint_positive(digits@),
{
    num::BigInt::new(num::bigint::Sign::Plus, digits)
}


/// The columns of a stored account, in table order: id, email, password,
/// token, creation, name, permissions, accept_friends_request, system,
/// disabled, xp, lvl.
pub type UserFetchQuery = (String, String, String, String, String, String, i32, i32, bool, bool, i32, i32);

/// The abstract content of an account.
pub struct UserView {
    pub id: Seq<char>,
    pub email: Seq<char>,
    pub name: Seq<char>,
    pub password: Seq<char>,
    pub token: Seq<char>,
    pub permissions: num::BigInt,
    pub system: bool,
    pub disabled: bool,
    pub creation: Timestamp,
    pub accept_friend_request: AcceptFriendRequest,
    pub xp: i32,
    pub lvl: i32,
    pub valid: bool,
}

/// An account.
pub struct User {
    pub id: String,
    email: String,
    pub name: String,
    password: String,
    pub token: String,
    pub permissions: num::BigInt,
    pub system: bool,
    pub disabled: bool,
    pub creation: Timestamp,
    pub accept_friend_request: AcceptFriendRequest,
    pub xp: i32,
    pub lvl: i32,
    pub valid: bool,
}

impl View for User {
    type V = UserView;

    closed spec fn view(&self) -> UserView {
        UserView {
            id: self.id@,
            email: self.email@,
            name: self.name@,
            password: self.password@,
            token: self.token@,
            permissions: self.permissions,
            system: self.system,
            disabled: self.disabled,
            creation: self.creation,
            accept_friend_request: self.accept_friend_request,
            xp: self.xp,
            lvl: self.lvl,
            valid: self.valid,
        }
    }
}

/// An account passes the field check when it has a name, a token or an
/// email, a 32-byte password, or a 30-byte id.
pub open spec fn user_fields_valid(u: UserView) -> bool {
    byte_count(u.name) > 0 || byte_count(u.token) > 0 || byte_count(u.password) == 32
        || byte_count(u.email) > 0 || byte_count(u.id) == 30
}

/// The field check looks at the five texts alone: two accounts with the
/// same id, email, name, password and token pass or fail it together,
/// whatever their permissions, flags, creation, friend-request setting, xp
/// or level; an account with a name, a token or an email passes it, as does
/// one with a 32-byte password or a 30-byte id, and an account with none of
/// these fails it.
pub proof fn lemma_field_check_on_texts(u: UserView, v: UserView)
    ensures
        u.id == v.id && u.email == v.email && u.name == v.name && u.password == v.password
            && u.token == v.token ==> user_fields_valid(u) == user_fields_valid(v),
        byte_count(u.name) > 0 ==> user_fields_valid(u),
        byte_count(u.token) > 0 ==> user_fields_valid(u),
        byte_count(u.email) > 0 ==> user_fields_valid(u),
        byte_count(u.password) == 32 ==> user_fields_valid(u),
        byte_count(u.id) == 30 ==> user_fields_valid(u),
        byte_count(u.name) == 0 && byte_count(u.token) == 0 && byte_count(u.email) == 0
            && byte_count(u.password) != 32 && byte_count(u.id) != 30 ==> !user_fields_valid(u),
{
}

/// The layout in which the database writes a creation date.
pub open spec fn creation_format() -> Seq<char> {
    "%Y-%m-%d %H:%M:%S"@
}

/// The creation instant that a stored date gives: the date read as UTC, or
/// the Unix epoch when it cannot be read.
pub open spec fn creation_of(text: Seq<char>) -> Timestamp {
    match parsed_utc(text, creation_format()) {
        Some(t) => Timestamp { secs: t.0, nanos: t.1 },
        None => Timestamp { secs: 0, nanos: 0 },
    }
}

/// The account that a stored row describes.
pub open spec fn user_of_row(raw: UserFetchQuery) -> UserView {
    UserView {
        id: raw.0@,
        email: raw.1@,
        name: raw.5@,
        password: raw.2@,
        token: raw.3@,
        permissions: bigint_of_i32(raw.6),
        system: raw.8,
        disabled: raw.9,
        creation: creation_of(raw.4@),
        accept_friend_request: accept_friend_request_of(raw.7),
        xp: raw.10,
        lvl: raw.11,
        valid: true,
    }
}

impl User {
    /// A blank account created at `now`: empty texts, zero permissions (the
    /// big integer built from no digits), disabled, not yet valid.
    pub fn new_at(now: Timestamp) -> (u: User)
        ensures
            u@.id == Seq::<char>::empty(),
            u@.email == Seq::<char>::empty(),
            u@.name == Seq::<char>::empty(),
            u@.password == Seq::<char>::empty(),
            u@.token == Seq::<char>::empty(),
            u@.permissions == bigint_positive(Seq::empty()),
            !u@.system,
            u@.disabled,
            u@.creation == now,
            u@.accept_friend_request == AcceptFriendRequest::No,
            u@.xp == 0,
            u@.lvl == 0,
            !u@.valid,
    {
        let digits: Vec<u32> = Vec::new();
        assert(digits@ == Seq::<u32>::empty());
        User {
            id: String::new(),
            email: String::new(),
            name: String::new(),
            password: String::new(),
            token: String::new(),
            permissions: bigint_new_positive(digits),
            system: false,
            disabled: true,
            creation: now,
            accept_friend_request: AcceptFriendRequest::No,
            xp: 0,
            lvl: 0,
            valid: false,
        }
    }

    /// A blank account created now (see `new_at`): the creation instant is
    /// the clock's reading, which no clause can fix.
    pub fn new() -> (u: User)
        ensures
            u@.id == Seq::<char>::empty(),
            u@.email == Seq::<char>::empty(),
            u@.name == Seq::<char>::empty(),
            u@.password == Seq::<char>::empty(),
            u@.token == Seq::<char>::empty(),
            u@.permissions == bigint_positive(Seq::empty()),
            !u@.system,
            u@.disabled,
            u@.accept_friend_request == AcceptFriendRequest::No,
            u@.xp == 0,
            u@.lvl == 0,
            !u@.valid,
    {
        let now = utc_now();
        User::new_at(Timestamp { secs: now.0, nanos: now.1 })
    }

    /// The account that a stored row describes.
    pub fn from_row(raw: UserFetchQuery) -> (u: User)
        ensures
            u@ == user_of_row(raw),
    {
        let ghost g = raw;
        let permissions = match bigint_from_i32(raw.6) {
            Some(b) => b,
            None => bigint_default(),
        };
        let creation = match parse_utc(raw.4.as_str(), "%Y-%m-%d %H:%M:%S") {
            Some(t) => Timestamp { secs: t.0, nanos: t.1 },
            None => Timestamp { secs: 0, nanos: 0 },
        };
        User {
            id: raw.0,
            email: raw.1,
            name: raw.5,
            password: raw.2,
            token: raw.3,
            permissions,
            system: raw.8,
            disabled: raw.9,
            creation,
            accept_friend_request: AcceptFriendRequest::from(raw.7),
            xp: raw.10,
            lvl: raw.11,
            valid: true,
        }
    }

    /// The query that fetches the account with this id; an id that is not 30
    /// bytes long is refused.
    pub fn id_query(id: &String) -> (r: Result<String, String>)
        ensures
            byte_count(id@) != 30 ==> (r matches Err(e) && e@
                == "The ID can only be a 30 long string"@),
            byte_count(id@) == 30 ==> (r matches Ok(q) && q@ == "SELECT * FROM `users` WHERE `id`='"@
                + id@ + "' LIMIT 1;"@),
    {
        if byte_len(id) != 30 {
            Err(String::from_str("The ID can only be a 30 long string"))
        } else {
            let mut q = String::from_str("SELECT * FROM `users` WHERE `id`='");
            q.append(id.as_str());
            q.append("' LIMIT 1;");
            Ok(q)
        }
    }

    /// The query that fetches the account with this token; a token that is
    /// not 128 bytes long is refused.
    pub fn token_query(token: &String) -> (r: Result<String, String>)
        ensures
            byte_count(token@) != 128 ==> (r matches Err(e) && e@
                == "The token can only be a 128 long string"@),
            byte_count(token@) == 128 ==> (r matches Ok(q) && q@
                == "SELECT * FROM `users` WHERE `token`='"@ + token@ + "' LIMIT 1;"@),
    {
        if byte_len(token) != 128 {
            Err(String::from_str("The token can only be a 128 long string"))
        } else {
            let mut q = String::from_str("SELECT * FROM `users` WHERE `token`='");
            q.append(token.as_str());
            q.append("' LIMIT 1;");
            Ok(q)
        }
    }

    /// The account that a fetch gave: the row's account when a row came, an
    /// error when none did or the fetch failed.
    pub fn from_fetch(fetched: Result<Option<UserFetchQuery>, ()>) -> (r: Result<User, String>)
        ensures
            fetched matches Ok(Some(raw)) ==> (r matches Ok(u) && u@ == user_of_row(raw)),
            fetched matches Ok(None) ==> (r matches Err(e) && e@ == "No user was found with this ID"@),
            fetched is Err ==> (r matches Err(e) && e@ == "A SQL error has occured"@),
    {
        match fetched {
            Ok(Some(raw)) => Ok(User::from_row(raw)),
            Ok(None) => Err(String::from_str("No user was found with this ID")),
            Err(()) => Err(String::from_str("A SQL error has occured")),
        }
    }

    /// The account with its name replaced.
    pub fn set_name(self, name: String) -> (u: User)
        ensures
            u@ == (UserView { name: name@, ..self@ }),
    {
        let mut u = self;
        u.name = name;
        u
    }

    /// The account with its id replaced.
    pub fn set_id(self, id: String) -> (u: User)
        ensures
            u@ == (UserView { id: id@, ..self@ }),
    {
        let mut u = self;
        u.id = id;
        u
    }

    /// The account with its email replaced.
    pub fn set_email(self, email: String) -> (u: User)
        ensures
            u@ == (UserView { email: email@, ..self@ }),
    {
        let mut u = self;
        u.email = email;
        u
    }

    /// The account with its password replaced.
    pub fn set_password(self, password: String) -> (u: User)
        ensures
            u@ == (UserView { password: password@, ..self@ }),
    {
        let mut u = self;
        u.password = password;
        u
    }

    /// The account with its token replaced.
    pub fn set_token(self, token: String) -> (u: User)
        ensures
            u@ == (UserView { token: token@, ..self@ }),
    {
        let mut u = self;
        u.token = token;
        u
    }

    /// The account with its permissions replaced.
    pub fn set_permissions(self, bigint: num::BigInt) -> (u: User)
        ensures
            u@ == (UserView { permissions: bigint, ..self@ }),
    {
        let mut u = self;
        u.permissions = bigint;
        u
    }

    /// The account with its system replaced.
    pub fn set_system(self, system: bool) -> (u: User)
        ensures
            u@ == (UserView { system, ..self@ }),
    {
        let mut u = self;
        u.system = system;
        u
    }

    /// The account with its disabled replaced.
    pub fn set_disabled(self, disabled: bool) -> (u: User)
        ensures
            u@ == (UserView { disabled, ..self@ }),
    {
        let mut u = self;
        u.disabled = disabled;
        u
    }

    /// The account with its creation replaced.
    pub fn set_creation(self, t: Timestamp) -> (u: User)
        ensures
            u@ == (UserView { creation: t, ..self@ }),
    {
        let mut u = self;
        u.creation = t;
        u
    }

    /// The account with its accept friend request replaced.
    pub fn set_friend_request(self, status: AcceptFriendRequest) -> (u: User)
        ensures
            u@ == (UserView { accept_friend_request: status, ..self@ }),
    {
        let mut u = self;
        u.accept_friend_request = status;
        u
    }

    /// The account with its xp replaced.
    pub fn set_xp(self, xp: i32) -> (u: User)
        ensures
            u@ == (UserView { xp, ..self@ }),
    {
        let mut u = self;
        u.xp = xp;
        u
    }

    /// The account with its lvl replaced.
    pub fn set_lvl(self, lvl: i32) -> (u: User)
        ensures
            u@ == (UserView { lvl, ..self@ }),
    {
        let mut u = self;
        u.lvl = lvl;
        u
    }

    fn check_validity(&self) -> (r: bool)
        ensures
            r == user_fields_valid(self@),
    {
        byte_len(&self.name) > 0 || byte_len(&self.token) > 0 || byte_len(&self.password) == 32
            || byte_len(&self.email) > 0 || byte_len(&self.id) == 30
    }

    /// The account itself when it passes the field check, else an error.
    pub fn valid_user(self) -> (r: Result<User, String>)
        ensures
            user_fields_valid(self@) ==> (r matches Ok(u) && u@ == self@),
            !user_fields_valid(self@) ==> (r matches Err(e) && e@ == "Invalid fields in User"@),
            byte_count(self@.name) > 0 || byte_count(self@.token) > 0 || byte_count(self@.email)
                > 0 || byte_count(self@.password) == 32 || byte_count(self@.id) == 30 ==> (r matches Ok(
                u,
            ) && u@ == self@),
            byte_count(self@.name) == 0 && byte_count(self@.token) == 0 && byte_count(self@.email)
                == 0 && byte_count(self@.password) != 32 && byte_count(self@.id) != 30 ==> r is Err,
    {
        if self.check_validity() {
            Ok(self)
        } else {
            Err(String::from_str("Invalid fields in User"))
        }
    }

    /// A copy of the account's token.
    pub fn get_token(&self) -> (r: String)
        ensures
            r@ == self@.token,
    {
        self.token.clone()
    }
}

} // verus!
