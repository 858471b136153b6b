use vstd::prelude::*;
use vstd::string::*;
use crate::db::MongoDB;
use crate::models::{Claims, LoginRequest, RegisterRequest, User, UserResponse};
use crate::oid::{hex_text, ObjectId, OBJECT_ID_DIGITS};
use crate::search::{first_hit, is_first, lemma_first_hit_absent, lemma_first_hit_found};

verus! {

/// Why a registration or a log-in fails.
#[derive(Clone, Copy, Debug, PartialEq, Eq, Structural)]
pub enum AuthError {
    /// A user with the e-mail address is registered already.
    UserExists,
    /// No user has the e-mail address, or the password is not theirs.
    InvalidCredentials,
    /// The user's record has no identifier.
    MissingUserId,
    /// The password could not be hashed, or the stored hash not read.
    HashFailure,
    /// The identity provider gave no e-mail address.
    EmailMissing,
}

impl AuthError {
    /// The stable, human-readable name of the error kind.
    pub fn message(&self) -> (text: &'static str)
        ensures
            text@ == auth_error_text(*self),
    {
        match self {
            AuthError::UserExists => "User already exists",
            AuthError::InvalidCredentials => "Invalid credentials",
            AuthError::MissingUserId => "User ID not found",
            AuthError::HashFailure => "Password hashing failed",
            AuthError::EmailMissing => "Email not found in Google token",
        }
    }
}

/// The text that `AuthError::message` gives for each kind.
pub open spec fn auth_error_text(e: AuthError) -> Seq<char> {
    match e {
        AuthError::UserExists => "User already exists"@,
        AuthError::InvalidCredentials => "Invalid credentials"@,
        AuthError::MissingUserId => "User ID not found"@,
        AuthError::HashFailure => "Password hashing failed"@,
        AuthError::EmailMissing => "Email not found in Google token"@,
    }
}

/// What a successful registration or log-in yields: the claims to sign
/// into an access token, and the user to show.
pub struct Session {
    pub claims: Claims,
    pub user: UserResponse,
}

/// The work factor with which passwords are hashed.
pub const HASH_COST: u32 = 12;

/// How many hours the token of a registration or of a log-in through the
/// identity provider is valid.
pub const SHORT_SESSION_HOURS: usize = 24;

/// How many hours the token of a log-in by password is valid.
pub const LONG_SESSION_HOURS: usize = 168;

/// What a user record is, as plain values.
pub struct UserView {
    pub id: Option<ObjectId>,
    pub username: Seq<char>,
    pub email: Seq<char>,
    pub password: Seq<char>,
    pub role: Seq<char>,
}

impl View for User {
    type V = UserView;

    open spec fn view(&self) -> UserView {
        UserView {
            id: self.id,
            username: self.username@,
            email: self.email@,
            password: self.password@,
            role: self.role@,
        }
    }
}

/// The error of the hashing library; nothing of it is looked at.
#[verifier::external_type_specification]
#[verifier::external_body]
pub struct ExBcryptError(bcrypt::BcryptError);

/// What `bcrypt::verify` answers for a password and a stored hash:
/// whether the password is the hash's, or nothing where the hash cannot
/// be read.
pub uninterp spec fn bcrypt_verdict(password: Seq<char>, hash: Seq<char>) -> Option<bool>;

/// Calls `bcrypt::verify`, which recomputes the hash of the password
/// with the cost and salt that the stored hash names and compares. The
/// answer depends on the two texts alone; an error means that the stored
/// hash is malformed.
#[verifier::external_body]
fn bcrypt_verify(password: &str, hash: &str) -> (verdict: Result<bool, bcrypt::BcryptError>)
    ensures
        match verdict {
            Ok(same) => bcrypt_verdict(password@, hash@) == Some(same),
            Err(_) => bcrypt_verdict(password@, hash@) is None,
        },
{
    bcrypt::verify(password, hash)
}

/// Calls `bcrypt::hash`, which hashes the password under a salt drawn at
/// random and writes the cost, the salt and the hash into one text. Which
/// text comes back is open, and so is whether one does; what is claimed
/// is that `bcrypt::verify` accepts the password for it, since it reads
/// the cost and the salt back from the text and hashes again.
#[verifier::external_body]
fn bcrypt_hash(password: &str, cost: u32) -> (hashed: Result<String, bcrypt::BcryptError>)
    requires
        4 <= cost <= 31,
    ensures
        hashed is Ok ==> bcrypt_verdict(password@, hashed->Ok_0@) == Some(true),
{
    bcrypt::hash(password, cost)
}

/// For each user, whether they have the given e-mail address.
pub open spec fn email_hits(users: Seq<User>, email: Seq<char>) -> Seq<bool> {
    Seq::new(users.len(), |i: int| users[i].email@ == email)
}

/// The first user with the given e-mail address, if there is one.
pub open spec fn user_by_email(users: Seq<User>, email: Seq<char>) -> Option<User> {
    match first_hit(email_hits(users, email)) {
        Some(i) => Some(users[i]),
        None => None,
    }
}

/// The time at which a token issued at `now` (in seconds) for so many
/// hours expires; the largest time there is, where the sum is beyond it.
pub open spec fn expiry(now: usize, hours: usize) -> usize {
    if now + hours * 3600 > usize::MAX {
        usize::MAX
    } else {
        (now + hours * 3600) as usize
    }
}

/// Whether the session is that of the given user, expiring at `exp`.
pub open spec fn is_session_for(
    session: Session,
    id: ObjectId,
    username: Seq<char>,
    email: Seq<char>,
    role: Seq<char>,
    exp: usize,
) -> bool {
    &&& session.claims.sub@ == hex_text(id.value as nat, OBJECT_ID_DIGITS as nat)
    &&& session.claims.role@ == role
    &&& session.claims.exp == exp
    &&& session.user.id@ == hex_text(id.value as nat, OBJECT_ID_DIGITS as nat)
    &&& session.user.username@ == username
    &&& session.user.email@ == email
    &&& session.user.role@ == role
}

/// How a log-in by password ends, given the user found for the e-mail
/// address and what the check of the password said: an error, or the
/// identifier of the user who is then logged in.
pub open spec fn login_verdict(user: Option<User>, verdict: Option<bool>) -> Result<ObjectId, AuthError> {
    match user {
        None => Err(AuthError::InvalidCredentials),
        Some(u) => match verdict {
            None => Err(AuthError::HashFailure),
            Some(false) => Err(AuthError::InvalidCredentials),
            Some(true) => match u.id {
                None => Err(AuthError::MissingUserId),
                Some(id) => Ok(id),
            },
        },
    }
}

/// The time at which a token issued at `now` for so many hours expires.
fn expiry_at(now: usize, hours: usize) -> (exp: usize)
    requires
        hours <= LONG_SESSION_HOURS,
    ensures
        exp == expiry(now, hours),
{
    let span: usize = hours * 3600;
    if now > usize::MAX - span {
        usize::MAX
    } else {
        now + span
    }
}

/// The session of the given user, expiring at `exp`.
pub fn session_for(id: ObjectId, username: &String, email: &String, role: &String, exp: usize) -> (session:
    Session)
    ensures
        is_session_for(session, id, username@, email@, role@, exp),
{
    Session {
        claims: Claims { sub: id.to_hex(), role: role.clone(), exp },
        user: UserResponse {
            id: id.to_hex(),
            username: username.clone(),
            email: email.clone(),
            role: role.clone(),
        },
    }
}

/// The position of the first user with the given e-mail address.
pub fn find_user_by_email(users: &Vec<User>, email: &String) -> (found: Option<usize>)
    ensures
        match found {
            Some(i) => first_hit(email_hits(users@, email@)) == Some(i as int),
            None => first_hit(email_hits(users@, email@)) is None,
        },
{
    let ghost hits = email_hits(users@, email@);
    let mut i: usize = 0;
    while i < users.len()
        invariant
            i <= users@.len(),
            hits == email_hits(users@, email@),
            forall|j: int| 0 <= j < i ==> !#[trigger] hits[j],
        decreases users@.len() - i,
    {
        if users[i].email == *email {
            proof {
                assert(is_first(hits, i as int));
                lemma_first_hit_found(hits, i as int);
            }
            return Some(i);
        }
        assert(!hits[i as int]);
        i = i + 1;
    }
    proof {
        lemma_first_hit_absent(hits);
    }
    None
}

/// Ends a log-in by password: given the user found for the e-mail
/// address and what the check of the password said, the session of that
/// user for a week, or the reason why there is none.
pub fn finish_login(user: Option<&User>, verdict: Option<bool>, now: usize) -> (session: Result<
    Session,
    AuthError,
>)
    ensures
        match login_verdict(
            match user {
                Some(u) => Some(*u),
                None => None,
            },
            verdict,
        ) {
            Err(e) => session == Err::<Session, AuthError>(e),
            Ok(id) => session is Ok && is_session_for(
                session->Ok_0,
                id,
                user->Some_0.username@,
                user->Some_0.email@,
                user->Some_0.role@,
                expiry(now, LONG_SESSION_HOURS),
            ),
        },
{
    let user = match user {
        None => {
            return Err(AuthError::InvalidCredentials);
        },
        Some(u) => u,
    };
    match verdict {
        None => Err(AuthError::HashFailure),
        Some(false) => Err(AuthError::InvalidCredentials),
        Some(true) => match user.id {
            None => Err(AuthError::MissingUserId),
            Some(id) => Ok(
                session_for(
                    id,
                    &user.username,
                    &user.email,
                    &user.role,
                    expiry_at(now, LONG_SESSION_HOURS),
                ),
            ),
        },
    }
}

/// The name and e-mail address that the identity provider gave: the
/// name "Google User" where it gave none, and `EmailMissing` where it
/// gave no e-mail address or an empty one.
pub fn google_profile(email: Option<&str>, name: Option<&str>) -> (profile: Result<(String, String), AuthError>)
    ensures
        match email {
            Some(e) if e@.len() > 0 => profile is Ok && profile->Ok_0.0@ == e@ && profile->Ok_0.1@ == (match name {
                Some(n) => n@,
                None => "Google User"@,
            }),
            _ => profile == Err::<(String, String), AuthError>(AuthError::EmailMissing),
        },
{
    let email = match email {
        None => {
            return Err(AuthError::EmailMissing);
        },
        Some(e) => e,
    };
    if email.unicode_len() == 0 {
        return Err(AuthError::EmailMissing);
    }
    let name = match name {
        Some(n) => n.to_owned(),
        None => "Google User".to_owned(),
    };
    Ok((email.to_owned(), name))
}

/// The token of an `Authorization` header of the form `Bearer <token>`.
pub open spec fn bearer_token_of(header: Seq<char>) -> Option<Seq<char>> {
    if header.len() >= 7 && header.take(7) == "Bearer "@ {
        Some(header.skip(7))
    } else {
        None
    }
}

/// The token that an `Authorization` header carries, if the header
/// begins with `Bearer ` and a blank.
pub fn bearer_token(header: &str) -> (token: Option<&str>)
    ensures
        match token {
            Some(t) => bearer_token_of(header@) == Some(t@),
            None => bearer_token_of(header@) is None,
        },
{
    let prefix = "Bearer ";
    proof {
        reveal_strlit("Bearer ");
    }
    let n = header.unicode_len();
    if n < 7 {
        return None;
    }
    let mut i: usize = 0;
    while i < 7
        invariant
            i <= 7,
            n == header@.len(),
            n >= 7,
            prefix@.len() == 7,
            prefix@ == "Bearer "@,
            forall|j: int| 0 <= j < i ==> header@[j] == prefix@[j],
        decreases 7 - i,
    {
        if header.get_char(i) != prefix.get_char(i) {
            assert(header@.take(7)[i as int] != prefix@[i as int]);
            return None;
        }
        i = i + 1;
    }
    assert(header@.take(7) =~= prefix@);
    let token = header.substring_char(7, n);
    assert(header@.subrange(7, n as int) =~= header@.skip(7));
    Some(token)
}

impl MongoDB {
    /// Whether `self` is `before` with one more user, who has the given
    /// name and address and the role "user", under the position they got
    /// as their identifier.
    pub open spec fn has_new_user(self, before: MongoDB, username: Seq<char>, email: Seq<char>) -> bool {
        &&& self.db_name == before.db_name
        &&& self.buses == before.buses
        &&& self.seat_availability == before.seat_availability
        &&& self.bookings == before.bookings
        &&& self.max_bookings == before.max_bookings
        &&& self.users@.len() == before.users@.len() + 1
        &&& self.users@.take(before.users@.len() as int) == before.users@
        &&& self.users@.last().id == Some(ObjectId { value: before.users@.len() as u128 })
        &&& self.users@.last().username@ == username
        &&& self.users@.last().email@ == email
        &&& self.users@.last().role@ == "user"@
    }

    /// Adds the user with the given password hash and opens a session of
    /// a day for them.
    fn add_user(&mut self, username: &String, email: &String, hashed: String, now: usize) -> (session: Session)
        ensures
            final(self).has_new_user(*old(self), username@, email@),
            final(self).users@.last().password@ == hashed@,
            old(self).consistent() ==> final(self).consistent(),
            is_session_for(
                session,
                ObjectId { value: old(self).users@.len() as u128 },
                username@,
                email@,
                "user"@,
                expiry(now, SHORT_SESSION_HOURS),
            ),
    {
        let id = ObjectId { value: self.users.len() as u128 };
        let role = "user".to_owned();
        let session = session_for(id, username, email, &role, expiry_at(now, SHORT_SESSION_HOURS));
        self.users.push(
            User {
                id: Some(id),
                username: username.clone(),
                email: email.clone(),
                password: hashed,
                role,
            },
        );
        assert(self.users@.take(old(self).users@.len() as int) =~= old(self).users@);
        proof {
            if old(self).consistent() {
                assert forall|b: ObjectId, d: Seq<char>| #[trigger] self.seats_of(b, d) == old(self).seats_of(b, d) by {}
                crate::laws::lemma_same_view_consistent(*old(self), *self);
            }
        }
        session
    }

    /// Registers the user under the given password hash, at `now`
    /// (seconds since the epoch): `UserExists`, and nothing changed,
    /// where the e-mail address is taken; else the user is added and a
    /// session of a day opened.
    pub fn register_user(&mut self, user: &RegisterRequest, hashed: String, now: usize) -> (session: Result<
        Session,
        AuthError,
    >)
        ensures
            old(self).consistent() ==> final(self).consistent(),
            match user_by_email(old(self).users@, user.email@) {
                Some(_) => session == Err::<Session, AuthError>(AuthError::UserExists) && *final(self)
                    == *old(self),
                None => {
                    &&& session is Ok
                    &&& final(self).has_new_user(*old(self), user.username@, user.email@)
                    &&& final(self).users@.last().password@ == hashed@
                    &&& is_session_for(
                        session->Ok_0,
                        ObjectId { value: old(self).users@.len() as u128 },
                        user.username@,
                        user.email@,
                        "user"@,
                        expiry(now, SHORT_SESSION_HOURS),
                    )
                },
            },
    {
        match find_user_by_email(&self.users, &user.email) {
            Some(_) => Err(AuthError::UserExists),
            None => Ok(self.add_user(&user.username, &user.email, hashed, now)),
        }
    }

    /// Registers the user at `now` (seconds since the epoch): hashes the
    /// password and adds the user. `UserExists` where the e-mail address
    /// is taken; where it is free, `HashFailure` if the password could
    /// not be hashed. Every failure leaves the database as it was. What
    /// is stored for the user is a hash of the password they gave: one
    /// that a log-in with that password is checked against with success.
    pub fn create_user(&mut self, user: &RegisterRequest, now: usize) -> (session: Result<Session, AuthError>)
        ensures
            old(self).consistent() ==> final(self).consistent(),
            user_by_email(old(self).users@, user.email@) is Some ==> session == Err::<Session, AuthError>(
                AuthError::UserExists,
            ),
            session is Err ==> *final(self) == *old(self),
            session is Err && user_by_email(old(self).users@, user.email@) is None ==> session == Err::<
                Session,
                AuthError,
            >(AuthError::HashFailure),
            session is Ok ==> final(self).has_new_user(*old(self), user.username@, user.email@)
                && is_session_for(
                session->Ok_0,
                ObjectId { value: old(self).users@.len() as u128 },
                user.username@,
                user.email@,
                "user"@,
                expiry(now, SHORT_SESSION_HOURS),
            ),
            session is Ok ==> bcrypt_verdict(user.password@, final(self).users@.last().password@) == Some(
                true,
            ),
    {
        if find_user_by_email(&self.users, &user.email).is_some() {
            return Err(AuthError::UserExists);
        }
        match bcrypt_hash(user.password.as_str(), HASH_COST) {
            Err(_) => Err(AuthError::HashFailure),
            Ok(hashed) => self.register_user(user, hashed, now),
        }
    }

    /// Logs the user in by password at `now` (seconds since the epoch):
    /// the session of a week of the first user with the e-mail address,
    /// if the password is theirs. `InvalidCredentials` where there is no
    /// such user or the password is wrong, `HashFailure` where the stored
    /// hash cannot be read, `MissingUserId` where the record has no
    /// identifier.
    pub fn authenticate_user(&self, credentials: &LoginRequest, now: usize) -> (session: Result<
        Session,
        AuthError,
    >)
        ensures
            match user_by_email(self.users@, credentials.email@) {
                None => session == Err::<Session, AuthError>(AuthError::InvalidCredentials),
                Some(u) => match login_verdict(Some(u), bcrypt_verdict(credentials.password@, u.password@)) {
                    Err(e) => session == Err::<Session, AuthError>(e),
                    Ok(id) => session is Ok && is_session_for(
                        session->Ok_0,
                        id,
                        u.username@,
                        u.email@,
                        u.role@,
                        expiry(now, LONG_SESSION_HOURS),
                    ),
                },
            },
    {
        match find_user_by_email(&self.users, &credentials.email) {
            None => finish_login(None, None, now),
            Some(i) => {
                let user = &self.users[i];
                let verdict = match bcrypt_verify(credentials.password.as_str(), user.password.as_str()) {
                    Ok(same) => Some(same),
                    Err(_) => None,
                };
                finish_login(Some(user), verdict, now)
            },
        }
    }

    /// Logs in the user whom the identity provider vouches for, at `now`
    /// (seconds since the epoch): the session of a day of the first user
    /// with the e-mail address; where there is none, the user is added
    /// under the given name, without a password. `MissingUserId`, and
    /// nothing changed, where the record found has no identifier.
    pub fn google_login(&mut self, email: &str, name: &str, now: usize) -> (session: Result<Session, AuthError>)
        ensures
            old(self).consistent() ==> final(self).consistent(),
            match user_by_email(old(self).users@, email@) {
                Some(u) => {
                    &&& *final(self) == *old(self)
                    &&& match u.id {
                        None => session == Err::<Session, AuthError>(AuthError::MissingUserId),
                        Some(id) => session is Ok && is_session_for(
                            session->Ok_0,
                            id,
                            u.username@,
                            u.email@,
                            u.role@,
                            expiry(now, SHORT_SESSION_HOURS),
                        ),
                    }
                },
                None => {
                    &&& session is Ok
                    &&& final(self).has_new_user(*old(self), name@, email@)
                    &&& final(self).users@.last().password@ == Seq::<char>::empty()
                    &&& is_session_for(
                        session->Ok_0,
                        ObjectId { value: old(self).users@.len() as u128 },
                        name@,
                        email@,
                        "user"@,
                        expiry(now, SHORT_SESSION_HOURS),
                    )
                },
            },
    {
        let email_text = email.to_owned();
        match find_user_by_email(&self.users, &email_text) {
            Some(i) => {
                let user = &self.users[i];
                match user.id {
                    None => Err(AuthError::MissingUserId),
                    Some(id) => Ok(
                        session_for(
                            id,
                            &user.username,
                            &user.email,
                            &user.role,
                            expiry_at(now, SHORT_SESSION_HOURS),
                        ),
                    ),
                }
            },
            None => {
                let name_text = name.to_owned();
                Ok(self.add_user(&name_text, &email_text, String::new(), now))
            },
        }
    }
}

} // verus!
