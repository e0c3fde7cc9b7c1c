//! Users, their credentials and the checks on their requests.

use crate::error::ApiError;
use crate::id::{parse_record_id, record_id_text, RecordId, encode_id_text, is_id_text, decode_id_text};
use pwhash::bcrypt;
use regex::Regex;
use vstd::prelude::*;
use vstd::utf8::encode_utf8;
use vstd::string::*;

verus! {

/// The pattern that a user's e-mail address must match.
pub const EMAIL_PATTERN: &'static str =
    r"^([a-z0-9_+]([a-z0-9_+.]*[a-z0-9_+])?)@([a-z0-9]+([\-\.]{1}[a-z0-9]+)*\.[a-z]{2,6})";

/// How long a login stays valid, in seconds.
pub const TOKEN_LIFETIME: i64 = 86400;

/// What `regex` answers for a pattern and a text: `None` when the pattern does
/// not compile, else whether the text matches it.
pub uninterp spec fn regex_outcome(pattern: Seq<char>, text: Seq<char>) -> Option<bool>;

/// Whether bcrypt accepts `password` for the stored `hash`.
pub uninterp spec fn bcrypt_accepts(password: Seq<char>, hash: Seq<char>) -> bool;

/// Compiles `pattern` and matches `text` against it (`Regex::new`, then
/// `Regex::is_match`). The outcome is named, not described.
#[verifier::external_body]
fn regex_is_match(pattern: &str, text: &str) -> (res: Option<bool>)
    ensures
        res == regex_outcome(pattern@, text@),
{
    match Regex::new(pattern) {
        Ok(re) => Some(re.is_match(text)),
        Err(_) => None,
    }
}

/// Every character of the text is printable ASCII, from space to tilde.
pub open spec fn is_printable_ascii(s: Seq<char>) -> bool {
    forall|i: int| 0 <= i < s.len() ==> ' ' <= #[trigger] s[i] && s[i] <= '~'
}

/// Checks a password against a stored bcrypt hash (`pwhash::bcrypt::verify`).
/// The answer depends on the two texts alone and is named. The call reads the
/// salt back out of the hash character by character and looks each one up in
/// a table that covers only the characters from space up, so a hash with a
/// character outside printable ASCII can make it index past the table or
/// overflow; such hashes are ruled out. A hash that names cost 31 is accepted
/// by this contract but makes the call run 2^31 key-expansion rounds, for hours.
#[verifier::external_body]
fn bcrypt_verify(password: &str, hash: &str) -> (res: bool)
    requires
        is_printable_ascii(hash@),
    ensures
        res == bcrypt_accepts(password@, hash@),
{
    bcrypt::verify(password, hash)
}

/// Hashes a password with a random salt (`pwhash::bcrypt::hash`). The call
/// always returns a hash: its salt comes from the system random source, which
/// panics rather than fail, and the hashing itself has no error path. The hash
/// depends on the salt, so only this is stated of it: it is accepted by
/// `bcrypt::verify` for the same password, since `verify` reads the salt and
/// cost back from the hash and recomputes it; and it is written as `$2b$`, two
/// cost digits, `$` and the bcrypt base-64 alphabet, all printable ASCII.
#[verifier::external_body]
fn bcrypt_hash(password: &str) -> (res: Option<String>)
    ensures
        res is Some,
        res matches Some(h) ==> bcrypt_accepts(password@, h@) && is_printable_ascii(h@),
{
    match bcrypt::hash(password) {
        Ok(h) => Some(h),
        Err(_) => None,
    }
}

/// Whether every character of `s` is printable ASCII.
pub fn printable_ascii(s: &str) -> (res: bool)
    ensures
        res == is_printable_ascii(s@),
{
    let n = s.unicode_len();
    let mut i: usize = 0;
    while i < n
        invariant
            n == s@.len(),
            0 <= i <= n,
            forall|j: int| 0 <= j < i ==> ' ' <= #[trigger] s@[j] && s@[j] <= '~',
        decreases n - i,
    {
        let c = s.get_char(i);
        if c < ' ' || c > '~' {
            return false;
        }
        i = i + 1;
    }
    true
}

/// A stored picture of a user: its id and its file extension.
#[derive(Debug)]
pub struct UserImage {
    pub _id: RecordId,
    pub extension: String,
}

/// The picture that a user request announces.
#[derive(Debug)]
pub struct UserImageRequest {
    pub extension: String,
}

/// A stored user. `password` holds the bcrypt hash once the user is saved.
#[derive(Debug)]
pub struct User {
    pub _id: Option<RecordId>,
    pub name: String,
    pub email: String,
    pub password: String,
    pub role_id: Vec<RecordId>,
    pub image: Option<UserImage>,
}

/// What a user logs in with.
#[derive(Debug)]
pub struct UserCredential {
    pub email: String,
    pub password: String,
}

/// What a listing of users is narrowed to.
#[derive(Debug)]
pub struct UserQuery {
    pub _id: Option<RecordId>,
    pub role_id: Option<RecordId>,
    pub email: Option<String>,
    pub limit: Option<usize>,
}

/// The body of a request that creates or replaces a user.
#[derive(Debug)]
pub struct UserRequest {
    pub name: String,
    pub email: String,
    pub password: String,
    pub role_id: Option<Vec<RecordId>>,
    pub image: Option<UserImageRequest>,
}

/// A user as the service shows it.
#[derive(Debug)]
pub struct UserResponse {
    pub _id: Option<RecordId>,
    pub name: String,
    pub email: String,
    pub role_id: Vec<RecordId>,
}

/// Who issued a request, as the login token tells.
#[derive(Debug)]
pub struct UserAuthenticationData {
    pub _id: Option<RecordId>,
    pub role_id: Vec<RecordId>,
    pub token: String,
}

/// The claims of a login token.
#[derive(Debug)]
pub struct UserClaims {
    pub aud: String,
    pub exp: i64,
    pub iss: String,
    pub sub: String,
}

/// What removing a role from a user calls for.
#[derive(Clone, Copy, Debug, PartialEq, Eq, Structural)]
pub enum RoleDrop {
    /// The user did not hold the role.
    NotHeld,
    /// The user held only that role and is deleted.
    DeleteUser,
    /// The user keeps other roles and is stored again.
    UpdateUser,
}

/// The position of the first occurrence of `x` in `s`.
pub open spec fn is_first_position(s: Seq<RecordId>, x: RecordId, k: int) -> bool {
    &&& 0 <= k < s.len()
    &&& s[k] == x
    &&& forall|j: int| 0 <= j < k ==> s[j] != x
}

/// The ids of `requested` whose lookup found a role, in order.
pub open spec fn kept_roles(requested: Seq<RecordId>, found: Seq<bool>) -> Seq<RecordId>
    decreases requested.len(),
{
    if requested.len() == 0 {
        Seq::empty()
    } else {
        let n = requested.len() - 1;
        let prev = kept_roles(requested.drop_last(), found);
        if found[n] {
            prev.push(requested[n])
        } else {
            prev
        }
    }
}

/// The roles kept for a new user are exactly the requested ids whose lookup
/// found a role, and there are no more of them than were requested.
pub proof fn lemma_kept_roles_are_the_found_ones(requested: Seq<RecordId>, found: Seq<bool>)
    requires
        found.len() == requested.len(),
    ensures
        kept_roles(requested, found).len() <= requested.len(),
        forall|x: RecordId|
            #[trigger] kept_roles(requested, found).contains(x) <==> exists|i: int|
                0 <= i < requested.len() && found[i] && requested[i] == x,
    decreases requested.len(),
{
    if requested.len() > 0 {
        let n = requested.len() - 1;
        let prev_req = requested.drop_last();
        let prev_found = found.take(n);
        lemma_kept_roles_found_prefix(requested.drop_last(), found);
        lemma_kept_roles_are_the_found_ones(prev_req, prev_found);
        let prev = kept_roles(prev_req, found);
        let now = kept_roles(requested, found);
        assert forall|x: RecordId| #[trigger] now.contains(x) <==> exists|i: int|
            0 <= i < requested.len() && found[i] && requested[i] == x by {
            if now.contains(x) {
                let k = choose|k: int| 0 <= k < now.len() && now[k] == x;
                if k < prev.len() {
                    assert(prev[k] == x);
                    assert(prev.contains(x));
                    let i = choose|i: int| 0 <= i < prev_req.len() && prev_found[i] && prev_req[i] == x;
                    assert(requested[i] == x && found[i]);
                } else {
                    assert(found[n] && requested[n] == x);
                }
            }
            if exists|i: int| 0 <= i < requested.len() && found[i] && requested[i] == x {
                let i = choose|i: int| 0 <= i < requested.len() && found[i] && requested[i] == x;
                if i < n {
                    assert(prev_req[i] == x && prev_found[i]);
                    assert(prev.contains(x));
                    let k = choose|k: int| 0 <= k < prev.len() && prev[k] == x;
                    assert(now[k] == x);
                } else {
                    assert(now[now.len() - 1] == x);
                }
            }
        }
    }
}

/// The kept roles of a prefix depend only on the lookups of that prefix.
proof fn lemma_kept_roles_found_prefix(requested: Seq<RecordId>, found: Seq<bool>)
    requires
        requested.len() <= found.len(),
    ensures
        kept_roles(requested, found) == kept_roles(requested, found.take(requested.len() as int)),
    decreases requested.len(),
{
    if requested.len() > 0 {
        lemma_kept_roles_found_prefix(requested.drop_last(), found);
        lemma_kept_roles_found_prefix(requested.drop_last(), found.take(requested.len() as int));
        assert(found.take(requested.len() as int).take(requested.len() - 1) =~= found.take(
            requested.len() - 1,
        ));
    }
}

/// A login is accepted against the user that its e-mail address found: there
/// is one, its stored hash is printable ASCII, and bcrypt accepts the given
/// password for that hash.
pub open spec fn login_accepted(login: UserCredential, found: Option<User>) -> bool {
    found matches Some(u) && is_printable_ascii(u.password@) && bcrypt_accepts(
        login.password@,
        u.password@,
    )
}

/// The claims of a token for the user with id `id`, made at `now`: the
/// subject is the id's text, and it is valid for `TOKEN_LIFETIME` seconds.
pub open spec fn login_claims(c: UserClaims, id: RecordId, now: i64) -> bool {
    &&& c.sub@ == encode_id_text(id.bytes@)
    &&& c.exp == now + TOKEN_LIFETIME
    &&& c.iss@ == "Redian"@
    &&& c.aud@ == "http://localhost:8000"@
}

/// The text is exactly `*`, the placeholder for "keep the password".
pub open spec fn is_password_placeholder(s: Seq<char>) -> bool {
    encode_utf8(s) == seq![42u8]
}

impl UserRequest {
    /// Checks the password and e-mail address of a new user: the password must
    /// be at least 8 bytes long and the address must match `EMAIL_PATTERN`. A
    /// pattern that does not compile accepts no address.
    pub fn check(&self) -> (res: Result<(), ApiError>)
        ensures
            encode_utf8(self.password@).len() < 8 ==> res == Err::<(), ApiError>(
                ApiError::UserMustHaveValidPassword,
            ),
            encode_utf8(self.password@).len() >= 8 ==> res == if regex_outcome(
                EMAIL_PATTERN@,
                self.email@,
            ) == Some(true) {
                Ok::<(), ApiError>(())
            } else {
                Err::<(), ApiError>(ApiError::UserMustHaveValidEmail)
            },
    {
        if self.password.as_str().as_bytes().len() < 8 {
            return Err(ApiError::UserMustHaveValidPassword);
        }
        match regex_is_match(EMAIL_PATTERN, self.email.as_str()) {
            Some(true) => Ok(()),
            _ => Err(ApiError::UserMustHaveValidEmail),
        }
    }

    /// The roles of a user created by an authorized issuer: the requested role
    /// ids whose lookup found a role (`found[i]` for the id at position `i`).
    /// Refused when the request names no roles.
    pub fn granted_roles(&self, found: &Vec<bool>) -> (res: Result<Vec<RecordId>, ApiError>)
        requires
            self.role_id matches Some(ids) ==> found@.len() == ids@.len(),
        ensures
            self.role_id is None ==> res == Err::<Vec<RecordId>, ApiError>(
                ApiError::UserMustHaveRoles,
            ),
            self.role_id matches Some(ids) ==> (res matches Ok(v) && v@ == kept_roles(
                ids@,
                found@,
            )),
    {
        match &self.role_id {
            None => Err(ApiError::UserMustHaveRoles),
            Some(ids) => {
                let mut out: Vec<RecordId> = Vec::new();
                let mut i: usize = 0;
                while i < ids.len()
                    invariant
                        0 <= i <= ids@.len(),
                        found@.len() == ids@.len(),
                        out@ == kept_roles(ids@.take(i as int), found@),
                    decreases ids@.len() - i,
                {
                    proof {
                        assert(ids@.take(i as int + 1).drop_last() =~= ids@.take(i as int));
                    }
                    if found[i] {
                        out.push(ids[i]);
                    }
                    i = i + 1;
                }
                proof {
                    assert(ids@.take(ids@.len() as int) =~= ids@);
                }
                Ok(out)
            },
        }
    }

    /// The user that a create request makes, holding the given roles.
    pub fn into_user(self, role_id: Vec<RecordId>) -> (res: User)
        ensures
            res._id is None,
            res.name == self.name,
            res.email == self.email,
            res.password == self.password,
            res.role_id == role_id,
            res.image is None,
    {
        User {
            _id: None,
            name: self.name,
            email: self.email,
            password: self.password,
            role_id,
            image: None,
        }
    }
}

impl User {
    /// Replaces the clear password by its bcrypt hash; hashing always succeeds.
    pub fn hash_password(&mut self) -> (res: Result<(), ApiError>)
        ensures
            res is Ok,
            bcrypt_accepts(old(self).password@, final(self).password@),
            is_printable_ascii(final(self).password@),
            final(self)._id == old(self)._id,
            final(self).name == old(self).name,
            final(self).email == old(self).email,
            final(self).role_id == old(self).role_id,
            final(self).image == old(self).image,
    {
        match bcrypt_hash(self.password.as_str()) {
            Some(h) => {
                self.password = h;
                Ok(())
            },
            None => Err(ApiError::HashingFailed),
        }
    }

    /// Removes the first occurrence of `role_id` from the user's roles and
    /// says what that calls for.
    pub fn drop_role(&mut self, role_id: &RecordId) -> (res: RoleDrop)
        ensures
            !old(self).role_id@.contains(*role_id) ==> res == RoleDrop::NotHeld
                && final(self).role_id == old(self).role_id,
            old(self).role_id@.contains(*role_id) ==> exists|k: int|
                is_first_position(old(self).role_id@, *role_id, k) && final(self).role_id@ == old(
                    self,
                ).role_id@.remove(k),
            old(self).role_id@.contains(*role_id) ==> (res == if final(self).role_id@.len() == 0 {
                RoleDrop::DeleteUser
            } else {
                RoleDrop::UpdateUser
            }),
            final(self)._id == old(self)._id,
            final(self).name == old(self).name,
            final(self).email == old(self).email,
            final(self).password == old(self).password,
            final(self).image == old(self).image,
    {
        let mut i: usize = 0;
        while i < self.role_id.len()
            invariant
                0 <= i <= self.role_id@.len(),
                *self == *old(self),
                forall|j: int| 0 <= j < i ==> self.role_id@[j] != *role_id,
            decreases self.role_id@.len() - i,
        {
            if self.role_id[i].same(role_id) {
                proof {
                    assert(is_first_position(self.role_id@, *role_id, i as int));
                }
                self.role_id.remove(i);
                if self.role_id.len() == 0 {
                    return RoleDrop::DeleteUser;
                } else {
                    return RoleDrop::UpdateUser;
                }
            }
            i = i + 1;
        }
        RoleDrop::NotHeld
    }

    /// The user that an update request makes of the stored user `old_user`:
    /// it keeps the stored password unless the request gives one other than
    /// `*`, takes the issuer's roles, and gets a picture with id `image_id`
    /// when the request announces one. The flag tells whether the new password
    /// still needs hashing.
    pub fn updated_by(
        old_user: User,
        user_id: RecordId,
        issuer_roles: Vec<RecordId>,
        payload: UserRequest,
        image_id: RecordId,
    ) -> (res: (User, bool))
        ensures
            res.0._id == Some(user_id),
            res.0.name == payload.name,
            res.0.email == payload.email,
            res.0.role_id == issuer_roles,
            res.1 == !is_password_placeholder(payload.password@),
            res.1 ==> res.0.password == payload.password,
            !res.1 ==> res.0.password == old_user.password,
            payload.image is None ==> res.0.image is None,
            payload.image matches Some(req) ==> (res.0.image matches Some(img) && img._id
                == image_id && img.extension == req.extension),
    {
        let bytes = payload.password.as_str().as_bytes();
        let placeholder = bytes.len() == 1 && bytes[0] == 42u8;
        proof {
            assert(placeholder == (bytes@ =~= seq![42u8]));
        }
        let password = if placeholder {
            old_user.password
        } else {
            payload.password
        };
        let image = match payload.image {
            Some(req) => Some(UserImage { _id: image_id, extension: req.extension }),
            None => None,
        };
        (
            User {
                _id: Some(user_id),
                name: payload.name,
                email: payload.email,
                password,
                role_id: issuer_roles,
                image,
            },
            !placeholder,
        )
    }
}

impl UserCredential {
    /// Checks a login against the user found by its e-mail address (`None`
    /// when none was found; a stored hash that is not printable ASCII accepts
    /// no password) and, when the password is accepted, makes the
    /// claims of a token that the issuer signs: subject the user's id, valid
    /// for `TOKEN_LIFETIME` seconds from `now`.
    pub fn authenticate(&self, found: Option<&User>, now: i64) -> (res: Result<UserClaims, ApiError>)
        requires
            now <= i64::MAX - TOKEN_LIFETIME,
            found matches Some(u) ==> (is_printable_ascii(u.password@) && bcrypt_accepts(
                self.password@,
                u.password@,
            ) ==> u._id is Some),
        ensures
            res is Ok <==> login_accepted(
                *self,
                match found {
                    Some(u) => Some(*u),
                    None => None,
                },
            ),
            res matches Err(e) ==> e == ApiError::InvalidCombination,
            res matches Ok(c) ==> login_claims(c, found->0._id->0, now),
    {
        match found {
            Some(user) => {
                if !printable_ascii(user.password.as_str()) {
                    return Err(ApiError::InvalidCombination);
                }
                if bcrypt_verify(self.password.as_str(), user.password.as_str()) {
                    let id = match &user._id {
                        Some(id) => *id,
                        None => {
                            return Err(ApiError::InvalidCombination);
                        },
                    };
                    Ok(
                        UserClaims {
                            sub: record_id_text(&id),
                            exp: now + TOKEN_LIFETIME,
                            iss: "Redian".to_owned(),
                            aud: "http://localhost:8000".to_owned(),
                        },
                    )
                } else {
                    Err(ApiError::InvalidCombination)
                }
            },
            None => Err(ApiError::InvalidCombination),
        }
    }

    /// Checks a login as `authenticate` does, where the check can be made:
    /// `None` when the password is accepted for a found user that has no id,
    /// which no token can name.
    pub fn try_authenticate(&self, found: Option<&User>, now: i64) -> (res: Option<
        Result<UserClaims, ApiError>,
    >)
        requires
            now <= i64::MAX - TOKEN_LIFETIME,
        ensures
            res is None <==> (found matches Some(u) && u._id is None && login_accepted(
                *self,
                Some(*u),
            )),
            res matches Some(r) ==> (r is Ok <==> login_accepted(
                *self,
                match found {
                    Some(u) => Some(*u),
                    None => None,
                },
            )),
            res matches Some(r) ==> (r matches Err(e) ==> e == ApiError::InvalidCombination),
            res matches Some(r) ==> (r matches Ok(c) ==> login_claims(c, found->0._id->0, now)),
    {
        match found {
            Some(user) => {
                if user._id.is_none() && printable_ascii(user.password.as_str()) && bcrypt_verify(
                    self.password.as_str(),
                    user.password.as_str(),
                ) {
                    return None;
                }
            },
            None => {},
        }
        Some(self.authenticate(found, now))
    }

    /// The user id that the claims of a checked token name, where the subject is an id.
    pub fn subject_id(claims: &UserClaims) -> (res: Option<RecordId>)
        ensures
            res is Some <==> is_id_text(claims.sub@),
            res matches Some(id) ==> id.bytes@ == decode_id_text(claims.sub@),
    {
        parse_record_id(claims.sub.as_str())
    }
}

/// The token of an `Authorization` header: the header without its first seven
/// bytes (`Bearer `).
pub fn bearer_token(header: &[u8]) -> (res: Vec<u8>)
    requires
        header@.len() >= 7,
    ensures
        res@ == header@.skip(7),
{
    let mut out: Vec<u8> = Vec::new();
    let mut i: usize = 7;
    while i < header.len()
        invariant
            7 <= i <= header@.len(),
            out@ == header@.subrange(7, i as int),
        decreases header@.len() - i,
    {
        out.push(header[i]);
        proof {
            assert(header@.subrange(7, i as int + 1) =~= header@.subrange(7, i as int).push(
                header@[i as int],
            ));
        }
        i = i + 1;
    }
    proof {
        assert(header@.subrange(7, header@.len() as int) =~= header@.skip(7));
    }
    out
}

/// A user whose password was hashed (as `User::hash_password` leaves it) is
/// accepted at login with the password it had before.
pub proof fn lemma_saved_password_authenticates(before: User, after: User, login: UserCredential)
    requires
        bcrypt_accepts(before.password@, after.password@),
        is_printable_ascii(after.password@),
        login.password@ == before.password@,
    ensures
        login_accepted(login, Some(after)),
{
}

} // verus!
