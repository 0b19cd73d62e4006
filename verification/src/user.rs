//! User and profile operations: registration, login, the current-user view,
//! partial profile update, and the follow graph.
//!
//! Passwords are stored as salted, iterated hashes through trusted wrappers
//! around the `crypto` crate; every decision around those calls — uniqueness
//! checks, the partial-update policy, the idempotent follow edge — is
//! verified.

use vstd::prelude::*;

use crate::dto::{
    clone_opt_string, opt_str, Login, ProfileResult, Registration, UpdateUser, User, UserResult,
};
use crate::store::{
    find_user_by_email, find_user_by_id, find_user_by_username, has_email, has_user_id,
    has_username, lemma_register_wf, profile_dto, profile_matches, same_store, Store, UserRecord,
};
use crate::token::{issued_claims, jwt_verify_of, JwtOutcomeView, SessionMiddleware};

verus! {

// ----- password hashing (trusted) -----

/// Holds of strings that `pbkdf2_simple` returns: rust-crypto's hash format
/// with a positive iteration count. On such strings `pbkdf2_check` returns
/// without panicking.
pub uninterp spec fn pbkdf2_formatted(hashed: Seq<char>) -> bool;

/// What rust-crypto's `pbkdf2_check` returns for a password and a stored
/// value: whether the password matches, or nothing when the stored value is
/// not in the crate's hash format.
pub uninterp spec fn pbkdf2_check_of(password: Seq<char>, hashed: Seq<char>) -> Option<bool>;

/// Relies on crypto::pbkdf2::pbkdf2_simple: hashes the password under a
/// fresh random salt with 10000 iterations, producing the crate's
/// `$rpbkdf2$0$...` format with that positive count. Whatever salt was
/// drawn, `pbkdf2_check` of the same password against the result succeeds,
/// as the check recomputes the hash from the salt stored in the result.
#[verifier::external_body]
fn hash_password(password: &str) -> (r: Option<String>)
    ensures
        r is Some ==> pbkdf2_check_of(password@, r->0@) == Some(true),
        r is Some ==> pbkdf2_formatted(r->0@),
{
    crypto::pbkdf2::pbkdf2_simple(password, 10000).ok()
}

/// Relies on crypto::pbkdf2::pbkdf2_check: deterministic in the password and
/// the stored value; an error means the stored value is not in the expected
/// shape. The stored value must be one `pbkdf2_simple` produced: on a
/// crafted string whose encoded iteration count is zero, the underlying
/// derivation panics.
#[verifier::external_body]
fn check_password(password: &str, hashed: &str) -> (r: Option<bool>)
    requires
        pbkdf2_formatted(hashed@),
    ensures
        r == pbkdf2_check_of(password@, hashed@),
{
    crypto::pbkdf2::pbkdf2_check(password, hashed).ok()
}

// ----- spec vocabulary -----

/// Some stored user carries this email and a hash that the password checks
/// against: the condition under which a login is owed success.
pub open spec fn login_ok(users: Seq<UserRecord>, email: Seq<char>, password: Seq<char>) -> bool {
    exists|i: int|
        0 <= i < users.len() && #[trigger] users[i].email@ == email && pbkdf2_check_of(
            password,
            users[i].password_hash@,
        ) == Some(true)
}

/// A user DTO shows this record's fields and carries the given token.
pub open spec fn user_result_matches(u: User, rec: UserRecord, token: Seq<char>) -> bool {
    &&& u.email@ == rec.email@
    &&& u.username@ == rec.username@
    &&& opt_str(u.bio) == opt_str(rec.bio)
    &&& opt_str(u.image) == opt_str(rec.image)
    &&& u.token@ == token
}

/// The token in a DTO was minted for `uid` at `now` by this service.
pub open spec fn token_for(token: Seq<char>, sm: SessionMiddleware, uid: u64, now: u64) -> bool {
    jwt_verify_of(token, sm.server_key@) == JwtOutcomeView::Valid(
        issued_claims(opt_str(sm.issuer), uid, now, sm.expiration_time),
    )
}

/// An update field is supplied when it is present and non-empty; an absent
/// or empty field leaves the stored value unchanged.
pub open spec fn supplied(o: Option<Seq<char>>) -> bool {
    o is Some && o->0.len() > 0
}

/// The partial-update rule for a mandatory column.
pub open spec fn str_apply(cur: Seq<char>, upd: Option<Seq<char>>) -> Seq<char> {
    if supplied(upd) {
        upd->0
    } else {
        cur
    }
}

/// The partial-update rule for a nullable column.
pub open spec fn opt_apply(cur: Option<Seq<char>>, upd: Option<Seq<char>>) -> Option<Seq<char>> {
    if supplied(upd) {
        Some(upd->0)
    } else {
        cur
    }
}

// ----- token aliases over the session service -----

/// Mint a bearer token whose subject is `user_id`.
pub fn new_token(sm: &SessionMiddleware, user_id: u64, now: u64) -> (r: Option<String>)
    requires
        now + sm.expiration_time <= u64::MAX,
    ensures
        r is Some,
        r is Some ==> token_for(r->0@, *sm, user_id, now),
{
    sm.issue(user_id, now)
}

/// Resolve a bearer token to the user id it was issued for, or nothing on
/// any verification failure.
pub fn login(sm: &SessionMiddleware, token: &str, now: u64) -> (r: Option<u64>)
    ensures
        r == match crate::token::spec_verify(token@, sm.server_key@, now) {
            Ok(uid) => Some(uid),
            Err(_) => None::<u64>,
        },
{
    match sm.verify(token, now) {
        Ok(uid) => Some(uid),
        Err(_) => None,
    }
}

// ----- handlers -----

/// Why a registration was refused.
#[derive(Clone, Copy, Debug, PartialEq, Eq, Structural)]
pub enum RegistrationError {
    /// Another user already has this email.
    DuplicateEmail,
    /// Another user already has this username.
    DuplicateUsername,
    /// The password hasher failed.
    HashFailure,
}

/// Register a new user: reject a duplicate email or username, hash the
/// password, store the user under the next id, and answer with the user DTO
/// carrying a fresh token.
pub fn registration_handler(
    store: &mut Store,
    sm: &SessionMiddleware,
    reg: &Registration,
    now: u64,
) -> (r: Result<UserResult, RegistrationError>)
    requires
        old(store).wf(),
        old(store).next_user_id < u64::MAX,
        now + sm.expiration_time <= u64::MAX,
    ensures
        final(store).wf(),
        match r {
            Ok(u) => {
                &&& !has_email(old(store).users@, reg.user.email@)
                &&& !has_username(old(store).users@, reg.user.username@)
                &&& final(store).users@.len() == old(store).users@.len() + 1
                &&& final(store).users@ == old(store).users@.push(final(store).users@.last())
                &&& ({
                    let nu = final(store).users@.last();
                    &&& nu.id == old(store).next_user_id
                    &&& nu.email@ == reg.user.email@
                    &&& nu.username@ == reg.user.username@
                    &&& pbkdf2_check_of(reg.user.password@, nu.password_hash@) == Some(true)
                    &&& nu.bio is None
                    &&& nu.image is None
                })
                &&& final(store).next_user_id == old(store).next_user_id + 1
                &&& final(store).articles@ == old(store).articles@
                &&& final(store).comments@ == old(store).comments@
                &&& final(store).follows@ == old(store).follows@
                &&& final(store).favorites@ == old(store).favorites@
                &&& final(store).tags@ == old(store).tags@
                &&& final(store).article_tags@ == old(store).article_tags@
                &&& final(store).next_article_id == old(store).next_article_id
                &&& final(store).next_comment_id == old(store).next_comment_id
                &&& login_ok(final(store).users@, reg.user.email@, reg.user.password@)
                &&& user_result_matches(u.user, final(store).users@.last(), u.user.token@)
                &&& token_for(u.user.token@, *sm, old(store).next_user_id, now)
            },
            Err(e) => {
                &&& same_store(*old(store), *final(store))
                &&& (e == RegistrationError::DuplicateEmail <==> has_email(
                    old(store).users@,
                    reg.user.email@,
                ))
                &&& (e == RegistrationError::DuplicateUsername <==> !has_email(
                    old(store).users@,
                    reg.user.email@,
                ) && has_username(old(store).users@, reg.user.username@))
                &&& (e == RegistrationError::HashFailure ==> !has_email(
                    old(store).users@,
                    reg.user.email@,
                ) && !has_username(old(store).users@, reg.user.username@))
            },
        },
{
    if find_user_by_email(&store.users, &reg.user.email).is_some() {
        return Err(RegistrationError::DuplicateEmail);
    }
    if find_user_by_username(&store.users, &reg.user.username).is_some() {
        return Err(RegistrationError::DuplicateUsername);
    }
    let hash = match hash_password(reg.user.password.as_str()) {
        Some(h) => h,
        None => {
            return Err(RegistrationError::HashFailure);
        },
    };
    let uid = store.next_user_id;
    let token = match sm.issue(uid, now) {
        Some(t) => t,
        None => {
            proof {
                assert(false);
            }
            String::new()
        },
    };
    let nu = UserRecord {
        id: uid,
        email: reg.user.email.clone(),
        username: reg.user.username.clone(),
        password_hash: hash,
        bio: None,
        image: None,
    };
    store.users.push(nu);
    store.next_user_id = uid + 1;
    proof {
        lemma_register_wf(*old(store), *store);
        let n = store.users@.len() - 1;
        assert(store.users@[n].email@ == reg.user.email@);
    }
    Ok(UserResult {
        user: User {
            email: reg.user.email.clone(),
            token,
            username: reg.user.username.clone(),
            bio: None,
            image: None,
        },
    })
}

/// Authenticate by email and password: on a match, answer with the user DTO
/// carrying a fresh token; any failure is anonymous silence.
pub fn authentication_handler(
    store: &Store,
    sm: &SessionMiddleware,
    login_req: &Login,
    now: u64,
) -> (r: Option<UserResult>)
    requires
        store.wf(),
        now + sm.expiration_time <= u64::MAX,
    ensures
        r is Some <==> login_ok(store.users@, login_req.user.email@, login_req.user.password@),
        r is Some ==> exists|i: int|
            {
                &&& 0 <= i < store.users@.len()
                &&& (#[trigger] store.users@[i]).email@ == login_req.user.email@
                &&& pbkdf2_check_of(login_req.user.password@, store.users@[i].password_hash@)
                    == Some(true)
                &&& user_result_matches(r->0.user, store.users@[i], r->0.user.token@)
                &&& token_for(r->0.user.token@, *sm, store.users@[i].id, now)
            },
{
    let i = match find_user_by_email(&store.users, &login_req.user.email) {
        Some(i) => i,
        None => {
            proof {
                if login_ok(store.users@, login_req.user.email@, login_req.user.password@) {
                    let j = choose|j: int|
                        0 <= j < store.users@.len() && (#[trigger] store.users@[j]).email@
                            == login_req.user.email@ && pbkdf2_check_of(
                            login_req.user.password@,
                            store.users@[j].password_hash@,
                        ) == Some(true);
                    assert(has_email(store.users@, login_req.user.email@));
                }
            }
            return None;
        },
    };
    proof {
        assert(pbkdf2_formatted(store.users@[i as int].password_hash@));
    }
    let ok = match check_password(
        login_req.user.password.as_str(),
        store.users[i].password_hash.as_str(),
    ) {
        Some(true) => true,
        _ => false,
    };
    if !ok {
        proof {
            if login_ok(store.users@, login_req.user.email@, login_req.user.password@) {
                let j = choose|j: int|
                    0 <= j < store.users@.len() && (#[trigger] store.users@[j]).email@
                        == login_req.user.email@ && pbkdf2_check_of(
                        login_req.user.password@,
                        store.users@[j].password_hash@,
                    ) == Some(true);
                if (i as int) < j {
                    assert(store.users@[i as int].email@ != store.users@[j].email@);
                } else if j < i as int {
                    assert(store.users@[j].email@ != store.users@[i as int].email@);
                }
                assert(false);
            }
        }
        return None;
    }
    let token = match sm.issue(store.users[i].id, now) {
        Some(t) => t,
        None => {
            proof {
                assert(false);
            }
            String::new()
        },
    };
    let u = &store.users[i];
    Some(UserResult {
        user: User {
            email: u.email.clone(),
            token,
            username: u.username.clone(),
            bio: clone_opt_string(&u.bio),
            image: clone_opt_string(&u.image),
        },
    })
}

/// The current-user view: look the authenticated user up and answer with the
/// user DTO carrying a fresh token; an anonymous or unknown caller gets
/// nothing.
pub fn get_current_user_handler(
    store: &Store,
    sm: &SessionMiddleware,
    user: Option<u64>,
    now: u64,
) -> (r: Option<UserResult>)
    requires
        now + sm.expiration_time <= u64::MAX,
    ensures
        r is Some <==> user is Some && has_user_id(store.users@, user->0),
        r is Some ==> user is Some && exists|i: int|
            {
                &&& 0 <= i < store.users@.len()
                &&& (#[trigger] store.users@[i]).id == user->0
                &&& user_result_matches(r->0.user, store.users@[i], r->0.user.token@)
                &&& token_for(r->0.user.token@, *sm, user->0, now)
            },
{
    let uid = match user {
        Some(uid) => uid,
        None => {
            return None;
        },
    };
    let i = match find_user_by_id(&store.users, uid) {
        Some(i) => i,
        None => {
            return None;
        },
    };
    let token = match sm.issue(uid, now) {
        Some(t) => t,
        None => {
            proof {
                assert(false);
            }
            String::new()
        },
    };
    let u = &store.users[i];
    Some(UserResult {
        user: User {
            email: u.email.clone(),
            token,
            username: u.username.clone(),
            bio: clone_opt_string(&u.bio),
            image: clone_opt_string(&u.image),
        },
    })
}

/// The profile view of `username` as `viewer` sees it.
pub fn get_profile_handler(store: &Store, username: &String, viewer: Option<u64>) -> (r: Option<
    ProfileResult,
>)
    ensures
        r is None <==> !has_username(store.users@, username@),
        r is Some ==> exists|i: int|
            {
                &&& 0 <= i < store.users@.len()
                &&& (#[trigger] store.users@[i]).username@ == username@
                &&& profile_matches(r->0.profile, store.users@[i], viewer, store.follows@)
            },
{
    let i = match find_user_by_username(&store.users, username) {
        Some(i) => i,
        None => {
            return None;
        },
    };
    let p = profile_dto(&store.users[i], &store.follows, viewer);
    Some(ProfileResult { profile: p })
}


/// Is this update field present and non-empty?
pub(crate) fn is_supplied(o: &Option<String>) -> (r: bool)
    ensures
        r == supplied(opt_str(*o)),
{
    match o {
        None => false,
        Some(s) => !s.as_str().is_empty(),
    }
}

/// Apply the partial-update rule to a mandatory column.
pub(crate) fn apply_string(cur: &String, upd: &Option<String>) -> (r: String)
    ensures
        r@ == str_apply(cur@, opt_str(*upd)),
{
    match upd {
        Some(s) => if !s.as_str().is_empty() {
            s.clone()
        } else {
            cur.clone()
        },
        None => cur.clone(),
    }
}

/// Apply the partial-update rule to a nullable column.
fn apply_opt(cur: &Option<String>, upd: &Option<String>) -> (r: Option<String>)
    ensures
        opt_str(r) == opt_apply(opt_str(*cur), opt_str(*upd)),
{
    match upd {
        Some(s) => if !s.as_str().is_empty() {
            Some(s.clone())
        } else {
            clone_opt_string(cur)
        },
        None => clone_opt_string(cur),
    }
}

/// Does a user other than `uid` hold this email?
pub open spec fn email_taken_by_other(users: Seq<UserRecord>, uid: u64, email: Seq<char>) -> bool {
    exists|j: int|
        0 <= j < users.len() && #[trigger] users[j].email@ == email && users[j].id != uid
}

/// Does a user other than `uid` hold this username?
pub open spec fn username_taken_by_other(
    users: Seq<UserRecord>,
    uid: u64,
    username: Seq<char>,
) -> bool {
    exists|j: int|
        0 <= j < users.len() && #[trigger] users[j].username@ == username && users[j].id != uid
}

fn email_taken(users: &Vec<UserRecord>, uid: u64, email: &String) -> (r: bool)
    ensures
        r == email_taken_by_other(users@, uid, email@),
{
    let n = users.len();
    let mut i: usize = 0;
    while i < n
        invariant
            n == users@.len(),
            i <= n,
            forall|k: int|
                0 <= k < i ==> !(#[trigger] users@[k].email@ == email@ && users@[k].id != uid),
        decreases n - i,
    {
        if users[i].id != uid && users[i].email == *email {
            return true;
        }
        i += 1;
    }
    false
}

fn username_taken(users: &Vec<UserRecord>, uid: u64, username: &String) -> (r: bool)
    ensures
        r == username_taken_by_other(users@, uid, username@),
{
    let n = users.len();
    let mut i: usize = 0;
    while i < n
        invariant
            n == users@.len(),
            i <= n,
            forall|k: int|
                0 <= k < i ==> !(#[trigger] users@[k].username@ == username@ && users@[k].id
                    != uid),
        decreases n - i,
    {
        if users[i].id != uid && users[i].username == *username {
            return true;
        }
        i += 1;
    }
    false
}

/// Why a user update was refused.
#[derive(Clone, Copy, Debug, PartialEq, Eq, Structural)]
pub enum UpdateUserError {
    /// The caller is anonymous or unknown.
    NotFound,
    /// The supplied email already belongs to another user.
    DuplicateEmail,
    /// The supplied username already belongs to another user.
    DuplicateUsername,
    /// The password hasher failed.
    HashFailure,
}

/// Partially update the authenticated user: a supplied non-empty field
/// overwrites the stored column, an absent or empty field leaves it
/// unchanged, and a supplied password is re-hashed.
pub fn update_user_handler(
    store: &mut Store,
    sm: &SessionMiddleware,
    user: Option<u64>,
    upd: &UpdateUser,
    now: u64,
) -> (r: Result<UserResult, UpdateUserError>)
    requires
        old(store).wf(),
        now + sm.expiration_time <= u64::MAX,
    ensures
        final(store).wf(),
        match r {
            Ok(u) => {
                &&& user is Some
                &&& exists|i: int|
                    {
                        &&& 0 <= i < old(store).users@.len()
                        &&& (#[trigger] old(store).users@[i]).id == user->0
                        &&& final(store).users@ == old(store).users@.update(
                            i,
                            final(store).users@[i],
                        )
                        &&& ({
                            let u0 = old(store).users@[i];
                            let u1 = final(store).users@[i];
                            &&& u1.id == u0.id
                            &&& u1.username@ == str_apply(
                                u0.username@,
                                opt_str(upd.user.username),
                            )
                            &&& u1.email@ == str_apply(u0.email@, opt_str(upd.user.email))
                            &&& opt_str(u1.bio) == opt_apply(
                                opt_str(u0.bio),
                                opt_str(upd.user.bio),
                            )
                            &&& opt_str(u1.image) == opt_apply(
                                opt_str(u0.image),
                                opt_str(upd.user.image),
                            )
                            &&& (!supplied(opt_str(upd.user.password))
                                ==> u1.password_hash@ == u0.password_hash@)
                            &&& (supplied(opt_str(upd.user.password)) ==> pbkdf2_check_of(
                                opt_str(upd.user.password)->0,
                                u1.password_hash@,
                            ) == Some(true))
                            &&& user_result_matches(u.user, u1, u.user.token@)
                            &&& token_for(u.user.token@, *sm, user->0, now)
                        })
                    }
                &&& final(store).articles@ == old(store).articles@
                &&& final(store).comments@ == old(store).comments@
                &&& final(store).follows@ == old(store).follows@
                &&& final(store).favorites@ == old(store).favorites@
                &&& final(store).tags@ == old(store).tags@
                &&& final(store).article_tags@ == old(store).article_tags@
                &&& final(store).next_user_id == old(store).next_user_id
                &&& final(store).next_article_id == old(store).next_article_id
                &&& final(store).next_comment_id == old(store).next_comment_id
            },
            Err(e) => {
                let users0 = old(store).users@;
                let notfound = user is None || !has_user_id(users0, user->0);
                let dup_email = user is Some && supplied(opt_str(upd.user.email))
                    && email_taken_by_other(users0, user->0, opt_str(upd.user.email)->0);
                let dup_username = user is Some && supplied(opt_str(upd.user.username))
                    && username_taken_by_other(users0, user->0, opt_str(upd.user.username)->0);
                &&& same_store(*old(store), *final(store))
                &&& (e == UpdateUserError::NotFound <==> notfound)
                &&& (e == UpdateUserError::DuplicateEmail <==> !notfound && dup_email)
                &&& (e == UpdateUserError::DuplicateUsername <==> !notfound && !dup_email
                    && dup_username)
                &&& (e == UpdateUserError::HashFailure ==> !notfound && !dup_email
                    && !dup_username && supplied(opt_str(upd.user.password)))
            },
        },
{
    let uid = match user {
        Some(u) => u,
        None => {
            return Err(UpdateUserError::NotFound);
        },
    };
    let i = match find_user_by_id(&store.users, uid) {
        Some(i) => i,
        None => {
            return Err(UpdateUserError::NotFound);
        },
    };
    if is_supplied(&upd.user.email) {
        let taken = match &upd.user.email {
            Some(e) => email_taken(&store.users, uid, e),
            None => false,
        };
        if taken {
            return Err(UpdateUserError::DuplicateEmail);
        }
    }
    if is_supplied(&upd.user.username) {
        let taken = match &upd.user.username {
            Some(n) => username_taken(&store.users, uid, n),
            None => false,
        };
        if taken {
            return Err(UpdateUserError::DuplicateUsername);
        }
    }
    let mut new_hash: Option<String> = None;
    if is_supplied(&upd.user.password) {
        let h = match &upd.user.password {
            Some(p) => hash_password(p.as_str()),
            None => None,
        };
        match h {
            Some(h) => {
                new_hash = Some(h);
            },
            None => {
                return Err(UpdateUserError::HashFailure);
            },
        }
    }
    let token = match sm.issue(uid, now) {
        Some(t) => t,
        None => {
            proof {
                assert(false);
            }
            String::new()
        },
    };
    let u0 = &store.users[i];
    let new_username = apply_string(&u0.username, &upd.user.username);
    let new_email = apply_string(&u0.email, &upd.user.email);
    let new_bio = apply_opt(&u0.bio, &upd.user.bio);
    let new_image = apply_opt(&u0.image, &upd.user.image);
    let new_hash_final = match new_hash {
        Some(h) => h,
        None => u0.password_hash.clone(),
    };
    let u1 = UserRecord {
        id: uid,
        email: new_email,
        username: new_username,
        password_hash: new_hash_final,
        bio: new_bio,
        image: new_image,
    };
    store.users.set(i, u1);
    proof {
        let users0 = old(store).users@;
        let u1v = store.users@[i as int];
        assert forall|j: int|
            0 <= j < users0.len() && j != i as int implies #[trigger] users0[j].email@
            != u1v.email@ by {
            if supplied(opt_str(upd.user.email)) {
                assert(users0[j].id != uid) by {
                    if j < i as int {
                        assert(users0[j].id < users0[i as int].id);
                    } else {
                        assert(users0[i as int].id < users0[j].id);
                    }
                }
            } else {
                if j < i as int {
                    assert(users0[j].email@ != users0[i as int].email@);
                } else {
                    assert(users0[i as int].email@ != users0[j].email@);
                }
            }
        }
        assert forall|j: int|
            0 <= j < users0.len() && j != i as int implies #[trigger] users0[j].username@
            != u1v.username@ by {
            if supplied(opt_str(upd.user.username)) {
                assert(users0[j].id != uid) by {
                    if j < i as int {
                        assert(users0[j].id < users0[i as int].id);
                    } else {
                        assert(users0[i as int].id < users0[j].id);
                    }
                }
            } else {
                if j < i as int {
                    assert(users0[j].username@ != users0[i as int].username@);
                } else {
                    assert(users0[i as int].username@ != users0[j].username@);
                }
            }
        }
        crate::store::lemma_update_user_wf(*old(store), *store, i as int);
    }
    let u = &store.users[i];
    Ok(UserResult {
        user: User {
            email: u.email.clone(),
            token,
            username: u.username.clone(),
            bio: clone_opt_string(&u.bio),
            image: clone_opt_string(&u.image),
        },
    })
}

/// Partial update: a request that supplies none of username, email and image
/// leaves those stored columns unchanged, whatever it does to the rest.
pub proof fn lemma_partial_update_preserves_unsupplied(
    username0: Seq<char>,
    email0: Seq<char>,
    image0: Option<Seq<char>>,
    upd_username: Option<Seq<char>>,
    upd_email: Option<Seq<char>>,
    upd_image: Option<Seq<char>>,
)
    requires
        !supplied(upd_username),
        !supplied(upd_email),
        !supplied(upd_image),
    ensures
        str_apply(username0, upd_username) == username0,
        str_apply(email0, upd_email) == email0,
        opt_apply(image0, upd_image) == image0,
{
}

/// Follow `username` as `viewer`: an idempotent edge insert, answered with
/// the profile now marked as followed.
pub fn follow_handler(store: &mut Store, username: &String, viewer: Option<u64>) -> (r: Option<
    ProfileResult,
>)
    requires
        old(store).wf(),
    ensures
        final(store).wf(),
        r is None <==> (viewer is None || !has_username(old(store).users@, username@)),
        r is None ==> same_store(*old(store), *final(store)),
        r is Some ==> exists|i: int|
            {
                &&& 0 <= i < old(store).users@.len()
                &&& (#[trigger] old(store).users@[i]).username@ == username@
                &&& final(store).follows@ == crate::store::spec_add_edge(
                    old(store).follows@,
                    (viewer->0, old(store).users@[i].id),
                )
                &&& profile_matches(
                    r->0.profile,
                    old(store).users@[i],
                    viewer,
                    final(store).follows@,
                )
            },
        final(store).users@ == old(store).users@,
        final(store).articles@ == old(store).articles@,
        final(store).comments@ == old(store).comments@,
        final(store).favorites@ == old(store).favorites@,
        final(store).tags@ == old(store).tags@,
        final(store).article_tags@ == old(store).article_tags@,
        final(store).next_user_id == old(store).next_user_id,
        final(store).next_article_id == old(store).next_article_id,
        final(store).next_comment_id == old(store).next_comment_id,
{
    let v = match viewer {
        Some(v) => v,
        None => {
            return None;
        },
    };
    let i = match find_user_by_username(&store.users, username) {
        Some(i) => i,
        None => {
            return None;
        },
    };
    let fid = store.users[i].id;
    crate::store::add_edge(&mut store.follows, v, fid);
    let p = profile_dto(&store.users[i], &store.follows, viewer);
    Some(ProfileResult { profile: p })
}

/// Unfollow `username` as `viewer`: removing an absent edge is a no-op, and
/// the answer shows the profile no longer followed.
pub fn unfollow_handler(store: &mut Store, username: &String, viewer: Option<u64>) -> (r: Option<
    ProfileResult,
>)
    requires
        old(store).wf(),
    ensures
        final(store).wf(),
        r is None <==> (viewer is None || !has_username(old(store).users@, username@)),
        r is None ==> same_store(*old(store), *final(store)),
        r is Some ==> exists|i: int|
            {
                &&& 0 <= i < old(store).users@.len()
                &&& (#[trigger] old(store).users@[i]).username@ == username@
                &&& final(store).follows@ == crate::store::spec_remove_edge(
                    old(store).follows@,
                    (viewer->0, old(store).users@[i].id),
                )
                &&& profile_matches(
                    r->0.profile,
                    old(store).users@[i],
                    viewer,
                    final(store).follows@,
                )
            },
        final(store).users@ == old(store).users@,
        final(store).articles@ == old(store).articles@,
        final(store).comments@ == old(store).comments@,
        final(store).favorites@ == old(store).favorites@,
        final(store).tags@ == old(store).tags@,
        final(store).article_tags@ == old(store).article_tags@,
        final(store).next_user_id == old(store).next_user_id,
        final(store).next_article_id == old(store).next_article_id,
        final(store).next_comment_id == old(store).next_comment_id,
{
    let v = match viewer {
        Some(v) => v,
        None => {
            return None;
        },
    };
    let i = match find_user_by_username(&store.users, username) {
        Some(i) => i,
        None => {
            return None;
        },
    };
    let fid = store.users[i].id;
    crate::store::remove_edge(&mut store.follows, v, fid);
    let p = profile_dto(&store.users[i], &store.follows, viewer);
    Some(ProfileResult { profile: p })
}

} // verus!
