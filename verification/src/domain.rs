//! The domain vocabulary: user records, the failure taxonomy, the
//! storage-agnostic store contract, and the laws the contract obeys.

use vstd::prelude::*;

verus! {

/// The closed set of domain failures shared by the credential store and the
/// token verifier. Each is a terminal outcome for its operation; none is
/// retried inside the core.
#[derive(Clone, Copy, Debug, PartialEq, Eq, Structural)]
pub enum AuthError {
    /// `add_user` found a record under the same email.
    UserAlreadyExists,
    /// `get_user` or `validate_user` found no record under the email.
    UserNotFound,
    /// `validate_user` found the record but the password did not match.
    InvalidCredentials,
    /// The token verifier rejected the presented token.
    InvalidToken,
}

/// The record a credential store manages.
#[derive(Clone, Debug, PartialEq, Eq)]
pub struct User {
    /// The unique identifying key across a store. Lookup is an exact match:
    /// no trimming and no case normalization is performed.
    pub email: String,
    /// The secret, stored as given.
    pub password: String,
    /// Informational flag; the store itself does not enforce it.
    pub requires_2fa: bool,
}

/// The mathematical value of a [`User`]: both strings as character
/// sequences, plus the flag.
#[verifier::ext_equal]
pub ghost struct UserView {
    pub email: Seq<char>,
    pub password: Seq<char>,
    pub requires_2fa: bool,
}

impl View for User {
    type V = UserView;

    open spec fn view(&self) -> UserView {
        UserView { email: self.email@, password: self.password@, requires_2fa: self.requires_2fa }
    }
}

impl User {
    pub fn new(email: String, password: String, requires_2fa: bool) -> (user: User)
        ensures
            user@ == (UserView { email: email@, password: password@, requires_2fa }),
    {
        User { email, password, requires_2fa }
    }
}

/// What `add_user` returns when the store holds `users`: the addition is
/// refused exactly when the email is already present.
pub open spec fn add_result(users: Map<Seq<char>, UserView>, user: UserView) -> Result<
    (),
    AuthError,
> {
    if users.dom().contains(user.email) {
        Err(AuthError::UserAlreadyExists)
    } else {
        Ok(())
    }
}

/// The store contents after `add_user`: unchanged on a duplicate email,
/// extended by the new record otherwise.
pub open spec fn add_post(users: Map<Seq<char>, UserView>, user: UserView) -> Map<
    Seq<char>,
    UserView,
> {
    if users.dom().contains(user.email) {
        users
    } else {
        users.insert(user.email, user)
    }
}

/// What `get_user` returns when the store holds `users`.
pub open spec fn get_result(users: Map<Seq<char>, UserView>, email: Seq<char>) -> Result<
    UserView,
    AuthError,
> {
    if users.dom().contains(email) {
        Ok(users[email])
    } else {
        Err(AuthError::UserNotFound)
    }
}

/// What `validate_user` returns when the store holds `users`: absence of the
/// email dominates, then the password is compared exactly.
pub open spec fn validate_result(
    users: Map<Seq<char>, UserView>,
    email: Seq<char>,
    password: Seq<char>,
) -> Result<(), AuthError> {
    if !users.dom().contains(email) {
        Err(AuthError::UserNotFound)
    } else if users[email].password == password {
        Ok(())
    } else {
        Err(AuthError::InvalidCredentials)
    }
}

/// The storage-agnostic contract any credential backend must satisfy.
/// Callers are polymorphic over this trait, never over a concrete backend.
pub trait UserStore: Sized {
    /// The backend's internal invariant.
    spec fn wf(&self) -> bool;

    /// The records the backend holds, keyed by email.
    spec fn users(&self) -> Map<Seq<char>, UserView>;

    /// Inserts `user` unless its email is already present; a duplicate email
    /// leaves the existing record untouched.
    fn add_user(&mut self, user: User) -> (result: Result<(), AuthError>)
        requires
            old(self).wf(),
        ensures
            final(self).wf(),
            result == add_result(old(self).users(), user@),
            final(self).users() == add_post(old(self).users(), user@),
    ;

    /// Reads the record stored under `email`, without mutating anything.
    fn get_user(&self, email: &str) -> (result: Result<&User, AuthError>)
        requires
            self.wf(),
        ensures
            match result {
                Ok(user) => get_result(self.users(), email@) == Ok::<UserView, AuthError>(user@),
                Err(e) => get_result(self.users(), email@) == Err::<UserView, AuthError>(e),
            },
    ;

    /// Checks the presented password against the record stored under `email`,
    /// answering yes or no without exposing the record.
    fn validate_user(&self, email: &str, password: &str) -> (result: Result<(), AuthError>)
        requires
            self.wf(),
        ensures
            result == validate_result(self.users(), email@, password@),
    ;
}

/// Uniqueness law: the first addition of an email succeeds, and any later
/// addition of the same email fails with `UserAlreadyExists` and leaves the
/// store unchanged — so at most one record per email ever exists.
pub proof fn lemma_add_user_uniqueness(
    users: Map<Seq<char>, UserView>,
    first: UserView,
    later: UserView,
)
    requires
        !users.dom().contains(first.email),
        later.email == first.email,
    ensures
        add_result(users, first) == Ok::<(), AuthError>(()),
        add_result(add_post(users, first), later) == Err::<(), AuthError>(
            AuthError::UserAlreadyExists,
        ),
        add_post(add_post(users, first), later) == add_post(users, first),
{
}

/// The store contents after a run of additions, applied in order.
pub open spec fn add_all(users: Map<Seq<char>, UserView>, additions: Seq<UserView>) -> Map<
    Seq<char>,
    UserView,
>
    decreases additions.len(),
{
    if additions.len() == 0 {
        users
    } else {
        add_post(add_all(users, additions.drop_last()), additions.last())
    }
}

/// How many of a run of additions, applied in order, succeed.
pub open spec fn successful_adds(users: Map<Seq<char>, UserView>, additions: Seq<UserView>) -> int
    decreases additions.len(),
{
    if additions.len() == 0 {
        0
    } else {
        successful_adds(users, additions.drop_last()) + (
        if add_result(add_all(users, additions.drop_last()), additions.last()) == Ok::<
            (),
            AuthError,
        >(()) {
            1int
        } else {
            0int
        })
    }
}

/// Serialized-additions law, the sequential core of concurrency safety:
/// additions racing on one email are serialized by the store's exclusive
/// writer access, and in any serialization order exactly one of them
/// succeeds, every other observes `UserAlreadyExists`, and the record kept
/// is the winner's — no record is lost or corrupted.
pub proof fn lemma_serialized_adds(
    users: Map<Seq<char>, UserView>,
    additions: Seq<UserView>,
    email: Seq<char>,
)
    requires
        !users.dom().contains(email),
        additions.len() > 0,
        forall|i: int| 0 <= i < additions.len() ==> additions[i].email == email,
    ensures
        successful_adds(users, additions) == 1,
        add_all(users, additions) == users.insert(email, additions.first()),
    decreases additions.len(),
{
    let prefix = additions.drop_last();
    assert(forall|i: int| 0 <= i < prefix.len() ==> prefix[i] == additions[i]);
    if additions.len() == 1 {
        assert(additions.last() == additions.first());
        assert(add_all(users, prefix) == users);
        assert(successful_adds(users, prefix) == 0);
        assert(add_result(users, additions.last()) == Ok::<(), AuthError>(()));
    } else {
        lemma_serialized_adds(users, prefix, email);
        assert(add_all(users, prefix).dom().contains(email));
        assert(additions.last().email == email);
        assert(add_result(add_all(users, prefix), additions.last()) == Err::<(), AuthError>(
            AuthError::UserAlreadyExists,
        ));
        assert(prefix.first() == additions.first());
    }
}

/// Retrieval round-trip law: after an addition succeeds, a lookup of the
/// added email returns a record equal to the one added, in all fields.
pub proof fn lemma_add_get_round_trip(users: Map<Seq<char>, UserView>, user: UserView)
    requires
        add_result(users, user) == Ok::<(), AuthError>(()),
    ensures
        get_result(add_post(users, user), user.email) == Ok::<UserView, AuthError>(user),
{
}

/// Validation correctness law: the stored password validates, any other
/// password is rejected as `InvalidCredentials`, and an unknown email is
/// rejected as `UserNotFound`.
pub proof fn lemma_validation_correctness(
    users: Map<Seq<char>, UserView>,
    email: Seq<char>,
    attempt: Seq<char>,
)
    ensures
        users.dom().contains(email) && users[email].password == attempt ==> validate_result(
            users,
            email,
            attempt,
        ) == Ok::<(), AuthError>(()),
        users.dom().contains(email) && users[email].password != attempt ==> validate_result(
            users,
            email,
            attempt,
        ) == Err::<(), AuthError>(AuthError::InvalidCredentials),
        !users.dom().contains(email) ==> validate_result(users, email, attempt) == Err::<
            (),
            AuthError,
        >(AuthError::UserNotFound),
{
}

} // verus!
