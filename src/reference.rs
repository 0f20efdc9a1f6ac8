use vstd::prelude::*;
use crate::error::PlanError;
use crate::runtime::{new_id, now_micros};
use crate::values::{is_blank, blank};
use crate::listing::{sort_by, sorted_by};

verus! {

/// The section of the profit-and-loss statement that an account belongs to.
#[derive(Clone, Copy, Debug, PartialEq, Eq, Structural)]
pub enum AccountType {
    Revenue,
    CostOfGoodsSold,
    SellingGeneralAdmin,
}

/// An account of the chart of accounts.
#[derive(Debug)]
pub struct AccountItem {
    pub id: u128,
    pub name: String,
    pub code: String,
    pub description: Option<String>,
    pub account_type: AccountType,
    pub display_order: i32,
    pub created_at: i64,
    pub updated_at: i64,
    pub deleted_at: Option<i64>,
}

impl AccountItem {
    /// A new account; the name and the code must not be blank.
    pub fn new(
        name: String,
        code: String,
        description: Option<String>,
        account_type: AccountType,
        display_order: i32,
    ) -> (r: Result<AccountItem, PlanError>)
        ensures
            r is Err <==> (is_blank(name@) || is_blank(code@)),
            r is Err ==> r == Err::<AccountItem, PlanError>(PlanError::ValidationError),
            r matches Ok(a) ==> {
                &&& a.name == name
                &&& a.code == code
                &&& a.description == description
                &&& a.account_type == account_type
                &&& a.display_order == display_order
                &&& a.deleted_at is None
            },
    {
        if blank(&name) || blank(&code) {
            return Err(PlanError::ValidationError);
        }
        let now = now_micros();
        Ok(AccountItem {
            id: new_id(),
            name,
            code,
            description,
            account_type,
            display_order,
            created_at: now,
            updated_at: now,
            deleted_at: None,
        })
    }

    /// A field-for-field copy.
    pub fn duplicate(&self) -> (r: AccountItem)
        ensures
            r == *self,
    {
        AccountItem {
            id: self.id,
            name: self.name.clone(),
            code: self.code.clone(),
            description: crate::values::copy_text(&self.description),
            account_type: self.account_type,
            display_order: self.display_order,
            created_at: self.created_at,
            updated_at: self.updated_at,
            deleted_at: self.deleted_at,
        }
    }
}

/// The form that a service slug must have: lower-case letters, digits and
/// hyphens, at least one.
pub const SLUG_PATTERN: &'static str = "^[a-z0-9-]+$";

/// What the regex crate answers when `text` is tested against `pattern`:
/// `None` when the pattern does not compile.
pub uninterp spec fn regex_match(pattern: Seq<char>, text: Seq<char>) -> Option<bool>;

/// A non-empty text made only of lower-case ASCII letters, digits and
/// hyphens: what `SLUG_PATTERN` matches in full.
pub open spec fn slug_form(t: Seq<char>) -> bool {
    &&& t.len() > 0
    &&& forall|i: int| 0 <= i < t.len() ==> {
        let c = #[trigger] t[i];
        ('a' <= c && c <= 'z') || ('0' <= c && c <= '9') || c == '-'
    }
}

/// Relies on regex's `Regex::new` (compiling the pattern) and
/// `Regex::is_match` (testing the text); `^` and `$` anchor at the ends of
/// the text, so the slug pattern matches exactly the texts of `slug_form`.
#[verifier::external_body]
fn regex_is_match(pattern: &str, text: &str) -> (r: Option<bool>)
    ensures
        r == regex_match(pattern@, text@),
        pattern@ == SLUG_PATTERN@ ==> r == Some(slug_form(text@)),
{
    match regex::Regex::new(pattern) {
        Ok(re) => Some(re.is_match(text)),
        Err(_) => None,
    }
}

/// A business line that entity nodes are bound to.
#[derive(Debug)]
pub struct Service {
    pub id: u128,
    pub name: String,
    pub slug: String,
    pub display_order: i32,
    pub created_at: i64,
    pub updated_at: i64,
    pub deleted_at: Option<i64>,
}

impl Service {
    /// A new service; the name must not be blank and the slug must have the
    /// form of `SLUG_PATTERN`.
    pub fn new(name: String, slug: String, display_order: i32) -> (r: Result<Service, PlanError>)
        ensures
            r is Err <==> (is_blank(name@) || !slug_form(slug@)),
            r is Err ==> r == Err::<Service, PlanError>(PlanError::ValidationError),
            r matches Ok(s) ==> s.name == name && s.slug == slug && s.display_order == display_order,
    {
        let slug_form = regex_is_match(SLUG_PATTERN, slug.as_str());
        Service::checked(name, slug, display_order, slug_form)
    }

    /// A new service, given what the slug test answered.
    pub fn checked(name: String, slug: String, display_order: i32, slug_form: Option<bool>) -> (r: Result<
        Service,
        PlanError,
    >)
        ensures
            r is Err <==> (is_blank(name@) || slug_form != Some(true)),
            r is Err ==> r == Err::<Service, PlanError>(PlanError::ValidationError),
            r matches Ok(s) ==> s.name == name && s.slug == slug && s.display_order == display_order,
    {
        if blank(&name) {
            return Err(PlanError::ValidationError);
        }
        match slug_form {
            Some(true) => {},
            _ => return Err(PlanError::ValidationError),
        }
        let now = now_micros();
        Ok(Service { id: new_id(), name, slug, display_order, created_at: now, updated_at: now, deleted_at: None })
    }

    /// A field-for-field copy.
    pub fn duplicate(&self) -> (r: Service)
        ensures
            r == *self,
    {
        Service {
            id: self.id,
            name: self.name.clone(),
            slug: self.slug.clone(),
            display_order: self.display_order,
            created_at: self.created_at,
            updated_at: self.updated_at,
            deleted_at: self.deleted_at,
        }
    }
}

/// What a user may do.
#[derive(Clone, Copy, Debug, PartialEq, Eq, Structural)]
pub enum UserRole {
    Admin,
    Manager,
    Member,
}

/// A person who signs in.
#[derive(Debug)]
pub struct User {
    pub id: u128,
    pub name: String,
    pub email: String,
    /// Absent for users who sign in elsewhere.
    pub password_hash: Option<String>,
    pub role: UserRole,
    pub created_at: i64,
    pub updated_at: i64,
}

impl User {
    /// A new member; the name must not be blank.
    pub fn new(name: String, email: String, password_hash: String) -> (r: Result<User, PlanError>)
        ensures
            r is Err <==> is_blank(name@),
            r is Err ==> r == Err::<User, PlanError>(PlanError::ValidationError),
            r matches Ok(u) ==> {
                &&& u.name == name
                &&& u.email == email
                &&& u.password_hash == Some(password_hash)
                &&& u.role == UserRole::Member
            },
    {
        if blank(&name) {
            return Err(PlanError::ValidationError);
        }
        let now = now_micros();
        Ok(User {
            id: new_id(),
            name,
            email,
            password_hash: Some(password_hash),
            role: UserRole::Member,
            created_at: now,
            updated_at: now,
        })
    }

    /// A field-for-field copy.
    pub fn duplicate(&self) -> (r: User)
        ensures
            r == *self,
    {
        User {
            id: self.id,
            name: self.name.clone(),
            email: self.email.clone(),
            password_hash: crate::values::copy_text(&self.password_hash),
            role: self.role,
            created_at: self.created_at,
            updated_at: self.updated_at,
        }
    }

    pub fn is_admin(&self) -> (r: bool)
        ensures
            r == (self.role == UserRole::Admin),
    {
        self.role == UserRole::Admin
    }
}

/// What argon2 answers when `password` is checked against the stored hash
/// `hash`: `None` when the hash does not parse.
pub uninterp spec fn argon2_verifies(password: Seq<char>, hash: Seq<char>) -> Option<bool>;

/// Relies on argon2: `PasswordHash::new` parses the stored hash and
/// `Argon2::verify_password` checks the password against it.
#[verifier::external_body]
fn password_verifies(password: &str, hash: &str) -> (r: Option<bool>)
    ensures
        r == argon2_verifies(password@, hash@),
{
    match argon2::PasswordHash::new(hash) {
        Ok(h) => Some(argon2::PasswordVerifier::verify_password(&argon2::Argon2::default(), password.as_bytes(), &h).is_ok()),
        Err(_) => None,
    }
}

/// The stored reference data: accounts, services and users.
pub struct ReferenceStore {
    pub account_items: Vec<AccountItem>,
    pub services: Vec<Service>,
    pub users: Vec<User>,
}

impl ReferenceStore {
    /// Slugs and e-mail addresses are unique.
    pub open spec fn wf(self) -> bool {
        &&& forall|i: int, j: int| 0 <= i < self.services@.len() && 0 <= j < self.services@.len() && i != j
            ==> self.services@[i].slug@ != self.services@[j].slug@
        &&& forall|i: int, j: int| 0 <= i < self.users@.len() && 0 <= j < self.users@.len() && i != j
            ==> self.users@[i].email@ != self.users@[j].email@
    }

    /// Some service has this slug.
    pub open spec fn has_slug(self, slug: Seq<char>) -> bool {
        exists|i: int| 0 <= i < self.services@.len() && self.services@[i].slug@ == slug
    }

    /// Some user has this e-mail address.
    pub open spec fn has_email(self, email: Seq<char>) -> bool {
        exists|i: int| 0 <= i < self.users@.len() && self.users@[i].email@ == email
    }

    pub fn new() -> (r: ReferenceStore)
        ensures
            r.wf(),
            r.account_items@.len() == 0,
            r.services@.len() == 0,
            r.users@.len() == 0,
    {
        ReferenceStore { account_items: Vec::new(), services: Vec::new(), users: Vec::new() }
    }

    fn find_slug(&self, slug: &String) -> (r: bool)
        ensures
            r == self.has_slug(slug@),
    {
        let mut i: usize = 0;
        while i < self.services.len()
            invariant
                i <= self.services@.len(),
                forall|k: int| 0 <= k < i ==> self.services@[k].slug@ != slug@,
            decreases self.services@.len() - i,
        {
            if String::eq(&self.services[i].slug, slug) {
                return true;
            }
            i += 1;
        }
        false
    }

    /// The user with this identifier, if there is one.
    pub fn user_by_id(&self, id: u128) -> (r: Option<User>)
        ensures
            r matches Some(u) ==> u.id == id && exists|i: int| 0 <= i < self.users@.len() && self.users@[i] == u,
            r is None ==> forall|i: int| 0 <= i < self.users@.len() ==> self.users@[i].id != id,
    {
        let mut i: usize = 0;
        while i < self.users.len()
            invariant
                i <= self.users@.len(),
                forall|k: int| 0 <= k < i ==> self.users@[k].id != id,
            decreases self.users@.len() - i,
        {
            if self.users[i].id == id {
                return Some(self.users[i].duplicate());
            }
            i += 1;
        }
        None
    }

    /// Where the user with this e-mail address is stored.
    fn find_email(&self, email: &String) -> (r: Option<usize>)
        ensures
            r matches Some(i) ==> i < self.users@.len() && self.users@[i as int].email@ == email@,
            r is None ==> !self.has_email(email@),
    {
        let mut i: usize = 0;
        while i < self.users.len()
            invariant
                i <= self.users@.len(),
                forall|k: int| 0 <= k < i ==> self.users@[k].email@ != email@,
            decreases self.users@.len() - i,
        {
            if String::eq(&self.users[i].email, email) {
                return Some(i);
            }
            i += 1;
        }
        None
    }
}

/// Creation and listing of accounts.
pub struct AccountItemService {}

impl AccountItemService {
    pub fn new() -> (r: AccountItemService) {
        AccountItemService {}
    }

    /// Stores a new account.
    pub fn create(
        &self,
        store: &mut ReferenceStore,
        name: String,
        code: String,
        description: Option<String>,
        account_type: AccountType,
        display_order: i32,
    ) -> (r: Result<AccountItem, PlanError>)
        requires
            old(store).wf(),
        ensures
            final(store).wf(),
            r is Err <==> (is_blank(name@) || is_blank(code@)),
            r is Err ==> r == Err::<AccountItem, PlanError>(PlanError::ValidationError) && *final(store) == *old(store),
            r matches Ok(a) ==> {
                &&& final(store).account_items@.len() == old(store).account_items@.len() + 1
                &&& final(store).account_items@.last() == a
                &&& final(store).account_items@.drop_last() == old(store).account_items@
                &&& final(store).services == old(store).services
                &&& final(store).users == old(store).users
                &&& a.name == name
                &&& a.code == code
                &&& a.account_type == account_type
                &&& a.display_order == display_order
            },
    {
        let item = AccountItem::new(name, code, description, account_type, display_order)?;
        let ghost pre = store.account_items@;
        store.account_items.push(item.duplicate());
        assert(store.account_items@.drop_last() == pre);
        Ok(item)
    }

    /// The accounts that are not deleted, by display order.
    pub fn list_all(&self, store: &ReferenceStore) -> (r: Vec<AccountItem>)
        ensures
            sorted_by(r@, |a: AccountItem, b: AccountItem| a.display_order <= b.display_order),
            r@.to_multiset() == store.account_items@.filter(|a: AccountItem| a.deleted_at is None).to_multiset(),
    {
        let ghost pred = |a: AccountItem| a.deleted_at is None;
        let mut out: Vec<AccountItem> = Vec::new();
        let mut i: usize = 0;
        while i < store.account_items.len()
            invariant
                i <= store.account_items@.len(),
                pred == (|a: AccountItem| a.deleted_at is None),
                out@ == store.account_items@.subrange(0, i as int).filter(pred),
            decreases store.account_items@.len() - i,
        {
            proof {
                let s = store.account_items@;
                assert(s.subrange(0, i + 1) == s.subrange(0, i as int).push(s[i as int]));
                s.subrange(0, i as int).lemma_filter_push(s[i as int], pred);
            }
            if store.account_items[i].deleted_at.is_none() {
                out.push(store.account_items[i].duplicate());
            }
            i += 1;
        }
        assert(store.account_items@.subrange(0, i as int) == store.account_items@);
        let le = |a: &AccountItem, b: &AccountItem| -> (r: bool)
            ensures
                r == (a.display_order <= b.display_order),
            { a.display_order <= b.display_order };
        sort_by(out, &le, Ghost(|a: AccountItem, b: AccountItem| a.display_order <= b.display_order))
    }
}

/// Creation and listing of services.
pub struct ServiceService {}

impl ServiceService {
    pub fn new() -> (r: ServiceService) {
        ServiceService {}
    }

    /// Stores a new service whose slug no other service has.
    pub fn create(&self, store: &mut ReferenceStore, name: String, slug: String, display_order: i32) -> (r: Result<
        Service,
        PlanError,
    >)
        requires
            old(store).wf(),
        ensures
            final(store).wf(),
            r is Err <==> (old(store).has_slug(slug@) || is_blank(name@) || !slug_form(slug@)),
            r is Err ==> r == Err::<Service, PlanError>(PlanError::ValidationError) && *final(store) == *old(store),
            r matches Ok(s) ==> {
                &&& final(store).services@.len() == old(store).services@.len() + 1
                &&& final(store).services@.drop_last() == old(store).services@
                &&& final(store).services@.last() == s
                &&& final(store).account_items == old(store).account_items
                &&& final(store).users == old(store).users
                &&& s.name == name
                &&& s.slug == slug
                &&& s.display_order == display_order
            },
    {
        if store.find_slug(&slug) {
            return Err(PlanError::ValidationError);
        }
        let service = Service::new(name, slug, display_order)?;
        let ghost pre = store.services@;
        store.services.push(service.duplicate());
        assert(store.services@.drop_last() == pre);
        Ok(service)
    }

    /// The services that are not deleted, by display order.
    pub fn list_all(&self, store: &ReferenceStore) -> (r: Vec<Service>)
        ensures
            sorted_by(r@, |a: Service, b: Service| a.display_order <= b.display_order),
            r@.to_multiset() == store.services@.filter(|a: Service| a.deleted_at is None).to_multiset(),
    {
        let ghost pred = |a: Service| a.deleted_at is None;
        let mut out: Vec<Service> = Vec::new();
        let mut i: usize = 0;
        while i < store.services.len()
            invariant
                i <= store.services@.len(),
                pred == (|a: Service| a.deleted_at is None),
                out@ == store.services@.subrange(0, i as int).filter(pred),
            decreases store.services@.len() - i,
        {
            proof {
                let s = store.services@;
                assert(s.subrange(0, i + 1) == s.subrange(0, i as int).push(s[i as int]));
                s.subrange(0, i as int).lemma_filter_push(s[i as int], pred);
            }
            if store.services[i].deleted_at.is_none() {
                out.push(store.services[i].duplicate());
            }
            i += 1;
        }
        assert(store.services@.subrange(0, i as int) == store.services@);
        let le = |a: &Service, b: &Service| -> (r: bool)
            ensures
                r == (a.display_order <= b.display_order),
            { a.display_order <= b.display_order };
        sort_by(out, &le, Ghost(|a: Service, b: Service| a.display_order <= b.display_order))
    }
}

/// The user with this e-mail address, if there is one.
pub open spec fn user_with_email(store: ReferenceStore, email: Seq<char>) -> Option<User> {
    if store.has_email(email) {
        Some(store.users@[choose|i: int| 0 <= i < store.users@.len() && store.users@[i].email@ == email])
    } else {
        None
    }
}

/// Whether these credentials match a user that signs in with a password.
pub open spec fn credentials_match(store: ReferenceStore, email: Seq<char>, password: Seq<char>) -> bool {
    match user_with_email(store, email) {
        Some(u) => match u.password_hash {
            Some(h) => argon2_verifies(password, h@) == Some(true),
            None => false,
        },
        None => false,
    }
}

/// Sign-up and sign-in of users.
pub struct AuthService {}

impl AuthService {
    pub fn new() -> (r: AuthService) {
        AuthService {}
    }

    /// Stores a new member under an e-mail address that no user has yet;
    /// `password_hash` is the hash of the chosen password.
    pub fn signup(&self, store: &mut ReferenceStore, name: String, email: String, password_hash: String) -> (r: Result<
        User,
        PlanError,
    >)
        requires
            old(store).wf(),
        ensures
            final(store).wf(),
            r is Err <==> (old(store).has_email(email@) || is_blank(name@)),
            r is Err ==> r == Err::<User, PlanError>(PlanError::ValidationError) && *final(store) == *old(store),
            r matches Ok(u) ==> {
                &&& final(store).users@ == old(store).users@.push(u)
                &&& final(store).account_items == old(store).account_items
                &&& final(store).services == old(store).services
                &&& u.name == name
                &&& u.email == email
                &&& u.password_hash == Some(password_hash)
                &&& u.role == UserRole::Member
            },
    {
        if store.find_email(&email).is_some() {
            return Err(PlanError::ValidationError);
        }
        let user = User::new(name, email, password_hash)?;
        store.users.push(user.duplicate());
        Ok(user)
    }

    /// The user that these credentials belong to.
    pub fn login(&self, store: &ReferenceStore, email: String, password: String) -> (r: Result<User, PlanError>)
        requires
            store.wf(),
        ensures
            r is Ok <==> credentials_match(*store, email@, password@),
            r is Err ==> r == Err::<User, PlanError>(PlanError::InvalidCredentials),
            r matches Ok(u) ==> user_with_email(*store, email@) == Some(u),
    {
        let verdict = match store.find_email(&email) {
            None => None,
            Some(i) => match &store.users[i].password_hash {
                None => None,
                Some(h) => password_verifies(password.as_str(), h.as_str()),
            },
        };
        proof {
            if store.has_email(email@) {
                let c = choose|k: int| 0 <= k < store.users@.len() && store.users@[k].email@ == email@;
                assert forall|k: int| 0 <= k < store.users@.len() && store.users@[k].email@ == email@ implies k == c by {}
            }
        }
        self.login_checked(store, &email, verdict)
    }

    /// The user with this e-mail address, given what the password check
    /// answered for it: only a positive answer for a user with a password
    /// signs in.
    pub fn login_checked(&self, store: &ReferenceStore, email: &String, verdict: Option<bool>) -> (r: Result<User, PlanError>)
        requires
            store.wf(),
        ensures
            r is Ok <==> (user_with_email(*store, email@) matches Some(u) && u.password_hash is Some && verdict == Some(true)),
            r is Err ==> r == Err::<User, PlanError>(PlanError::InvalidCredentials),
            r matches Ok(u) ==> user_with_email(*store, email@) == Some(u),
    {
        let i = match store.find_email(email) {
            None => return Err(PlanError::InvalidCredentials),
            Some(i) => i,
        };
        proof {
            let c = choose|k: int| 0 <= k < store.users@.len() && store.users@[k].email@ == email@;
            assert(c == i as int);
        }
        if store.users[i].password_hash.is_none() {
            return Err(PlanError::InvalidCredentials);
        }
        match verdict {
            Some(true) => Ok(store.users[i].duplicate()),
            _ => Err(PlanError::InvalidCredentials),
        }
    }
}

} // verus!
