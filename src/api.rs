use vstd::prelude::*;

use crate::bucket::BucketMetadata;
use crate::policy::{evaluate, verdict_of, Credentials, DenyReason, Grant, Policy, Rights, Verdict};
use crate::registry::{after_insert, after_remove, has_name, lookup, Registry, RegistryError};

verus! {

/// What a request can fail with, as its caller sees it.
#[derive(Clone, Debug, PartialEq, Eq)]
pub enum HttpError {
    AuthorizationDenied(DenyReason),
    NotFound(String),
    AlreadyExists(String),
    BackingStoreFailure,
}

/// The status code that answers each error.
pub open spec fn status_of(e: HttpError) -> u16 {
    match e {
        HttpError::AuthorizationDenied(DenyReason::NotAuthenticated) => 401,
        HttpError::AuthorizationDenied(DenyReason::MissingRight) => 403,
        HttpError::NotFound(_) => 404,
        HttpError::AlreadyExists(_) => 409,
        HttpError::BackingStoreFailure => 500,
    }
}

impl HttpError {
    pub fn status(&self) -> (r: u16)
        ensures
            r == status_of(*self),
    {
        match self {
            HttpError::AuthorizationDenied(DenyReason::NotAuthenticated) => 401,
            HttpError::AuthorizationDenied(DenyReason::MissingRight) => 403,
            HttpError::NotFound(_) => 404,
            HttpError::AlreadyExists(_) => 409,
            HttpError::BackingStoreFailure => 500,
        }
    }

    /// The error that a refused registry operation shows its caller.
    pub fn from_registry(e: RegistryError) -> (r: HttpError)
        ensures
            e matches RegistryError::NotFound(k) ==> r == HttpError::NotFound(k),
            e matches RegistryError::AlreadyExists(k) ==> r == HttpError::AlreadyExists(k),
    {
        match e {
            RegistryError::NotFound(k) => HttpError::NotFound(k),
            RegistryError::AlreadyExists(k) => HttpError::AlreadyExists(k),
        }
    }
}

/// The body of a listing: one descriptor per bucket.
#[derive(Clone, Debug, PartialEq, Eq)]
pub struct BucketInfoList {
    pub buckets: Vec<BucketMetadata>,
}

/// What a policy check answers: nothing on success, the denial otherwise.
pub open spec fn permission_outcome(
    policy: Policy,
    creds: Credentials,
    grants: Seq<Grant>,
) -> Result<(), HttpError> {
    match verdict_of(policy, creds, grants) {
        Verdict::Allow => Ok(()),
        Verdict::Deny(reason) => Err(HttpError::AuthorizationDenied(reason)),
    }
}

/// What listing answers: every entry when the caller is authenticated.
pub open spec fn list_outcome(
    creds: Credentials,
    grants: Seq<Grant>,
    entries: Seq<BucketMetadata>,
) -> Result<Seq<BucketMetadata>, HttpError> {
    match verdict_of(Policy::Authenticated, creds, grants) {
        Verdict::Allow => Ok(entries),
        Verdict::Deny(reason) => Err(HttpError::AuthorizationDenied(reason)),
    }
}

/// The entries after a creation request: unchanged when it is denied.
pub open spec fn create_effect(
    policy: Policy,
    creds: Credentials,
    grants: Seq<Grant>,
    entries: Seq<BucketMetadata>,
    meta: BucketMetadata,
) -> Seq<BucketMetadata> {
    if verdict_of(policy, creds, grants) == Verdict::Allow {
        after_insert(entries, meta)
    } else {
        entries
    }
}

/// The entries after a removal request: unchanged when it is denied.
pub open spec fn remove_effect(
    policy: Policy,
    creds: Credentials,
    grants: Seq<Grant>,
    entries: Seq<BucketMetadata>,
    name: Seq<char>,
) -> Seq<BucketMetadata> {
    if verdict_of(policy, creds, grants) == Verdict::Allow {
        after_remove(entries, name)
    } else {
        entries
    }
}

/// A listing request that its policy denies answers the same whatever the
/// registry holds: nothing of the registry is read.
pub proof fn lemma_denied_list_ignores_registry(
    creds: Credentials,
    grants: Seq<Grant>,
    a: Seq<BucketMetadata>,
    b: Seq<BucketMetadata>,
)
    requires
        verdict_of(Policy::Authenticated, creds, grants) is Deny,
    ensures
        list_outcome(creds, grants, a) == list_outcome(creds, grants, b),
        list_outcome(creds, grants, a) == Err::<Seq<BucketMetadata>, HttpError>(
            HttpError::AuthorizationDenied(DenyReason::NotAuthenticated),
        ),
{
}

/// A write request that its policy denies leaves the registry as it was.
pub proof fn lemma_denied_writes_leave_registry(
    policy: Policy,
    creds: Credentials,
    grants: Seq<Grant>,
    entries: Seq<BucketMetadata>,
    meta: BucketMetadata,
    name: Seq<char>,
)
    requires
        verdict_of(policy, creds, grants) is Deny,
    ensures
        create_effect(policy, creds, grants, entries, meta) == entries,
        remove_effect(policy, creds, grants, entries, name) == entries,
{
}

/// Evaluates `policy` for `creds` and turns a denial into an error.
pub fn check_permissions(policy: &Policy, creds: &Credentials, rights: &Rights) -> (r: Result<
    (),
    HttpError,
>)
    ensures
        r == permission_outcome(*policy, *creds, rights@),
{
    match evaluate(policy, creds, rights) {
        Verdict::Allow => Ok(()),
        Verdict::Deny(reason) => Err(HttpError::AuthorizationDenied(reason)),
    }
}

/// Lists every bucket for an authenticated caller. The registry is read
/// only after the policy has allowed the request.
pub fn list(registry: &Registry, creds: &Credentials, rights: &Rights) -> (r: Result<
    BucketInfoList,
    HttpError,
>)
    ensures
        r matches Ok(l) ==> list_outcome(*creds, rights@, registry@) == Ok::<
            Seq<BucketMetadata>,
            HttpError,
        >(l.buckets@),
        r matches Err(e) ==> list_outcome(*creds, rights@, registry@) == Err::<
            Seq<BucketMetadata>,
            HttpError,
        >(e),
{
    match check_permissions(&Policy::Authenticated, creds, rights) {
        Err(e) => Err(e),
        Ok(()) => Ok(BucketInfoList { buckets: registry.list() }),
    }
}

/// Copies the bucket called `name`, if `policy` allows the caller.
pub fn get_bucket(
    registry: &Registry,
    policy: &Policy,
    creds: &Credentials,
    rights: &Rights,
    name: &str,
) -> (r: Result<BucketMetadata, HttpError>)
    requires
        registry.wf(),
    ensures
        verdict_of(*policy, *creds, rights@) matches Verdict::Deny(reason) ==> r == Err::<
            BucketMetadata,
            HttpError,
        >(HttpError::AuthorizationDenied(reason)),
        verdict_of(*policy, *creds, rights@) == Verdict::Allow ==> {
            &&& r is Ok <==> has_name(registry@, name@)
            &&& r matches Ok(m) ==> lookup(registry@, name@) == Some(m)
            &&& r matches Err(e) ==> e matches HttpError::NotFound(k) && k@ == name@
        },
{
    check_permissions(policy, creds, rights)?;
    match registry.get(name) {
        Ok(m) => Ok(m),
        Err(e) => Err(HttpError::from_registry(e)),
    }
}

/// Adds `meta` to the registry, if `policy` allows the caller and the name is
/// free.
pub fn create_bucket(
    registry: &mut Registry,
    policy: &Policy,
    creds: &Credentials,
    rights: &Rights,
    meta: BucketMetadata,
) -> (r: Result<(), HttpError>)
    requires
        old(registry).wf(),
    ensures
        final(registry).wf(),
        final(registry)@ == create_effect(*policy, *creds, rights@, old(registry)@, meta),
        verdict_of(*policy, *creds, rights@) matches Verdict::Deny(reason) ==> r == Err::<
            (),
            HttpError,
        >(HttpError::AuthorizationDenied(reason)),
        verdict_of(*policy, *creds, rights@) == Verdict::Allow ==> {
            &&& r is Err <==> has_name(old(registry)@, meta.name@)
            &&& r matches Err(e) ==> e matches HttpError::AlreadyExists(k) && k@ == meta.name@
        },
{
    check_permissions(policy, creds, rights)?;
    match registry.insert(meta) {
        Ok(()) => Ok(()),
        Err(e) => Err(HttpError::from_registry(e)),
    }
}

/// Removes the bucket called `name`, if `policy` allows the caller and the
/// bucket exists.
pub fn remove_bucket(
    registry: &mut Registry,
    policy: &Policy,
    creds: &Credentials,
    rights: &Rights,
    name: &str,
) -> (r: Result<(), HttpError>)
    requires
        old(registry).wf(),
    ensures
        final(registry).wf(),
        final(registry)@ == remove_effect(*policy, *creds, rights@, old(registry)@, name@),
        verdict_of(*policy, *creds, rights@) matches Verdict::Deny(reason) ==> r == Err::<
            (),
            HttpError,
        >(HttpError::AuthorizationDenied(reason)),
        verdict_of(*policy, *creds, rights@) == Verdict::Allow ==> {
            &&& r is Err <==> !has_name(old(registry)@, name@)
            &&& r matches Err(e) ==> e matches HttpError::NotFound(k) && k@ == name@
        },
{
    check_permissions(policy, creds, rights)?;
    match registry.remove(name) {
        Ok(()) => Ok(()),
        Err(e) => Err(HttpError::from_registry(e)),
    }
}

/// Publishes a bucket whose creation was already allowed, once the storage
/// engine has answered: a failed persist leaves the registry unchanged.
pub fn commit_create(registry: &mut Registry, meta: BucketMetadata, persisted: bool) -> (r: Result<
    (),
    HttpError,
>)
    requires
        old(registry).wf(),
    ensures
        final(registry).wf(),
        !persisted ==> r == Err::<(), HttpError>(HttpError::BackingStoreFailure) && final(registry)@
            == old(registry)@,
        persisted ==> final(registry)@ == after_insert(old(registry)@, meta),
        persisted ==> (r is Err <==> has_name(old(registry)@, meta.name@)),
        persisted ==> (r matches Err(e) ==> e matches HttpError::AlreadyExists(k) && k@ == meta.name@),
{
    if !persisted {
        return Err(HttpError::BackingStoreFailure);
    }
    match registry.insert(meta) {
        Ok(()) => Ok(()),
        Err(e) => Err(HttpError::from_registry(e)),
    }
}

} // verus!
