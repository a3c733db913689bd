use bucket_registry::api::{
    check_permissions, commit_create, create_bucket, get_bucket, list, remove_bucket, HttpError,
};
use bucket_registry::bucket::BucketMetadata;
use bucket_registry::policy::{evaluate, Action, Credentials, DenyReason, Policy, Rights, Verdict};
use bucket_registry::registry::{Registry, RegistryError};

fn registry_with(names: &[&str]) -> Registry {
    let mut r = Registry::new();
    for (i, n) in names.iter().enumerate() {
        r.insert(BucketMetadata::new(n, i as u64)).unwrap();
    }
    r
}

fn names(list: &[BucketMetadata]) -> Vec<String> {
    let mut v: Vec<String> = list.iter().map(|m| m.name.clone()).collect();
    v.sort();
    v
}

fn admin() -> Credentials {
    Credentials::Principal("admin".to_string())
}

#[test]
fn test_list() {
    let registry = registry_with(&["bucket-1", "bucket-2"]);
    let list = list(&registry, &admin(), &Rights::new()).unwrap();
    assert_eq!(list.buckets.len(), 2);
}

#[test]
fn list_of_empty_registry_is_empty() {
    let registry = Registry::new();
    assert_eq!(registry.list(), Vec::<BucketMetadata>::new());
    let answer = list(&registry, &admin(), &Rights::new()).unwrap();
    assert!(answer.buckets.is_empty());
}

#[test]
fn insert_then_get_returns_inserted() {
    let mut registry = Registry::new();
    let mut m = BucketMetadata::new("B", 42);
    m.quota_size = 1000;
    m.retention = 3600;
    registry.insert(m.clone()).unwrap();
    assert_eq!(registry.get("B"), Ok(m));
}

#[test]
fn insert_twice_fails_with_already_exists() {
    let mut registry = Registry::new();
    let first = BucketMetadata::new("B", 1);
    registry.insert(first.clone()).unwrap();
    let second = BucketMetadata::new("B", 2);
    assert_eq!(
        registry.insert(second),
        Err(RegistryError::AlreadyExists("B".to_string()))
    );
    assert_eq!(registry.get("B"), Ok(first));
    assert_eq!(registry.len(), 1);
}

#[test]
fn remove_missing_fails_with_not_found() {
    let mut registry = registry_with(&["A", "B"]);
    assert_eq!(
        registry.remove("Z"),
        Err(RegistryError::NotFound("Z".to_string()))
    );
    assert_eq!(registry.len(), 2);
}

#[test]
fn remove_keeps_order_of_the_rest() {
    let mut registry = registry_with(&["a", "b", "c"]);
    registry.remove("b").unwrap();
    let rest: Vec<String> = registry.list().iter().map(|m| m.name.clone()).collect();
    assert_eq!(rest, vec!["a".to_string(), "c".to_string()]);
    assert_eq!(registry.get("b"), Err(RegistryError::NotFound("b".to_string())));
}

#[test]
fn get_missing_fails_with_not_found() {
    let registry = registry_with(&["a"]);
    assert_eq!(registry.get("x"), Err(RegistryError::NotFound("x".to_string())));
}

#[test]
fn update_replaces_entry_and_keeps_name() {
    let mut registry = registry_with(&["a", "b"]);
    registry
        .update("b", |mut m: BucketMetadata| {
            m.quota_size = 500;
            m.updated_at = 99;
            m.name = "renamed".to_string();
            m
        })
        .unwrap();
    let b = registry.get("b").unwrap();
    assert_eq!(b.quota_size, 500);
    assert_eq!(b.updated_at, 99);
    assert_eq!(b.created_at, 1);
    assert_eq!(b.name, "b");
    assert_eq!(registry.get("renamed"), Err(RegistryError::NotFound("renamed".to_string())));
    let order: Vec<String> = registry.list().iter().map(|m| m.name.clone()).collect();
    assert_eq!(order, vec!["a".to_string(), "b".to_string()]);
}

#[test]
fn update_missing_fails_with_not_found() {
    let mut registry = registry_with(&["a"]);
    let before = registry.list();
    assert_eq!(
        registry.update("q", |m: BucketMetadata| m),
        Err(RegistryError::NotFound("q".to_string()))
    );
    assert_eq!(registry.list(), before);
}

#[test]
fn denied_requests_leave_registry_untouched() {
    let mut registry = registry_with(&["alpha"]);
    let before = registry.list();
    let rights = Rights::new();
    let anon = Credentials::Anonymous;
    let denied = HttpError::AuthorizationDenied(DenyReason::NotAuthenticated);
    assert_eq!(list(&registry, &anon, &rights), Err(denied.clone()));
    assert_eq!(
        create_bucket(&mut registry, &Policy::Authenticated, &anon, &rights, BucketMetadata::new("new", 1)),
        Err(denied.clone())
    );
    assert_eq!(
        remove_bucket(&mut registry, &Policy::Authenticated, &anon, &rights, "alpha"),
        Err(denied.clone())
    );
    let scoped = Policy::ResourceScoped { action: Action::Write, resource: "alpha".to_string() };
    assert_eq!(
        remove_bucket(&mut registry, &scoped, &admin(), &rights, "alpha"),
        Err(HttpError::AuthorizationDenied(DenyReason::MissingRight))
    );
    assert_eq!(
        get_bucket(&registry, &scoped, &anon, &rights, "alpha"),
        Err(denied)
    );
    assert_eq!(registry.list(), before);
}

#[test]
fn many_distinct_inserts_all_succeed() {
    let n: usize = 64;
    let mut registry = Registry::new();
    for i in 0..n {
        assert_eq!(registry.insert(BucketMetadata::new(&format!("bucket-{}", i), i as u64)), Ok(()));
    }
    let listed = registry.list();
    assert_eq!(listed.len(), n);
    let mut got = names(&listed);
    got.dedup();
    assert_eq!(got.len(), n);
    for i in 0..n {
        assert!(got.contains(&format!("bucket-{}", i)));
    }
}

#[test]
fn list_endpoint_returns_both_buckets() {
    let registry = registry_with(&["alpha", "beta"]);
    let answer = list(&registry, &admin(), &Rights::new()).unwrap();
    assert_eq!(names(&answer.buckets), vec!["alpha".to_string(), "beta".to_string()]);
    assert_eq!(answer.buckets.len(), 2);
}

#[test]
fn evaluate_each_policy() {
    let mut rights = Rights::new();
    rights.grant("alice", Action::Read, "alpha");
    let alice = Credentials::Principal("alice".to_string());
    let anon = Credentials::Anonymous;
    assert_eq!(evaluate(&Policy::Open, &anon, &rights), Verdict::Allow);
    assert_eq!(evaluate(&Policy::Authenticated, &alice, &rights), Verdict::Allow);
    assert_eq!(
        evaluate(&Policy::Authenticated, &anon, &rights),
        Verdict::Deny(DenyReason::NotAuthenticated)
    );
    let read_alpha = Policy::ResourceScoped { action: Action::Read, resource: "alpha".to_string() };
    let write_alpha = Policy::ResourceScoped { action: Action::Write, resource: "alpha".to_string() };
    let read_beta = Policy::ResourceScoped { action: Action::Read, resource: "beta".to_string() };
    assert_eq!(evaluate(&read_alpha, &alice, &rights), Verdict::Allow);
    assert_eq!(evaluate(&write_alpha, &alice, &rights), Verdict::Deny(DenyReason::MissingRight));
    assert_eq!(evaluate(&read_beta, &alice, &rights), Verdict::Deny(DenyReason::MissingRight));
    assert_eq!(evaluate(&read_alpha, &anon, &rights), Verdict::Deny(DenyReason::NotAuthenticated));
    assert!(rights.has_right(&"alice".to_string(), Action::Read, &"alpha".to_string()));
    assert!(!rights.has_right(&"bob".to_string(), Action::Read, &"alpha".to_string()));
}

#[test]
fn check_permissions_maps_verdicts() {
    let rights = Rights::new();
    assert_eq!(check_permissions(&Policy::Open, &Credentials::Anonymous, &rights), Ok(()));
    assert_eq!(
        check_permissions(&Policy::Authenticated, &Credentials::Anonymous, &rights),
        Err(HttpError::AuthorizationDenied(DenyReason::NotAuthenticated))
    );
}

#[test]
fn endpoints_map_registry_errors() {
    let mut registry = registry_with(&["alpha"]);
    let rights = Rights::new();
    assert_eq!(
        create_bucket(&mut registry, &Policy::Open, &admin(), &rights, BucketMetadata::new("alpha", 9)),
        Err(HttpError::AlreadyExists("alpha".to_string()))
    );
    assert_eq!(
        remove_bucket(&mut registry, &Policy::Open, &admin(), &rights, "zeta"),
        Err(HttpError::NotFound("zeta".to_string()))
    );
    assert_eq!(
        get_bucket(&registry, &Policy::Open, &admin(), &rights, "zeta"),
        Err(HttpError::NotFound("zeta".to_string()))
    );
    assert_eq!(
        create_bucket(&mut registry, &Policy::Open, &admin(), &rights, BucketMetadata::new("beta", 9)),
        Ok(())
    );
    assert_eq!(get_bucket(&registry, &Policy::Open, &admin(), &rights, "beta").unwrap().created_at, 9);
    assert_eq!(remove_bucket(&mut registry, &Policy::Open, &admin(), &rights, "alpha"), Ok(()));
    assert_eq!(registry.len(), 1);
}

#[test]
fn status_codes() {
    assert_eq!(HttpError::AuthorizationDenied(DenyReason::NotAuthenticated).status(), 401);
    assert_eq!(HttpError::AuthorizationDenied(DenyReason::MissingRight).status(), 403);
    assert_eq!(HttpError::NotFound("a".to_string()).status(), 404);
    assert_eq!(HttpError::AlreadyExists("a".to_string()).status(), 409);
    assert_eq!(HttpError::BackingStoreFailure.status(), 500);
    assert_eq!(
        HttpError::from_registry(RegistryError::NotFound("k".to_string())),
        HttpError::NotFound("k".to_string())
    );
}

#[test]
fn failed_persist_leaves_registry_unchanged() {
    let mut registry = registry_with(&["alpha"]);
    let before = registry.list();
    assert_eq!(
        commit_create(&mut registry, BucketMetadata::new("beta", 3), false),
        Err(HttpError::BackingStoreFailure)
    );
    assert_eq!(registry.list(), before);
    assert_eq!(commit_create(&mut registry, BucketMetadata::new("beta", 3), true), Ok(()));
    assert_eq!(registry.get("beta").unwrap().created_at, 3);
    assert_eq!(
        commit_create(&mut registry, BucketMetadata::new("beta", 4), true),
        Err(HttpError::AlreadyExists("beta".to_string()))
    );
}
