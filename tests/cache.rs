use gh_ci_watch::cache::{WorkflowCache, WorkflowCacheKey};
use gh_ci_watch::github::WorkflowDetails;

fn key(owner: &str, repo: &str) -> WorkflowCacheKey {
    WorkflowCacheKey::new(owner.to_string(), repo.to_string())
}

fn workflows(id: u64) -> Vec<WorkflowDetails> {
    vec![WorkflowDetails {
        id,
        name: "my-workflow".to_string(),
        filename: ".github/workflows/test.yml".to_string(),
    }]
}

#[test]
fn miss_then_hit() {
    let mut cache = WorkflowCache::new();
    assert!(cache.lookup(&key("localstack", "localstack")).is_none());
    let stored = cache.store(key("localstack", "localstack"), workflows(10));
    assert_eq!(stored[0].id, 10);
    let hit = cache.lookup(&key("localstack", "localstack")).unwrap();
    assert_eq!(hit.len(), 1);
    assert_eq!(hit[0].id, 10);
    assert_eq!(hit[0].name, "my-workflow");
    assert_eq!(hit[0].filename, ".github/workflows/test.yml");
}

#[test]
fn first_stored_value_wins() {
    let mut cache = WorkflowCache::new();
    cache.store(key("o", "r"), workflows(1));
    let second = cache.store(key("o", "r"), workflows(2));
    assert_eq!(second[0].id, 1);
    assert_eq!(cache.lookup(&key("o", "r")).unwrap()[0].id, 1);
}

#[test]
fn keys_differ_by_owner_and_repo() {
    let mut cache = WorkflowCache::new();
    cache.store(key("a", "b"), workflows(1));
    assert!(cache.lookup(&key("b", "a")).is_none());
    assert!(cache.lookup(&key("a", "c")).is_none());
    cache.store(key("b", "a"), workflows(2));
    assert_eq!(cache.lookup(&key("a", "b")).unwrap()[0].id, 1);
    assert_eq!(cache.lookup(&key("b", "a")).unwrap()[0].id, 2);
}

#[test]
fn empty_workflow_list_is_cached() {
    let mut cache = WorkflowCache::new();
    cache.store(key("o", "empty"), Vec::new());
    assert_eq!(cache.lookup(&key("o", "empty")).map(|v| v.len()), Some(0));
}

#[test]
fn key_comparison() {
    assert!(key("x", "y").same_as(&key("x", "y")));
    assert!(!key("x", "y").same_as(&key("x", "z")));
}
