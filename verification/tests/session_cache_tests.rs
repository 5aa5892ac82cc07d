use qdrust::auth::token_hash;
use qdrust::session_cache::{
    cache_configured, cache_ttl, cached_session_live, indexed_session_keys, session_key,
    user_index_key,
};

#[test]
fn sessions_and_user_indexes_have_their_own_keys() {
    assert_eq!(session_key("abc"), "qdrust:session:abc");
    assert_eq!(user_index_key(42), "qdrust:session:user:42");
    assert_eq!(user_index_key(-1), "qdrust:session:user:-1");
    let hash = token_hash("tok");
    assert_ne!(session_key(&hash), user_index_key(7));
    assert_eq!(
        indexed_session_keys(&vec!["a1".to_string(), "b2".to_string()]),
        vec!["qdrust:session:a1".to_string(), "qdrust:session:b2".to_string()]
    );
}

#[test]
fn cached_sessions_live_for_at_least_a_second_and_expire() {
    assert_eq!(cache_ttl(3600), 3600);
    assert_eq!(cache_ttl(0), 1);
    assert_eq!(cache_ttl(-5), 1);
    assert!(cached_session_live(101, 100));
    assert!(!cached_session_live(100, 100));
    assert!(!cached_session_live(99, 100));
}

#[test]
fn the_cache_is_on_only_with_a_url() {
    assert!(cache_configured(Some("redis://127.0.0.1/")));
    assert!(!cache_configured(Some("")));
    assert!(!cache_configured(None));
}
