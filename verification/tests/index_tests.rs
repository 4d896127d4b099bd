use hackerverse_refining::index::MultiPostIndex;
use hackerverse_refining::index::PostIndex;
use hackerverse_refining::index::UserIndex;
use hackerverse_refining::remap::RemapError;

#[test]
fn user_index_finds_known_authors_only() {
    let mut users = UserIndex::new();
    users.insert(1, "alice".to_string());
    assert_eq!(users.username_of(1), Some(&"alice".to_string()));
    assert_eq!(users.username_of(2), None);
}

#[test]
fn user_index_keeps_the_last_name_for_a_duplicate_id() {
    let mut users = UserIndex::new();
    users.insert(1, "alice".to_string());
    users.insert(1, "bob".to_string());
    assert_eq!(users.username_of(1), Some(&"bob".to_string()));
}

#[test]
fn post_index_missing_key_is_a_hard_error() {
    let mut posts = PostIndex::new();
    posts.insert(7, 100);
    assert_eq!(posts.post_for(7), Ok(100));
    assert_eq!(posts.post_for(8), Err(RemapError::MissingKey(8)));
}

#[test]
fn post_index_last_write_wins() {
    let mut posts = PostIndex::new();
    posts.insert(7, 100);
    posts.insert(7, 101);
    assert_eq!(posts.post_for(7), Ok(101));
}

#[test]
fn multi_post_index_keeps_first_seen_order() {
    let mut posts = MultiPostIndex::new();
    posts.add(7, 100);
    posts.add(7, 101);
    posts.add(9, 300);
    assert_eq!(posts.posts_for(7), vec![100, 101]);
    assert_eq!(posts.posts_for(9), vec![300]);
}

#[test]
fn multi_post_index_unknown_url_emits_nothing() {
    let posts = MultiPostIndex::new();
    assert_eq!(posts.posts_for(5), Vec::<u32>::new());
}
