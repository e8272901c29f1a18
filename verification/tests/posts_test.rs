use pagezest::post::BlogPost;
use pagezest::posts_filesystem::{join_path, PostsFS};

fn post(id: i32, slug: &str) -> BlogPost {
    BlogPost::new_with_id(id, slug, "t", "", vec![]).unwrap()
}

#[test]
fn paths() {
    assert_eq!(join_path("posts", "1"), "posts/1");
    assert_eq!(join_path("posts/", "1"), "posts/1");
    assert_eq!(join_path("", "1"), "1");
    assert_eq!(join_path("a", "/b"), "/b");
    let fs = PostsFS::with_base_dir("data/posts".to_string());
    assert_eq!(fs.base_dir(), "data/posts");
    assert_eq!(fs.entry_path("7"), "data/posts/7");
    assert_eq!(fs.metadata_path("7"), "data/posts/7/metadata.json");
    assert_eq!(fs.content_path("7"), "data/posts/7/content.bin");
}

#[test]
fn index_by_slug() {
    let mut fs = PostsFS::with_base_dir("p".to_string());
    fs.build_index(vec![post(1, "hello"), post(-2, "neg"), post(3, "hello")]);
    assert_eq!(fs.lookup_slug("hello"), Some("3".to_string()));
    assert_eq!(fs.lookup_slug("neg"), Some("-2".to_string()));
    assert_eq!(fs.lookup_slug("none"), None);
    fs.index_insert("new".to_string(), "10".to_string());
    assert_eq!(fs.lookup_slug("new"), Some("10".to_string()));
    assert_eq!(fs.index_remove_id("10"), Some("new".to_string()));
    assert_eq!(fs.lookup_slug("new"), None);
    assert_eq!(fs.index_remove_id("99"), None);
    assert_eq!(fs.lookup_slug("hello"), Some("3".to_string()));
}

#[test]
fn filtering() {
    let all = vec![post(1, "a"), post(2, "b"), post(3, "c")];
    let kept = PostsFS::filter(all, |p: &BlogPost| p.id != 2);
    let slugs: Vec<String> = kept.into_iter().map(|p| p.slug).collect();
    assert_eq!(slugs, vec!["a".to_string(), "c".to_string()]);
    let none = PostsFS::filter(vec![post(1, "a")], |_: &BlogPost| false);
    assert!(none.is_empty());
}
