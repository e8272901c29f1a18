use pagezest::api::{
    check_update_input, decode_create_input, embedded_asset_path, embedded_mime_type,
    requested_slug, BlogPostInput, InputError,
};
use pagezest::errors::AppError;
use pagezest::html::{decimal_string, hex_string, html_escape, i32_string};
use pagezest::mime::get_mime_type;
use pagezest::post::{utc_text_from_nanos, BlogPost};
use pagezest::uuid::{generate_uuid, uuid_from_nanos, UUID};

#[test]
fn escaping() {
    assert_eq!(
        html_escape("<a href=\"x\">&'</a>"),
        "&lt;a href=&quot;x&quot;&gt;&amp;&#39;&lt;/a&gt;"
    );
    assert_eq!(html_escape("plain é"), "plain é");
    assert_eq!(html_escape(""), "");
}

#[test]
fn numbers() {
    assert_eq!(decimal_string(0), "0");
    assert_eq!(decimal_string(1234567890), "1234567890");
    assert_eq!(decimal_string(u64::MAX), u64::MAX.to_string());
    assert_eq!(hex_string(0xdeadbeef), "deadbeef");
    assert_eq!(hex_string(0), "0");
    assert_eq!(i32_string(-42), "-42");
    assert_eq!(i32_string(i32::MIN), i32::MIN.to_string());
    assert_eq!(i32_string(7), "7");
}

#[test]
fn mime_table() {
    assert_eq!(get_mime_type("html"), "text/html");
    assert_eq!(get_mime_type("css"), "text/css");
    assert_eq!(get_mime_type("js"), "application/javascript");
    assert_eq!(get_mime_type("json"), "application/json");
    assert_eq!(get_mime_type("png"), "image/png");
    assert_eq!(get_mime_type("jpg"), "image/jpeg");
    assert_eq!(get_mime_type("gif"), "image/gif");
    assert_eq!(get_mime_type("txt"), "text/plain");
    assert_eq!(get_mime_type("xml"), "application/xml");
    assert_eq!(get_mime_type("pdf"), "application/pdf");
    assert_eq!(get_mime_type("exe"), "application/octet-stream");
    assert_eq!(get_mime_type("HTML"), "application/octet-stream");
    assert_eq!(get_mime_type(""), "application/octet-stream");
}

#[test]
fn uuid_text() {
    assert_eq!(UUID([0; 16]).to_string(), "0-0-4000-8000-0");
    let bytes: [u8; 16] = [0, 1, 2, 3, 4, 5, 6, 7, 8, 9, 10, 11, 12, 13, 14, 15];
    assert_eq!(UUID(bytes).to_string(), "10203-405-4607-8809-a0b0c0d0e0f0000");
    assert_eq!(UUID([0xff; 16]).to_string(), "ffffffff-ffff-4fff-bfff-ffffffffffff0000");
}

#[test]
fn uuid_bytes_from_nanos() {
    let u = uuid_from_nanos(0x0f0e0d0c0b0a09080706050403020100);
    assert_eq!(u.0, [0, 1, 2, 3, 4, 5, 6, 7, 8, 9, 10, 11, 12, 13, 14, 15]);
    let u = generate_uuid().expect("the clock is after the epoch");
    let s = u.to_string();
    let groups: Vec<&str> = s.split('-').collect();
    assert_eq!(groups.len(), 5);
    assert_eq!(groups[2].len(), 4);
    assert!(groups[2].starts_with('4'));
    assert!(matches!(groups[3].chars().next(), Some('8' | '9' | 'a' | 'b')));
}

fn input(fb: &str) -> BlogPostInput {
    BlogPostInput {
        slug: "s".to_string(),
        title: "t".to_string(),
        content: "c".to_string(),
        content_flatbuffer64: fb.to_string(),
    }
}

#[test]
fn update_input_checks() {
    assert!(matches!(check_update_input(&input("")), Err(InputError::MissingFlatbuffer)));
    assert!(matches!(check_update_input(&input("!!")), Err(InputError::InvalidBase64)));
    assert_eq!(check_update_input(&input("aGVsbG8=")).ok(), Some(b"hello".to_vec()));
    assert!(matches!(decode_create_input(&input("aGVsbG8")), Err(InputError::InvalidBase64)));
    assert_eq!(decode_create_input(&input("")).ok(), Some(vec![]));
}

#[test]
fn embedded_files() {
    assert_eq!(embedded_asset_path(""), "index.html");
    assert_eq!(embedded_asset_path("///"), "index.html");
    assert_eq!(embedded_asset_path("//a/b.js"), "a/b.js");
    assert_eq!(embedded_mime_type("index.html"), "text/html");
    assert_eq!(embedded_mime_type("a/b.css"), "text/css");
    assert_eq!(embedded_mime_type("noext"), "application/octet-stream");
    assert_eq!(requested_slug(None), "");
    assert_eq!(requested_slug(Some("hello".to_string())), "hello");
}

#[test]
fn new_posts() {
    let p = BlogPost::new("slug", "Title", "body", vec![1, 2]).expect("the clock reads after 1970");
    assert_eq!(p.id, 0);
    assert_eq!(p.slug, "slug");
    assert_eq!(p.title, "Title");
    assert_eq!(p.content, "body");
    assert_eq!(p.content_flatbuffer, vec![1, 2]);
    assert_eq!(p.content_cached, vec![1, 2]);
    assert!(p.created_at.ends_with("UTC"));
    let q = BlogPost::new_with_id(9, "a", "b", "c", vec![]).expect("the clock reads after 1970");
    assert_eq!(q.id, 9);
}

#[test]
fn error_messages() {
    assert_eq!(AppError::PageNotFound("x".to_string()).message(), "Page Not Found: x");
    assert_eq!(AppError::IoError("e".to_string()).message(), "I/O error: e");
    assert_eq!(AppError::DatabaseError("e".to_string()).message(), "Database error: e");
    assert_eq!(AppError::OtherError("e".to_string()).message(), "Other error: e");
    assert_eq!(AppError::ServerError("e".to_string()).message(), "Server error: e");
    assert_eq!(AppError::PluginError("e".to_string()).message(), "Plugin error: e");
}

#[test]
fn clock_text_as_chrono_writes_it() {
    assert_eq!(utc_text_from_nanos(0), Some("1970-01-01 00:00:00 UTC".to_string()));
    assert_eq!(
        utc_text_from_nanos(1_500_000_000),
        Some("1970-01-01 00:00:01.500 UTC".to_string())
    );
    assert_eq!(
        utc_text_from_nanos(86_400_000_000_000 + 7),
        Some("1970-01-02 00:00:00.000000007 UTC".to_string())
    );
    assert_eq!(utc_text_from_nanos(u128::MAX), None);
}
