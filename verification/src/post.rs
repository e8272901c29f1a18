//! Blog posts.
use vstd::prelude::*;

verus! {

/// A blog post: its source text, its content as a serialized document, that document
/// pre-rendered, and its metadata.
#[derive(Debug, Clone)]
pub struct BlogPost {
    pub id: i32,
    pub title: String,
    pub content: String,
    pub content_flatbuffer: Vec<u8>,
    pub content_cached: Vec<u8>,
    pub slug: String,
    pub created_at: String,
    pub updated_at: String,
}

/// The text of the UTC time `secs` seconds and `nanos` nanoseconds after the Unix epoch, as
/// chrono writes it (`DateTime::<Utc>::from_timestamp(secs, nanos)` in its `Display` form),
/// or `None` when chrono has no such time.
pub uninterp spec fn spec_utc_text(secs: i64, nanos: u32) -> Option<Seq<char>>;

/// chrono's `DateTime::<Utc>::from_timestamp(secs, nanos)`, as text. Trusted: its result is
/// named by `spec_utc_text`, a function of the arguments alone.
#[verifier::external_body]
fn utc_timestamp_text(secs: i64, nanos: u32) -> (r: Option<String>)
    ensures
        match r {
            Some(t) => spec_utc_text(secs, nanos) == Some(t@),
            None => spec_utc_text(secs, nanos) is None,
        },
{
    chrono::DateTime::<chrono::Utc>::from_timestamp(secs, nanos).map(|t| t.to_string())
}

/// The text of the time `n` nanoseconds after the Unix epoch, as chrono's `Utc::now` gives it:
/// its whole seconds wrapped to `i64` and the nanoseconds left; `None` when the seconds do not
/// fit in a `u64` or chrono has no such time.
pub open spec fn clock_text(n: u128) -> Option<Seq<char>> {
    if n / 1_000_000_000 <= u64::MAX {
        spec_utc_text(((n / 1_000_000_000) as u64) as i64, (n % 1_000_000_000) as u32)
    } else {
        None
    }
}

/// The text of the time `n` nanoseconds after the Unix epoch (see `clock_text`).
pub fn utc_text_from_nanos(n: u128) -> (r: Option<String>)
    ensures
        match r {
            Some(t) => clock_text(n) == Some(t@),
            None => clock_text(n) is None,
        },
{
    let secs_all: u128 = n / 1_000_000_000;
    if secs_all > 0xffff_ffff_ffff_ffff {
        return None;
    }
    let secs_u: u64 = secs_all as u64;
    #[verifier::truncate]
    let secs: i64 = secs_u as i64;
    let nanos: u32 = (n % 1_000_000_000) as u32;
    utc_timestamp_text(secs, nanos)
}

/// The current UTC time as text, or `None` when the clock reads earlier than the Unix epoch
/// (or later than chrono's range).
fn utc_now_string() -> (r: Option<String>)
    ensures
        r matches Some(t) ==> exists|n: u128| #[trigger] clock_text(n) == Some(t@),
{
    match crate::uuid::nanos_since_epoch() {
        Some(n) => {
            let r = utc_text_from_nanos(n);
            proof {
                if r is Some {
                    assert(clock_text(n) == Some(r->0@));
                }
            }
            r
        },
        None => None,
    }
}

impl BlogPost {
    /// A new post, not yet stored (id 0), stamped with the current time (see `new_with_id`).
    pub fn new(slug: &str, title: &str, content: &str, content_flatbuffer: Vec<u8>) -> (r: Option<
        BlogPost,
    >)
        ensures
            r matches Some(p) ==> p.id == 0 && p.slug@ == slug@ && p.title@ == title@ && p.content@
                == content@ && p.content_flatbuffer@ == content_flatbuffer@ && p.content_cached@
                == content_flatbuffer@ && (exists|n: u128| #[trigger] clock_text(n) == Some(p.created_at@))
                && (exists|n: u128| #[trigger] clock_text(n) == Some(p.updated_at@)),
    {
        BlogPost::new_with_id(0, slug, title, content, content_flatbuffer)
    }

    /// A new post with the given id, its creation and update times read from the clock (once
    /// each); the cached content starts as a copy of the serialized content. `None` when the
    /// clock reads earlier than the Unix epoch.
    pub fn new_with_id(
        id: i32,
        slug: &str,
        title: &str,
        content: &str,
        content_flatbuffer: Vec<u8>,
    ) -> (r: Option<BlogPost>)
        ensures
            r matches Some(p) ==> p.id == id && p.slug@ == slug@ && p.title@ == title@ && p.content@
                == content@ && p.content_flatbuffer@ == content_flatbuffer@ && p.content_cached@
                == content_flatbuffer@ && (exists|n: u128| #[trigger] clock_text(n) == Some(p.created_at@))
                && (exists|n: u128| #[trigger] clock_text(n) == Some(p.updated_at@)),
    {
        let created_at = match utc_now_string() {
            Some(t) => t,
            None => return None,
        };
        let updated_at = match utc_now_string() {
            Some(t) => t,
            None => return None,
        };
        let copy = content_flatbuffer.clone();
        Some(BlogPost {
            id,
            title: title.to_owned(),
            content: content.to_owned(),
            content_flatbuffer: copy,
            content_cached: content_flatbuffer,
            slug: slug.to_owned(),
            created_at,
            updated_at,
        })
    }
}

} // verus!
