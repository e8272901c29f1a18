//! Media types by file extension.
use vstd::prelude::*;

verus! {

/// The media type of a file extension: one of ten known extensions, or
/// `application/octet-stream`.
pub open spec fn mime_for(ext: Seq<char>) -> Seq<char> {
    if ext == "html"@ {
        "text/html"@
    } else if ext == "css"@ {
        "text/css"@
    } else if ext == "js"@ {
        "application/javascript"@
    } else if ext == "json"@ {
        "application/json"@
    } else if ext == "png"@ {
        "image/png"@
    } else if ext == "jpg"@ {
        "image/jpeg"@
    } else if ext == "gif"@ {
        "image/gif"@
    } else if ext == "txt"@ {
        "text/plain"@
    } else if ext == "xml"@ {
        "application/xml"@
    } else if ext == "pdf"@ {
        "application/pdf"@
    } else {
        "application/octet-stream"@
    }
}

/// The media type of a file extension (without the dot).
pub fn get_mime_type(extension: &str) -> (r: &'static str)
    ensures
        r@ == mime_for(extension@),
{
    let ext = extension.to_owned();
    if ext == "html".to_owned() {
        "text/html"
    } else if ext == "css".to_owned() {
        "text/css"
    } else if ext == "js".to_owned() {
        "application/javascript"
    } else if ext == "json".to_owned() {
        "application/json"
    } else if ext == "png".to_owned() {
        "image/png"
    } else if ext == "jpg".to_owned() {
        "image/jpeg"
    } else if ext == "gif".to_owned() {
        "image/gif"
    } else if ext == "txt".to_owned() {
        "text/plain"
    } else if ext == "xml".to_owned() {
        "application/xml"
    } else if ext == "pdf".to_owned() {
        "application/pdf"
    } else {
        "application/octet-stream"
    }
}

} // verus!
