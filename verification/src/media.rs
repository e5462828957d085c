//! Media classification: the closed set of media types, and the total
//! mapping from a sniffed MIME string's top-level component to a type.

use vstd::prelude::*;
use crate::text::{chars_eq, eq_ignore_ascii_case, trim, spec_eq_ascii_ci, spec_trim};

verus! {

/// The closed set of media classifications.
#[derive(Clone, Copy, Debug, PartialEq, Eq, Structural)]
pub enum MediaType {
    Image,
    Audio,
    Video,
    Text,
    Other,
}

/// The top-level component of a MIME string: the characters before the
/// first `/`, or the whole string when it has no `/`.
pub open spec fn spec_mime_top_level(s: Seq<char>) -> Seq<char>
    decreases s.len(),
{
    if s.len() == 0 {
        s
    } else if s[0] == '/' {
        Seq::empty()
    } else {
        seq![s[0]] + spec_mime_top_level(s.skip(1))
    }
}

/// The fixed mapping from a MIME string to a media type: `image`, `audio`,
/// `video` and `text` map to their own classifications, anything else to
/// `Other`. Total: every string maps to some type.
pub open spec fn spec_media_type_of_mime(mime: Seq<char>) -> MediaType {
    let top = spec_mime_top_level(mime);
    if top == "image"@ {
        MediaType::Image
    } else if top == "audio"@ {
        MediaType::Audio
    } else if top == "video"@ {
        MediaType::Video
    } else if top == "text"@ {
        MediaType::Text
    } else {
        MediaType::Other
    }
}

proof fn lemma_mime_top_level_take(s: Seq<char>, i: int)
    requires
        0 <= i <= s.len(),
        forall|j: int| 0 <= j < i ==> s[j] != '/',
        i == s.len() || s[i] == '/',
    ensures
        spec_mime_top_level(s) == s.take(i),
    decreases i,
{
    if i == 0 {
        assert(s.take(0) =~= Seq::<char>::empty());
        if s.len() != 0 {
            assert(s[0] == '/');
        } else {
            assert(s.take(0) =~= s);
        }
    } else {
        assert(s[0] != '/');
        lemma_mime_top_level_take(s.skip(1), i - 1);
        assert(seq![s[0]] + s.skip(1).take(i - 1) =~= s.take(i));
    }
}

/// The top-level component of a MIME string, as an owned string.
pub fn mime_top_level(mime: &str) -> (r: String)
    ensures
        r@ == spec_mime_top_level(mime@),
{
    let n = mime.unicode_len();
    let mut i: usize = 0;
    while i < n
        invariant
            n == mime@.len(),
            i <= n,
            forall|j: int| 0 <= j < i ==> mime@[j] != '/',
        decreases n - i,
    {
        if mime.get_char(i) == '/' {
            proof {
                lemma_mime_top_level_take(mime@, i as int);
            }
            let top = mime.substring_char(0, i);
            return top.to_owned();
        }
        i += 1;
    }
    proof {
        lemma_mime_top_level_take(mime@, n as int);
        assert(mime@.take(n as int) =~= mime@);
    }
    let top = mime.substring_char(0, n);
    top.to_owned()
}

/// Maps a sniffed MIME string to a media type via its top-level component.
/// Total over all strings: unrecognized content maps to `Other`.
pub fn media_type_of_mime(mime: &str) -> (t: MediaType)
    ensures
        t == spec_media_type_of_mime(mime@),
{
    let top = mime_top_level(mime);
    if chars_eq(top.as_str(), "image") {
        MediaType::Image
    } else if chars_eq(top.as_str(), "audio") {
        MediaType::Audio
    } else if chars_eq(top.as_str(), "video") {
        MediaType::Video
    } else if chars_eq(top.as_str(), "text") {
        MediaType::Text
    } else {
        MediaType::Other
    }
}

/// What classification a file gets: an explicit hint always wins; otherwise
/// the sniffed MIME string decides through the fixed mapping.
pub open spec fn spec_classify(hint: Option<MediaType>, mime: Seq<char>) -> MediaType {
    match hint {
        Some(k) => k,
        None => spec_media_type_of_mime(mime),
    }
}

/// Classifies a file given an optional user hint and the sniffed MIME
/// string of its content.
pub fn classify(hint: Option<MediaType>, mime: &str) -> (t: MediaType)
    ensures
        t == spec_classify(hint, mime@),
{
    match hint {
        Some(k) => k,
        None => media_type_of_mime(mime),
    }
}

/// The display name of a media type.
pub open spec fn spec_media_type_name(t: MediaType) -> Seq<char> {
    match t {
        MediaType::Image => "Image"@,
        MediaType::Audio => "Audio"@,
        MediaType::Video => "Video"@,
        MediaType::Text => "Text"@,
        MediaType::Other => "Other"@,
    }
}

/// The display name of a media type, as an owned string.
pub fn media_type_name(t: MediaType) -> (r: String)
    ensures
        r@ == spec_media_type_name(t),
{
    match t {
        MediaType::Image => "Image".to_owned(),
        MediaType::Audio => "Audio".to_owned(),
        MediaType::Video => "Video".to_owned(),
        MediaType::Text => "Text".to_owned(),
        MediaType::Other => "Other".to_owned(),
    }
}

/// Which media type a user-entered string names: one of the five names,
/// ASCII case-insensitively, with surrounding whitespace ignored; any
/// other string names none.
pub open spec fn spec_parse_media_type(s: Seq<char>) -> Option<MediaType> {
    let t = spec_trim(s);
    if spec_eq_ascii_ci(t, "image"@) {
        Some(MediaType::Image)
    } else if spec_eq_ascii_ci(t, "audio"@) {
        Some(MediaType::Audio)
    } else if spec_eq_ascii_ci(t, "video"@) {
        Some(MediaType::Video)
    } else if spec_eq_ascii_ci(t, "text"@) {
        Some(MediaType::Text)
    } else if spec_eq_ascii_ci(t, "other"@) {
        Some(MediaType::Other)
    } else {
        None
    }
}

/// Parses a user-entered media type name.
pub fn parse_media_type(s: &str) -> (r: Option<MediaType>)
    ensures
        r == spec_parse_media_type(s@),
{
    let t = trim(s);
    if eq_ignore_ascii_case(t.as_str(), "image") {
        Some(MediaType::Image)
    } else if eq_ignore_ascii_case(t.as_str(), "audio") {
        Some(MediaType::Audio)
    } else if eq_ignore_ascii_case(t.as_str(), "video") {
        Some(MediaType::Video)
    } else if eq_ignore_ascii_case(t.as_str(), "text") {
        Some(MediaType::Text)
    } else if eq_ignore_ascii_case(t.as_str(), "other") {
        Some(MediaType::Other)
    } else {
        None
    }
}

/// Validates a user-entered media type name: accepts exactly the strings
/// that name one of the five types.
pub fn is_valid_media_type(v: &str) -> (r: Result<(), String>)
    ensures
        r is Ok <==> spec_parse_media_type(v@) is Some,
        r matches Err(m) ==> m@ == "Not a valid Media Type."@,
{
    match parse_media_type(v) {
        Some(_) => Ok(()),
        None => Err("Not a valid Media Type.".to_owned()),
    }
}

/// Relies on tree_magic::from_u8: sniffs the MIME type of a byte stream
/// against tree_magic's magic database — its compiled-in copy, joined by
/// the system's shared-mime data where that is present. Total: the base
/// type `application/octet-stream` matches any byte stream, so some MIME
/// string always comes back. The result depends on those databases, so
/// nothing is promised of it; callers pin the classification through
/// `media_type_of_mime` on whatever string came back.
#[verifier::external_body]
fn sniff_mime(content: &Vec<u8>) -> (r: String) {
    tree_magic::from_u8(content.as_slice())
}

/// Classification is total: whatever the hint and whatever MIME string
/// the sniffer produced, the classification is one of the five media
/// types — it never fails.
pub proof fn lemma_classifier_total(hint: Option<MediaType>, mime: Seq<char>)
    ensures
        spec_classify(hint, mime) == MediaType::Image || spec_classify(hint, mime)
            == MediaType::Audio || spec_classify(hint, mime) == MediaType::Video || spec_classify(
            hint,
            mime,
        ) == MediaType::Text || spec_classify(hint, mime) == MediaType::Other,
{
}

/// Classifies a file's byte content: an explicit hint wins; otherwise the
/// content is sniffed and the fixed MIME mapping decides on whatever
/// string the sniffer produced. Total for any byte content; what the
/// sniffer answers depends on its database, so only the hint case is
/// pinned here — the mapping itself is pinned by `media_type_of_mime`.
pub fn classify_content(hint: Option<MediaType>, content: &Vec<u8>) -> (t: MediaType)
    ensures
        hint matches Some(k) ==> t == k,
{
    match hint {
        Some(k) => k,
        None => {
            let mime = sniff_mime(content);
            media_type_of_mime(mime.as_str())
        },
    }
}

} // verus!
