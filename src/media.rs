use vstd::prelude::*;

verus! {

/// The UTF-8 bytes of a text value, which is what string comparison looks at.
pub open spec fn utf8(s: Seq<char>) -> Seq<u8> {
    vstd::utf8::encode_utf8(s)
}

/// ASCII lower-casing of one byte; other bytes are left as they are.
pub open spec fn ascii_lower(b: u8) -> u8 {
    if 65 <= b && b <= 90 {
        (b + 32) as u8
    } else {
        b
    }
}

/// Two byte strings are equal when ASCII letters are compared without case.
pub open spec fn eq_ignore_case(a: Seq<u8>, b: Seq<u8>) -> bool {
    a.len() == b.len() && forall|i: int| 0 <= i < a.len() ==> ascii_lower(#[trigger] a[i]) == ascii_lower(b[i])
}

/// A media type as `top/sub`, parameters left out. Both parts compare without case.
#[derive(Clone, Debug)]
pub struct MediaType {
    pub top: String,
    pub sub: String,
}

impl MediaType {
    pub open spec fn top_bytes(&self) -> Seq<u8> {
        utf8(self.top@)
    }

    pub open spec fn sub_bytes(&self) -> Seq<u8> {
        utf8(self.sub@)
    }

    /// A pattern whose subtype is `*` stands for every subtype of its top-level type.
    pub open spec fn is_wildcard(&self) -> bool {
        self.sub_bytes() =~= seq![42u8]
    }

    pub fn new(top: &str, sub: &str) -> (r: MediaType)
        ensures
            r.top@ == top@,
            r.sub@ == sub@,
    {
        MediaType { top: top.to_owned(), sub: sub.to_owned() }
    }
}

/// A content type falls under an exclusion pattern: by its top-level type alone
/// when the pattern's subtype is `*`, else by both parts.
pub open spec fn media_matches(content_type: MediaType, pattern: MediaType) -> bool {
    if pattern.is_wildcard() {
        eq_ignore_case(pattern.top_bytes(), content_type.top_bytes())
    } else {
        eq_ignore_case(pattern.top_bytes(), content_type.top_bytes())
            && eq_ignore_case(pattern.sub_bytes(), content_type.sub_bytes())
    }
}

/// A response is kept uncompressed when it declares a content type that some
/// exclusion pattern matches; one without a content type is never kept back.
pub open spec fn is_excluded(content_type: Option<MediaType>, exclusions: Seq<MediaType>) -> bool {
    match content_type {
        Some(ct) => exists|i: int| 0 <= i < exclusions.len() && media_matches(ct, #[trigger] exclusions[i]),
        None => false,
    }
}

fn lower_byte(b: u8) -> (r: u8)
    ensures
        r == ascii_lower(b),
{
    if 65 <= b && b <= 90 {
        b + 32
    } else {
        b
    }
}

fn bytes_eq_ignore_case(a: &[u8], b: &[u8]) -> (r: bool)
    ensures
        r == eq_ignore_case(a@, b@),
{
    if a.len() != b.len() {
        return false;
    }
    let mut i: usize = 0;
    while i < a.len()
        invariant
            a@.len() == b@.len(),
            0 <= i <= a@.len(),
            forall|j: int| 0 <= j < i ==> ascii_lower(#[trigger] a@[j]) == ascii_lower(b@[j]),
        decreases a@.len() - i,
    {
        if lower_byte(a[i]) != lower_byte(b[i]) {
            return false;
        }
        i = i + 1;
    }
    true
}

/// Whether `content_type` falls under the exclusion `pattern`.
pub fn matches_pattern(content_type: &MediaType, pattern: &MediaType) -> (r: bool)
    ensures
        r == media_matches(*content_type, *pattern),
{
    let psub = pattern.sub.as_str().as_bytes();
    let wildcard = psub.len() == 1 && psub[0] == 42u8;
    proof {
        if wildcard {
            assert(psub@ =~= seq![42u8]);
        }
    }
    let tops = bytes_eq_ignore_case(pattern.top.as_str().as_bytes(), content_type.top.as_str().as_bytes());
    if wildcard {
        tops
    } else {
        tops && bytes_eq_ignore_case(psub, content_type.sub.as_str().as_bytes())
    }
}

/// Whether compression is to be skipped for a response of this content type.
pub fn skip_encoding(content_type: &Option<MediaType>, exclusions: &Vec<MediaType>) -> (r: bool)
    ensures
        r == is_excluded(*content_type, exclusions@),
{
    match content_type.as_ref() {
        None => false,
        Some(ct) => {
            let mut i: usize = 0;
            while i < exclusions.len()
                invariant
                    0 <= i <= exclusions@.len(),
                    *content_type == Some(*ct),
                    forall|j: int| 0 <= j < i ==> !media_matches(*ct, #[trigger] exclusions@[j]),
                decreases exclusions@.len() - i,
            {
                if matches_pattern(ct, &exclusions[i]) {
                    assert(media_matches(*ct, exclusions@[i as int]));
                    return true;
                }
                i = i + 1;
            }
            false
        },
    }
}

/// The media types that are never compressed unless configured otherwise:
/// archives, images, video and raw binary data.
pub fn default_exclusions() -> (r: Vec<MediaType>)
    ensures
        r@.len() == 5,
        r@[0].top@ == "application"@ && r@[0].sub@ == "gzip"@,
        r@[1].top@ == "application"@ && r@[1].sub@ == "zip"@,
        r@[2].top@ == "image"@ && r@[2].sub@ == "*"@,
        r@[3].top@ == "video"@ && r@[3].sub@ == "*"@,
        r@[4].top@ == "application"@ && r@[4].sub@ == "octet-stream"@,
{
    let mut v: Vec<MediaType> = Vec::new();
    v.push(MediaType::new("application", "gzip"));
    v.push(MediaType::new("application", "zip"));
    v.push(MediaType::new("image", "*"));
    v.push(MediaType::new("video", "*"));
    v.push(MediaType::new("application", "octet-stream"));
    v
}

} // verus!
