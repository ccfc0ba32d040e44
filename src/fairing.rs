use vstd::prelude::*;

use crate::error_body::ErrorBody;
use crate::media::{is_excluded, skip_encoding, utf8, MediaType};
use crate::negotiation::{preferred, select_algorithm, wire_name_of, Algorithm};
use crate::store::{insert_if_absent, share, CacheStore, KeyView};
use std::sync::Arc;

verus! {

/// `s` ends with the bytes of `suffix`.
pub open spec fn ends_with(s: Seq<u8>, suffix: Seq<u8>) -> bool {
    suffix.len() <= s.len() && s.subrange(s.len() - suffix.len(), s.len() as int) == suffix
}

/// A path is cached when it ends with one of the configured endings.
pub open spec fn is_cached_path(endings: Seq<&'static str>, path: &str) -> bool {
    exists|i: int| 0 <= i < endings.len() && ends_with(utf8(path@), #[trigger] utf8(endings[i]@))
}

/// The coding a response gets, or `None` when it is to be left alone: the client
/// accepts neither coding, the response is already encoded, or its content type
/// is excluded.
pub open spec fn compression_choice(
    accepts_gzip: bool,
    accepts_br: bool,
    already_encoded: bool,
    content_type: Option<MediaType>,
    exclusions: Seq<MediaType>,
) -> Option<Algorithm> {
    if !(accepts_gzip || accepts_br) || already_encoded || is_excluded(content_type, exclusions) {
        None
    } else {
        Some(preferred(accepts_gzip, accepts_br))
    }
}

/// What the caching orchestrator does with one response.
#[derive(Clone, Copy, Debug, PartialEq, Eq, Structural)]
pub enum Decision {
    PassThrough,
    /// Serve the stored bytes for this coding.
    Hit(Algorithm),
    /// Compress with this coding, then store the result.
    Miss(Algorithm),
}

pub open spec fn cached_decision(
    endings: Seq<&'static str>,
    store: Map<KeyView, Seq<u8>>,
    path: &str,
    accepts_gzip: bool,
    accepts_br: bool,
    already_encoded: bool,
    content_type: Option<MediaType>,
    exclusions: Seq<MediaType>,
) -> Decision {
    if !is_cached_path(endings, path) {
        Decision::PassThrough
    } else {
        match compression_choice(accepts_gzip, accepts_br, already_encoded, content_type, exclusions) {
            None => Decision::PassThrough,
            Some(a) => if store.contains_key((path@, a)) {
                Decision::Hit(a)
            } else {
                Decision::Miss(a)
            },
        }
    }
}

/// The first step for a cached path: leave the response alone, serve stored
/// bytes, or compress.
pub enum CachedStep {
    PassThrough,
    Hit { encoding: Algorithm, body: Arc<Vec<u8>> },
    Miss(Algorithm),
}

impl CachedStep {
    pub open spec fn follows(&self, d: Decision, store: Map<KeyView, Seq<u8>>, path: Seq<char>) -> bool {
        match d {
            Decision::PassThrough => *self is PassThrough,
            Decision::Hit(a) => match *self {
                CachedStep::Hit { encoding, body } => encoding == a && body@ == store[(path, a)],
                _ => false,
            },
            Decision::Miss(a) => match *self {
                CachedStep::Miss(b) => a == b,
                _ => false,
            },
        }
    }
}

/// What becomes of a response once compression has run (or was served from the cache).
pub enum Outcome<E> {
    /// Set `Content-Encoding` to the coding, and `Cache-Control` when `long_lived`,
    /// and make `body` the response body with its length declared.
    Compressed { encoding: Algorithm, long_lived: bool, body: Arc<Vec<u8>> },
    /// Make the response body one that fails to read with the captured error.
    Failed(ErrorBody<E>),
}

/// The `Cache-Control` value set on freshly compressed cached responses: one year.
pub fn cache_control_value() -> (r: &'static str)
    ensures
        r@ == "max-age=31536000"@,
{
    "max-age=31536000"
}

impl<E> Outcome<E> {
    /// The headers to set on the response, as name and value.
    pub fn headers(&self) -> (r: Vec<(&'static str, &'static str)>)
        ensures
            match *self {
                Outcome::Compressed { encoding, long_lived, .. } => {
                    &&& r@.len() == if long_lived { 2int } else { 1int }
                    &&& r@[0].0@ == "Content-Encoding"@ && r@[0].1@ == wire_name_of(encoding)
                    &&& long_lived ==> r@[1].0@ == "Cache-Control"@ && r@[1].1@ == "max-age=31536000"@
                },
                Outcome::Failed(_) => r@.len() == 0,
            },
    {
        let mut r: Vec<(&'static str, &'static str)> = Vec::new();
        match self {
            Outcome::Compressed { encoding, long_lived, .. } => {
                r.push(("Content-Encoding", encoding.wire_name()));
                if *long_lived {
                    r.push(("Cache-Control", cache_control_value()));
                }
            },
            Outcome::Failed(_) => {},
        }
        r
    }
}

fn bytes_end_with(s: &[u8], suffix: &[u8]) -> (r: bool)
    ensures
        r == ends_with(s@, suffix@),
{
    if suffix.len() > s.len() {
        return false;
    }
    let n: usize = s.len();
    let off: usize = n - suffix.len();
    let mut i: usize = 0;
    while i < suffix.len()
        invariant
            n == s@.len(),
            off + suffix@.len() == s@.len(),
            0 <= i <= suffix@.len(),
            forall|j: int| 0 <= j < i ==> s@[off + j] == #[trigger] suffix@[j],
        decreases suffix@.len() - i,
    {
        if s[off + i] != suffix[i] {
            assert(s@.subrange(off as int, s@.len() as int)[i as int] != suffix@[i as int]);
            return false;
        }
        i = i + 1;
    }
    assert(s@.subrange(off as int, s@.len() as int) =~= suffix@);
    true
}

/// Compresses every eligible response with brotli or gzip.
pub struct Compression(());

impl Compression {
    pub fn fairing() -> (r: Compression) {
        Compression(())
    }

    /// The coding to compress this response with, if any.
    pub fn plan(
        &self,
        accepts_gzip: bool,
        accepts_br: bool,
        already_encoded: bool,
        content_type: &Option<MediaType>,
        exclusions: &Vec<MediaType>,
    ) -> (r: Option<Algorithm>)
        ensures
            r == compression_choice(accepts_gzip, accepts_br, already_encoded, *content_type, exclusions@),
    {
        if !accepts_gzip && !accepts_br {
            return None;
        }
        if already_encoded {
            return None;
        }
        if skip_encoding(content_type, exclusions) {
            return None;
        }
        Some(select_algorithm(accepts_gzip, accepts_br))
    }

    /// The response after compression with `encoding` gave `result`.
    pub fn finish<E>(&self, encoding: Algorithm, result: Result<Vec<u8>, E>) -> (r: Outcome<E>)
        ensures
            match result {
                Ok(b) => match r {
                    Outcome::Compressed { encoding: e, long_lived, body } => e == encoding && !long_lived
                        && body@ == b@,
                    _ => false,
                },
                Err(err) => match r {
                    Outcome::Failed(eb) => eb.error == Some(err),
                    _ => false,
                },
            },
    {
        match result {
            Ok(b) => Outcome::Compressed { encoding, long_lived: false, body: Arc::new(b) },
            Err(err) => Outcome::Failed(ErrorBody::new(err)),
        }
    }
}

/// Compresses eligible responses on configured paths and keeps the compressed
/// bytes, so a later request for the same path and coding is served without
/// compressing again. Cached bodies are held for the life of the store.
pub struct CachedCompression {
    pub cached_path_endings: Vec<&'static str>,
}

impl CachedCompression {
    pub fn fairing(cached_path_endings: Vec<&'static str>) -> (r: CachedCompression)
        ensures
            r.cached_path_endings@ == cached_path_endings@,
    {
        CachedCompression { cached_path_endings }
    }

    /// Whether responses for `path` are cached.
    pub fn is_cached_path(&self, path: &str) -> (r: bool)
        ensures
            r == is_cached_path(self.cached_path_endings@, path),
    {
        let p = path.as_bytes();
        let mut i: usize = 0;
        while i < self.cached_path_endings.len()
            invariant
                0 <= i <= self.cached_path_endings@.len(),
                p@ == utf8(path@),
                forall|j: int| 0 <= j < i ==> !ends_with(utf8(path@), #[trigger] utf8(self.cached_path_endings@[j]@)),
            decreases self.cached_path_endings@.len() - i,
        {
            let ending: &str = self.cached_path_endings[i];
            if bytes_end_with(p, ending.as_bytes()) {
                assert(ends_with(utf8(path@), utf8(self.cached_path_endings@[i as int]@)));
                return true;
            }
            i = i + 1;
        }
        false
    }

    /// The first step for a response to a request for `path`: checks the path,
    /// the client's codings, the response's encoding and content type, then the store.
    pub fn plan(
        &self,
        store: &CacheStore,
        path: &str,
        accepts_gzip: bool,
        accepts_br: bool,
        already_encoded: bool,
        content_type: &Option<MediaType>,
        exclusions: &Vec<MediaType>,
    ) -> (r: CachedStep)
        requires
            store.wf(),
        ensures
            r.follows(
                cached_decision(
                    self.cached_path_endings@,
                    store@,
                    path,
                    accepts_gzip,
                    accepts_br,
                    already_encoded,
                    *content_type,
                    exclusions@,
                ),
                store@,
                path@,
            ),
    {
        if !self.is_cached_path(path) {
            return CachedStep::PassThrough;
        }
        if !accepts_gzip && !accepts_br {
            return CachedStep::PassThrough;
        }
        if already_encoded {
            return CachedStep::PassThrough;
        }
        if skip_encoding(content_type, exclusions) {
            return CachedStep::PassThrough;
        }
        let encoding = select_algorithm(accepts_gzip, accepts_br);
        match store.lookup(path, encoding) {
            Some(body) => CachedStep::Hit { encoding, body },
            None => CachedStep::Miss(encoding),
        }
    }

    /// The response for a cache hit: the stored bytes under the coding's
    /// `Content-Encoding`, with no `Cache-Control` set again.
    pub fn serve<E>(&self, encoding: Algorithm, body: Arc<Vec<u8>>) -> (r: Outcome<E>)
        ensures
            match r {
                Outcome::Compressed { encoding: e, long_lived, body: b } => e == encoding && !long_lived && b@ == body@,
                _ => false,
            },
    {
        Outcome::Compressed { encoding, long_lived: false, body }
    }

    /// The response after compression of a cache miss with `encoding` gave
    /// `result`. Compressed bytes are stored under `(path, encoding)`; a failure
    /// stores nothing.
    pub fn finish<E>(
        &self,
        store: &mut CacheStore,
        path: &str,
        encoding: Algorithm,
        result: Result<Vec<u8>, E>,
    ) -> (r: Outcome<E>)
        requires
            old(store).wf(),
        ensures
            final(store).wf(),
            match result {
                Ok(b) => {
                    &&& match r {
                        Outcome::Compressed { encoding: e, long_lived, body } => e == encoding && long_lived
                            && body@ == b@,
                        _ => false,
                    }
                    &&& final(store)@ == insert_if_absent(old(store)@, (path@, encoding), b@)
                },
                Err(err) => {
                    &&& match r {
                        Outcome::Failed(eb) => eb.error == Some(err),
                        _ => false,
                    }
                    &&& final(store)@ == old(store)@
                },
            },
    {
        match result {
            Ok(b) => {
                let body = Arc::new(b);
                let kept = share(&body);
                store.insert(path, encoding, kept);
                Outcome::Compressed { encoding, long_lived: true, body }
            },
            Err(err) => Outcome::Failed(ErrorBody::new(err)),
        }
    }
}

/// A response whose content type matches an exclusion is left as it is, by the
/// plain orchestrator and by the caching one.
pub proof fn lemma_excluded_untouched(
    endings: Seq<&'static str>,
    store: Map<KeyView, Seq<u8>>,
    path: &str,
    accepts_gzip: bool,
    accepts_br: bool,
    already_encoded: bool,
    content_type: Option<MediaType>,
    exclusions: Seq<MediaType>,
)
    requires
        is_excluded(content_type, exclusions),
    ensures
        compression_choice(accepts_gzip, accepts_br, already_encoded, content_type, exclusions) is None,
        cached_decision(endings, store, path, accepts_gzip, accepts_br, already_encoded, content_type, exclusions)
            == Decision::PassThrough,
{
}

/// A response that already carries a `Content-Encoding` is never encoded again.
pub proof fn lemma_encoded_untouched(
    endings: Seq<&'static str>,
    store: Map<KeyView, Seq<u8>>,
    path: &str,
    accepts_gzip: bool,
    accepts_br: bool,
    content_type: Option<MediaType>,
    exclusions: Seq<MediaType>,
)
    ensures
        compression_choice(accepts_gzip, accepts_br, true, content_type, exclusions) is None,
        cached_decision(endings, store, path, accepts_gzip, accepts_br, true, content_type, exclusions)
            == Decision::PassThrough,
{
}

/// Once a miss for a path has stored its compressed bytes, the same request
/// again is a hit on exactly those bytes, with no compression.
pub proof fn lemma_second_request_hits(
    endings: Seq<&'static str>,
    store: Map<KeyView, Seq<u8>>,
    path: &str,
    accepts_gzip: bool,
    accepts_br: bool,
    already_encoded: bool,
    content_type: Option<MediaType>,
    exclusions: Seq<MediaType>,
    compressed: Seq<u8>,
    encoding: Algorithm,
)
    requires
        cached_decision(endings, store, path, accepts_gzip, accepts_br, already_encoded, content_type, exclusions)
            == Decision::Miss(encoding),
    ensures
        cached_decision(
            endings,
            insert_if_absent(store, (path@, encoding), compressed),
            path,
            accepts_gzip,
            accepts_br,
            already_encoded,
            content_type,
            exclusions,
        ) == Decision::Hit(encoding),
        insert_if_absent(store, (path@, encoding), compressed)[(path@, encoding)] == compressed,
{
}

/// A client that accepts both codings always gets brotli.
pub proof fn lemma_brotli_preferred(
    endings: Seq<&'static str>,
    store: Map<KeyView, Seq<u8>>,
    path: &str,
    already_encoded: bool,
    content_type: Option<MediaType>,
    exclusions: Seq<MediaType>,
)
    ensures
        compression_choice(true, true, already_encoded, content_type, exclusions) is Some ==> compression_choice(
            true,
            true,
            already_encoded,
            content_type,
            exclusions,
        ) == Some(Algorithm::Brotli),
        match cached_decision(endings, store, path, true, true, already_encoded, content_type, exclusions) {
            Decision::PassThrough => true,
            Decision::Hit(a) => a == Algorithm::Brotli,
            Decision::Miss(a) => a == Algorithm::Brotli,
        },
{
}

/// A gzip-only client gets gzip under the key `(path, Gzip)`; a brotli-only
/// client for the same path does not reuse that entry but has a key of its own.
pub proof fn lemma_codings_keyed_apart(
    endings: Seq<&'static str>,
    store: Map<KeyView, Seq<u8>>,
    path: &str,
    already_encoded: bool,
    content_type: Option<MediaType>,
    exclusions: Seq<MediaType>,
)
    ensures
        compression_choice(true, false, already_encoded, content_type, exclusions) is Some ==> compression_choice(
            true,
            false,
            already_encoded,
            content_type,
            exclusions,
        ) == Some(Algorithm::Gzip),
        match cached_decision(endings, store, path, true, false, already_encoded, content_type, exclusions) {
            Decision::PassThrough => true,
            Decision::Hit(a) => a == Algorithm::Gzip,
            Decision::Miss(a) => a == Algorithm::Gzip,
        },
        (path@, Algorithm::Gzip) != (path@, Algorithm::Brotli),
        !store.contains_key((path@, Algorithm::Brotli)) ==> match cached_decision(
            endings,
            store,
            path,
            false,
            true,
            already_encoded,
            content_type,
            exclusions,
        ) {
            Decision::PassThrough => true,
            Decision::Hit(_) => false,
            Decision::Miss(a) => a == Algorithm::Brotli,
        },
{
}

} // verus!
