use rocket_cached_compression::error_body::{ErrorBody, ReadFailure};
use rocket_cached_compression::fairing::{cache_control_value, CachedCompression, CachedStep, Compression, Outcome};
use rocket_cached_compression::media::{default_exclusions, matches_pattern, skip_encoding, MediaType};
use rocket_cached_compression::negotiation::{accepted_algorithms, select_algorithm, Algorithm};
use rocket_cached_compression::store::CacheStore;

fn js() -> Option<MediaType> {
    Some(MediaType::new("application", "javascript"))
}

fn body_of(o: &Outcome<String>) -> Vec<u8> {
    match o {
        Outcome::Compressed { body, .. } => body.as_ref().clone(),
        Outcome::Failed(_) => panic!("expected a compressed body"),
    }
}

#[test]
fn wildcard_and_exact_exclusions() {
    let ex = default_exclusions();
    assert!(skip_encoding(&Some(MediaType::new("image", "png")), &ex));
    assert!(skip_encoding(&Some(MediaType::new("Video", "MP4")), &ex));
    assert!(skip_encoding(&Some(MediaType::new("APPLICATION", "Zip")), &ex));
    assert!(skip_encoding(&Some(MediaType::new("application", "octet-stream")), &ex));
    assert!(!skip_encoding(&Some(MediaType::new("application", "json")), &ex));
    assert!(!skip_encoding(&Some(MediaType::new("text", "html")), &ex));
    assert!(!skip_encoding(&None, &ex));
    assert!(!skip_encoding(&Some(MediaType::new("image", "png")), &Vec::new()));
}

#[test]
fn pattern_matching() {
    let star = MediaType::new("image", "*");
    assert!(matches_pattern(&MediaType::new("image", "svg+xml"), &star));
    assert!(!matches_pattern(&MediaType::new("images", "png"), &star));
    let exact = MediaType::new("application", "gzip");
    assert!(!matches_pattern(&MediaType::new("application", "gzipped"), &exact));
    assert!(matches_pattern(&MediaType::new("application", "GZIP"), &exact));
}

#[test]
fn accept_encoding_tokens() {
    let v = |s: &str| vec![s.to_string()];
    assert_eq!(accepted_algorithms(&v("gzip, deflate, br")), (true, true));
    assert_eq!(accepted_algorithms(&v("gzip")), (true, false));
    assert_eq!(accepted_algorithms(&v("  br\t")), (false, true));
    assert_eq!(accepted_algorithms(&v("deflate,identity")), (false, false));
    assert_eq!(accepted_algorithms(&v("gzipx, brotli")), (false, false));
    assert_eq!(accepted_algorithms(&v("")), (false, false));
    assert_eq!(accepted_algorithms(&v(",,br,")), (false, true));
    assert_eq!(accepted_algorithms(&vec!["deflate".to_string(), "br, gzip".to_string()]), (true, true));
    assert_eq!(accepted_algorithms(&Vec::new()), (false, false));
}

#[test]
fn brotli_wins_ties() {
    assert_eq!(select_algorithm(true, true), Algorithm::Brotli);
    assert_eq!(select_algorithm(true, false), Algorithm::Gzip);
    assert_eq!(select_algorithm(false, true), Algorithm::Brotli);
    assert_eq!(Algorithm::Brotli.wire_name(), "br");
    assert_eq!(Algorithm::Gzip.wire_name(), "gzip");
    let c = Compression::fairing();
    assert_eq!(c.plan(true, true, false, &js(), &default_exclusions()), Some(Algorithm::Brotli));
}

#[test]
fn plain_orchestrator_gates() {
    let c = Compression::fairing();
    let ex = default_exclusions();
    assert_eq!(c.plan(true, false, false, &js(), &ex), Some(Algorithm::Gzip));
    assert_eq!(c.plan(false, false, false, &js(), &ex), None);
    assert_eq!(c.plan(true, true, true, &js(), &ex), None);
    assert_eq!(c.plan(true, true, false, &Some(MediaType::new("image", "jpeg")), &ex), None);
    assert_eq!(c.plan(true, true, false, &None, &ex), Some(Algorithm::Brotli));
    let out: Outcome<String> = c.finish(Algorithm::Gzip, Ok(vec![1, 2, 3]));
    assert_eq!(body_of(&out), vec![1, 2, 3]);
    assert_eq!(out.headers(), vec![("Content-Encoding", "gzip")]);
}

#[test]
fn cached_scenario_main_dart_js() {
    let cc = CachedCompression::fairing(vec!["main.dart.js"]);
    let ex = default_exclusions();
    let mut store = CacheStore::new();
    let path = "/assets/main.dart.js";
    let (gz, br) = accepted_algorithms(&vec!["br".to_string()]);
    let step = cc.plan(&store, path, gz, br, false, &js(), &ex);
    let enc = match step {
        CachedStep::Miss(a) => a,
        _ => panic!("expected a miss"),
    };
    assert_eq!(enc, Algorithm::Brotli);
    let compressed: Vec<u8> = vec![7, 1, 9, 9, 4, 2, 0];
    let n = compressed.len();
    let out: Outcome<String> = cc.finish(&mut store, path, enc, Ok(compressed.clone()));
    assert_eq!(
        out.headers(),
        vec![("Content-Encoding", "br"), ("Cache-Control", "max-age=31536000")]
    );
    assert_eq!(body_of(&out).len(), n);
    let stored = store.lookup(path, Algorithm::Brotli).expect("stored");
    assert_eq!(stored.len(), n);
    assert!(store.lookup(path, Algorithm::Gzip).is_none());

    match cc.plan(&store, path, gz, br, false, &js(), &ex) {
        CachedStep::Hit { encoding, body } => {
            assert_eq!(encoding, Algorithm::Brotli);
            let served: Outcome<String> = cc.serve(encoding, body);
            assert_eq!(body_of(&served), compressed);
            assert_eq!(served.headers(), vec![("Content-Encoding", "br")]);
        }
        _ => panic!("expected a hit"),
    }
}

#[test]
fn codings_have_separate_entries() {
    let cc = CachedCompression::fairing(vec![".otf", "main.dart.js"]);
    let ex = default_exclusions();
    let mut store = CacheStore::new();
    let path = "/fonts/a.otf";
    let enc = match cc.plan(&store, path, true, false, false, &None, &ex) {
        CachedStep::Miss(a) => a,
        _ => panic!("expected a miss"),
    };
    assert_eq!(enc, Algorithm::Gzip);
    let _: Outcome<String> = cc.finish(&mut store, path, enc, Ok(vec![1]));
    assert!(store.lookup(path, Algorithm::Gzip).is_some());
    match cc.plan(&store, path, false, true, false, &None, &ex) {
        CachedStep::Miss(a) => assert_eq!(a, Algorithm::Brotli),
        _ => panic!("brotli must not reuse the gzip entry"),
    }
    match cc.plan(&store, path, true, false, false, &None, &ex) {
        CachedStep::Hit { encoding, body } => {
            assert_eq!(encoding, Algorithm::Gzip);
            assert_eq!(*body, vec![1u8]);
        }
        _ => panic!("expected a hit"),
    }
}

#[test]
fn cached_orchestrator_passes_through() {
    let cc = CachedCompression::fairing(vec!["main.dart.js"]);
    let ex = default_exclusions();
    let mut store = CacheStore::new();
    assert!(cc.is_cached_path("/x/main.dart.js"));
    assert!(!cc.is_cached_path("/x/main.dart.js/"));
    assert!(!cc.is_cached_path("/x/other.js"));
    assert!(matches!(cc.plan(&store, "/index.html", true, true, false, &js(), &ex), CachedStep::PassThrough));
    assert!(matches!(cc.plan(&store, "/main.dart.js", false, false, false, &js(), &ex), CachedStep::PassThrough));
    assert!(matches!(cc.plan(&store, "/main.dart.js", true, true, true, &js(), &ex), CachedStep::PassThrough));
    let png = Some(MediaType::new("image", "png"));
    assert!(matches!(cc.plan(&store, "/main.dart.js", true, true, false, &png, &ex), CachedStep::PassThrough));
    let _: Outcome<String> = cc.finish(&mut store, "/main.dart.js", Algorithm::Brotli, Ok(vec![5]));
    assert!(matches!(cc.plan(&store, "/main.dart.js", true, true, true, &js(), &ex), CachedStep::PassThrough));
}

#[test]
fn failure_becomes_error_body() {
    let cc = CachedCompression::fairing(vec!["main.dart.js"]);
    let mut store = CacheStore::new();
    let out: Outcome<String> = cc.finish(&mut store, "/main.dart.js", Algorithm::Gzip, Err("source broke".to_string()));
    assert!(out.headers().is_empty());
    assert!(store.lookup("/main.dart.js", Algorithm::Gzip).is_none());
    match out {
        Outcome::Failed(mut eb) => {
            match eb.read() {
                ReadFailure::Captured(e) => assert_eq!(e, "source broke"),
                ReadFailure::AlreadyRead => panic!("first read must give the error"),
            }
            assert!(matches!(eb.read(), ReadFailure::AlreadyRead));
            assert!(matches!(eb.read(), ReadFailure::AlreadyRead));
        }
        Outcome::Compressed { .. } => panic!("expected a failed body"),
    }
    let plain: Outcome<u32> = Compression::fairing().finish(Algorithm::Brotli, Err(7));
    assert!(matches!(plain, Outcome::Failed(ErrorBody { error: Some(7) })));
}

#[test]
fn store_keeps_first_insert() {
    let mut store = CacheStore::new();
    store.insert("/a", Algorithm::Gzip, std::sync::Arc::new(vec![1, 2]));
    store.insert("/a", Algorithm::Gzip, std::sync::Arc::new(vec![3]));
    assert_eq!(*store.lookup("/a", Algorithm::Gzip).unwrap(), vec![1, 2]);
    assert!(store.lookup("/a/", Algorithm::Gzip).is_none());
    assert!(store.lookup("/a", Algorithm::Brotli).is_none());
    assert_eq!(cache_control_value(), "max-age=31536000");
}
