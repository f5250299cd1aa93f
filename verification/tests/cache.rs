use sha2::{Digest, Sha256};
use which_llm::cache::{is_cache_file, Cache, CacheStats, Lookup, DEFAULT_TTL_SECS};

#[test]
fn test_cache_key_generation() {
    let key1 = Cache::cache_key("llms", &[]);
    let key2 = Cache::cache_key("llms", &[("model", "gpt-4")]);
    let key3 = Cache::cache_key("llms", &[]);

    assert_ne!(key1, key2);
    assert_eq!(key1, key3);
}

fn framed(hasher: &mut Sha256, text: &str) {
    hasher.update(text.as_bytes());
    hasher.update((text.len() as u64).to_be_bytes());
}

fn reference_key(endpoint: &str, params: &[(&str, &str)]) -> String {
    let mut hasher = Sha256::new();
    framed(&mut hasher, endpoint);
    for (key, value) in params {
        framed(&mut hasher, key);
        framed(&mut hasher, value);
    }
    let hash = hex::encode(hasher.finalize());
    format!("{}-{}", endpoint.replace('/', "-"), &hash[..16])
}

#[test]
fn cache_key_is_the_dashed_endpoint_and_sixteen_hex_digits_of_the_digest() {
    assert_eq!(
        Cache::cache_key("/data/llms/models", &[]),
        reference_key("/data/llms/models", &[])
    );
    assert_eq!(
        Cache::cache_key("llms", &[("model", "gpt-4"), ("é", "ü")]),
        reference_key("llms", &[("model", "gpt-4"), ("é", "ü")])
    );
    assert_eq!(Cache::cache_key("", &[]), reference_key("", &[]));
    assert_eq!(Cache::cache_key("", &[]), "-af5570f5a1810b7a");
    assert_eq!(Cache::cache_key("abc", &[]), "abc-b74ffbd3cb2a7ef1");
    assert_eq!(
        Cache::cache_key("llms", &[("model", "gpt-4")]),
        "llms-44f615ea630d081b"
    );
    assert!(Cache::cache_key("/data/llms/models", &[]).starts_with("-data-llms-models-"));
    let long = "x".repeat(70_000);
    assert_eq!(
        Cache::cache_key(&long, &[(&long, "")]),
        reference_key(&long, &[(&long, "")])
    );
}

#[test]
fn cache_keys_differ_with_the_endpoint_or_a_parameter() {
    let base = Cache::cache_key("llms", &[("a", "b")]);
    assert_ne!(base, Cache::cache_key("media", &[("a", "b")]));
    assert_ne!(base, Cache::cache_key("llms", &[("a", "c")]));
    assert_ne!(base, Cache::cache_key("llms", &[("c", "b")]));
    assert_ne!(base, Cache::cache_key("llms", &[("a", "b"), ("a", "b")]));
    assert_ne!(base, Cache::cache_key("llms", &[]));
    assert_ne!(
        Cache::cache_key("a/b", &[]),
        Cache::cache_key("a-b", &[])
    );
    assert_ne!(
        Cache::cache_key("llms", &[("ab", "c")]),
        Cache::cache_key("llms", &[("a", "bc")])
    );
    assert_eq!(Cache::cache_key("llms", &[("ab", "c")]), "llms-359bebe00ce541b3");
    assert_eq!(Cache::cache_key("llms", &[("a", "bc")]), "llms-6bdc022d95f384be");
    assert_ne!(
        Cache::cache_key("llms", &[("", "abc")]),
        Cache::cache_key("llms", &[("abc", "")])
    );
    assert_ne!(
        Cache::cache_key("llms", &[("a", "b")]),
        Cache::cache_key("llmsa", &[("", "b")])
    );
    assert_ne!(
        Cache::cache_key("llms", &[]),
        Cache::cache_key("media", &[])
    );
}

#[test]
fn payloads_are_fresh_for_less_than_the_time_of_validity() {
    let cache = Cache::new("/tmp/c".to_string());
    assert_eq!(DEFAULT_TTL_SECS, 3600);
    let written = 1_700_000_000;
    assert!(cache.is_fresh(written, written));
    assert!(cache.is_fresh(written, written + 1));
    assert!(cache.is_fresh(written, written + 3599));
    assert!(!cache.is_fresh(written, written + 3600));
    assert!(!cache.is_fresh(written, written + 3601));
    assert!(!cache.is_fresh(written, written + 86_400));
    assert!(cache.is_fresh(written, written - 10));
    assert!(!cache.is_fresh(i64::MIN, i64::MAX));
    assert!(cache.is_fresh(i64::MAX, i64::MIN));
    assert_eq!(cache.judge(None, written), Lookup::Absent);
    assert_eq!(cache.judge(Some(written), written + 3599), Lookup::Fresh);
    assert_eq!(cache.judge(Some(written), written + 3600), Lookup::Stale);
}

#[test]
fn paths_lie_in_the_directory_of_the_cache() {
    let cache = Cache::new("/var/cache/which-llm".to_string());
    assert_eq!(cache.base_dir(), "/var/cache/which-llm");
    assert_eq!(cache.parquet_path("llms"), "/var/cache/which-llm/llms.parquet");
    assert_eq!(
        cache.entry_path("llms-0123456789abcdef"),
        "/var/cache/which-llm/llms-0123456789abcdef.json"
    );
    let slashed = Cache::new("dir/".to_string());
    assert_eq!(slashed.parquet_path("t"), "dir/t.parquet");
    let here = Cache::new(String::new());
    assert_eq!(here.parquet_path("t"), "t.parquet");
    let odd = Cache::new("a\\b".to_string());
    assert_eq!(odd.base_dir(), "a\\b");
    assert_eq!(odd.parquet_path("llms"), "a\\b/llms.parquet");
    assert_eq!(odd.entry_path("k"), "a\\b/k.json");
    for (dir, name) in [("/var/c", "llms"), ("dir/", "t"), ("a\\b", "x"), ("rel", "y.z")] {
        let expected = std::path::Path::new(dir).join(format!("{name}.parquet"));
        assert_eq!(
            Cache::new(dir.to_string()).parquet_path(name),
            expected.to_string_lossy()
        );
    }
}

fn stats(total_size: u64) -> CacheStats {
    CacheStats {
        location: "/tmp".to_string(),
        entry_count: 3,
        total_size,
    }
}

fn reference_size(n: u64) -> String {
    if n < 1024 {
        format!("{} B", n)
    } else if n < 1024 * 1024 {
        format!("{:.1} KB", n as f64 / 1024.0)
    } else {
        format!("{:.1} MB", n as f64 / (1024.0 * 1024.0))
    }
}

#[test]
fn sizes_are_written_for_people() {
    assert_eq!(stats(0).size_human(), "0 B");
    assert_eq!(stats(1023).size_human(), "1023 B");
    assert_eq!(stats(1024).size_human(), "1.0 KB");
    assert_eq!(stats(1536).size_human(), "1.5 KB");
    assert_eq!(stats(1280).size_human(), "1.2 KB");
    assert_eq!(stats(1792).size_human(), "1.8 KB");
    assert_eq!(stats(1024 * 1024 - 1).size_human(), "1024.0 KB");
    assert_eq!(stats(1024 * 1024).size_human(), "1.0 MB");
    assert_eq!(stats(5 * 1024 * 1024 + 512 * 1024).size_human(), "5.5 MB");
    for n in [
        0u64,
        1,
        999,
        1023,
        1024,
        1075,
        1076,
        1280,
        1792,
        2304,
        10_000,
        123_456,
        1_048_575,
        1_048_576,
        1_101_004,
        1_310_720,
        1_835_008,
        987_654_321,
        1 << 40,
        (1 << 40) + (1 << 19),
        9_007_199_254_740_992,
    ] {
        assert_eq!(stats(n).size_human(), reference_size(n), "{n}");
    }
    assert_eq!(stats(u64::MAX).size_human(), "17592186044416.0 MB");
}

#[test]
fn a_key_is_put_together_from_the_first_eight_bytes_of_a_digest() {
    let digest: Vec<u8> = (0u8..32).map(|i| i * 8 + 1).collect();
    assert_eq!(
        Cache::key_from_digest("/a/b", &digest),
        "-a-b-0109111921293139"
    );
    assert_eq!(
        Cache::key_from_digest("x", &vec![0xab, 0xcd]),
        "x-abcd000000000000"
    );
    assert_eq!(Cache::key_from_digest("", &vec![]), "-0000000000000000");
    assert_eq!(
        Cache::key_from_digest("q", &vec![0xff; 9]),
        "q-ffffffffffffffff"
    );
}

#[test]
fn cache_files_end_in_json_or_parquet() {
    for name in [
        "llms.parquet",
        "key.json",
        "a.b.json",
        ".hidden.json",
        "..json",
        "json",
        ".json",
        "x.JSON",
        "x.json.tmp",
        "x.parquet.tmp",
        "x.",
        "",
        ".",
        "x.jsonl",
        "parquet.txt",
    ] {
        let path = std::path::Path::new(name);
        let ext = path.extension().and_then(|e| e.to_str());
        let expected = ext == Some("json") || ext == Some("parquet");
        assert_eq!(is_cache_file(name), expected, "{name:?}");
    }
    assert!(is_cache_file("llms.parquet"));
    assert!(!is_cache_file("llms.parquet.tmp"));
}

#[test]
fn statistics_count_and_add_up() {
    let none = CacheStats::of("/c".to_string(), &vec![]);
    assert_eq!(none.location, "/c");
    assert_eq!(none.entry_count, 0);
    assert_eq!(none.total_size, 0);
    let some = CacheStats::of("/c".to_string(), &vec![10, 0, 1014]);
    assert_eq!(some.entry_count, 3);
    assert_eq!(some.total_size, 1024);
    assert_eq!(some.size_human(), "1.0 KB");
    let full = CacheStats::of("/c".to_string(), &vec![u64::MAX, 1, 5]);
    assert_eq!(full.entry_count, 3);
    assert_eq!(full.total_size, u64::MAX);
}
