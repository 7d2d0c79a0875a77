use asg::cache::ParsingCache;
use asg::cache::tokenize_file;
use asg::chunks::ParseChunkType;
use asg::metadata::FileInfo;

fn sample_info(title: &str) -> FileInfo {
    FileInfo {
        filename: "f.md".to_string(),
        url: "./f.html".to_string(),
        size: 1,
        word_count: 2,
        last_modified_os: String::new(),
        last_modified: String::new(),
        created_at: String::new(),
        title: title.to_string(),
        description: String::new(),
        tags: vec![String::new()],
    }
}

#[test]
fn same_path_twice_is_chunk_identical() {
    let mut cache = ParsingCache::new();
    let path = "page.html".to_string();
    let content = "a{{b}}c".to_string();
    let first = tokenize_file(&mut cache, &path, &content, 100, 5);

    // An unmodified file (its modification time precedes the stored parse
    // timestamp) is served from the cache, chunk-identical, without parsing.
    let again = cache.cache_fresh_parse(&path, 50).expect("fresh entry expected");
    assert_eq!(again.chunks.len(), first.chunks.len());
    for (a, b) in again.chunks.iter().zip(first.chunks.iter()) {
        assert_eq!(a.chunk, b.chunk);
        assert_eq!(a.chunk_type, b.chunk_type);
    }
    let once_more = cache.cache_fresh_parse(&path, 50).expect("fresh entry expected");
    assert_eq!(once_more.chunks.len(), first.chunks.len());
}

#[test]
fn modified_file_is_not_reused() {
    // The comparison direction, pinned: an entry is reused exactly when the
    // file's modification time is strictly below the stored parse timestamp.
    let mut cache = ParsingCache::new();
    let path = "page.html".to_string();
    let content = "x".to_string();
    let _ = tokenize_file(&mut cache, &path, &content, 100, 1);
    assert!(cache.cache_fresh_parse(&path, 99).is_some());
    assert!(cache.cache_fresh_parse(&path, 100).is_none());
    assert!(cache.cache_fresh_parse(&path, 101).is_none());
}

#[test]
fn unknown_path_misses() {
    let cache = ParsingCache::new();
    assert!(cache.cache_fresh_parse(&"nope.html".to_string(), 0).is_none());
    assert!(cache.cached_real_path(&"nope.html".to_string()).is_none());
}

#[test]
fn template_file_is_classified_and_cached() {
    let mut cache = ParsingCache::new();
    let resolved = "/root/dir/page.md".to_string();
    let content = "hi {{ x }}".to_string();
    let pp = tokenize_file(&mut cache, &resolved, &content, 7, 0);
    assert_eq!(pp.real_path, resolved);
    assert_eq!(pp.timestamp, 7);
    assert_eq!(pp.chunks.len(), 2);
    assert_eq!(pp.chunks[0].chunk_type, ParseChunkType::RawText);
    assert_eq!(pp.chunks[1].chunk_type, ParseChunkType::LuaValue);
    // Cached under the resolved path alone.
    assert!(cache.cache_fresh_parse(&resolved, 0).is_some());
    assert!(cache.cache_fresh_parse(&"dir/page.md".to_string(), 0).is_none());
    let stored = cache.cached_real_path(&resolved).expect("stored");
    assert_eq!(stored, &resolved);
}

#[test]
fn non_template_file_is_one_verbatim_chunk() {
    let mut cache = ParsingCache::new();
    let rel = "img.png".to_string();
    let content = "{{ not a template }}".to_string();
    let pp = tokenize_file(&mut cache, &rel, &content, 1, 0);
    assert_eq!(pp.chunks.len(), 1);
    assert_eq!(pp.chunks[0].chunk_type, ParseChunkType::RawText);
    assert_eq!(pp.chunks[0].chunk, content);
    assert_eq!(pp.real_path, rel);
    // Never inserted into the parse cache.
    assert!(cache.cached_real_path(&rel).is_none());
}

#[test]
fn pure_script_file_is_one_executable_chunk() {
    let mut cache = ParsingCache::new();
    let rel = "conf.lua".to_string();
    let content = "x = 1".to_string();
    let pp = tokenize_file(&mut cache, &rel, &content, 1, 0);
    assert_eq!(pp.chunks.len(), 1);
    assert_eq!(pp.chunks[0].chunk_type, ParseChunkType::LuaController);
    assert_eq!(pp.chunks[0].chunk, content);
    assert!(cache.cached_real_path(&rel).is_none());
}

#[test]
fn file_metadata_persists_and_replaces() {
    let mut cache = ParsingCache::new();
    let key = "posts/a.md".to_string();
    assert!(cache.file_info(&key).is_none());
    cache.record_file_info(&key, sample_info("first"));
    assert_eq!(cache.file_info(&key).unwrap().title, "first");
    cache.record_file_info(&key, sample_info("second"));
    assert_eq!(cache.file_info(&key).unwrap().title, "second");
    assert_eq!(cache.file_count(), 1);
    assert_eq!(cache.file_key_at(0), &key);
    assert_eq!(cache.file_info_at(0).title, "second");

    let other = "posts/b.md".to_string();
    cache.record_file_info(&other, sample_info("third"));
    assert_eq!(cache.file_count(), 2);
    assert_eq!(cache.file_info(&key).unwrap().title, "second");
}

#[test]
fn file_keys_are_found_by_name() {
    let mut cache = ParsingCache::new();
    cache.record_file_info(&"posts/a.md".to_string(), sample_info("a"));
    cache.record_file_info(&"posts/b.md".to_string(), sample_info("b"));
    cache.record_file_info(&"pages/a.md".to_string(), sample_info("a again"));

    assert_eq!(cache.find_file_key_named_from(&"a.md".to_string(), 0), Some(0));
    assert_eq!(cache.find_file_key_named_from(&"a.md".to_string(), 1), Some(2));
    assert_eq!(cache.find_file_key_named_from(&"a.md".to_string(), 3), None);
    assert_eq!(cache.find_file_key_named_from(&"b.md".to_string(), 0), Some(1));
    assert_eq!(cache.find_file_key_named_from(&"c.md".to_string(), 0), None);
}

#[test]
fn template_format_recognition() {
    for p in ["a.html", "a.md", "a.css", "a.js", "a.txt", "a.asg"] {
        assert!(asg::cache::is_template_path(p));
    }
    for p in ["a.png", "a.lua", "a", "md"] {
        assert!(!asg::cache::is_template_path(p));
    }
    assert!(asg::cache::is_pure_lua_path("x.lua"));
    assert!(!asg::cache::is_pure_lua_path("x.md"));
}
