//! Parse cache and file metadata cache.
//!
//! The parse table memoizes the classified chunk sequence per source file
//! path; an entry is reused only while the file's modification time precedes
//! the stored parse timestamp. The file table records the metadata of each
//! compiled file for the whole session, for cross-file queries.

use vstd::prelude::*;

use crate::chunks::ChunkModel;
use crate::chunks::ParseChunk;
use crate::chunks::ParseChunkType;
use crate::chunks::chunks_view;
use crate::chunks::classify_source;
use crate::chunks::spec_classify_source;
use crate::metadata::FileInfo;
use crate::metadata::FileInfoModel;
use crate::text::str_ends_with;

verus! {

/// Character count above which a parse is not retained in the cache.
pub const PARSE_CACHE_CEILING: usize = 10 * 1024 * 1024 * 8;

/// A partially parsed file: classified chunks not yet executed or rendered.
#[derive(Clone, Debug)]
pub struct PartialParse {
    pub chunks: Vec<ParseChunk>,
    pub timestamp: u64,
    pub real_path: String,
    pub parse_nanos: u64,
}

/// Mathematical model of a [`PartialParse`].
pub struct PartialParseModel {
    pub chunks: Seq<ChunkModel>,
    pub timestamp: u64,
    pub real_path: Seq<char>,
    pub parse_nanos: u64,
}

impl View for PartialParse {
    type V = PartialParseModel;

    open spec fn view(&self) -> PartialParseModel {
        PartialParseModel {
            chunks: chunks_view(self.chunks@),
            timestamp: self.timestamp,
            real_path: self.real_path@,
            parse_nanos: self.parse_nanos,
        }
    }
}

/// Index of the first entry of `es` at or after `i` whose key reads `key`;
/// `es.len()` if none.
pub open spec fn find_key<T>(es: Seq<(String, T)>, key: Seq<char>, i: int) -> int
    recommends
        0 <= i <= es.len(),
    decreases es.len() - i,
    when 0 <= i <= es.len()
{
    if i >= es.len() {
        es.len() as int
    } else if es[i].0@ == key {
        i
    } else {
        find_key(es, key, i + 1)
    }
}

pub proof fn lemma_find_key_bounds<T>(es: Seq<(String, T)>, key: Seq<char>, i: int)
    requires
        0 <= i <= es.len(),
    ensures
        i <= find_key(es, key, i) <= es.len(),
        find_key(es, key, i) < es.len() ==> es[find_key(es, key, i)].0@ == key,
        forall|j: int| i <= j < find_key(es, key, i) ==> es[j].0@ != key,
    decreases es.len() - i,
{
    if i < es.len() && es[i].0@ != key {
        lemma_find_key_bounds(es, key, i + 1);
    }
}

pub proof fn lemma_find_key_is<T>(es: Seq<(String, T)>, key: Seq<char>, i: int, j: int)
    requires
        0 <= i <= j <= es.len(),
        forall|m: int| i <= m < j ==> es[m].0@ != key,
        j == es.len() || es[j].0@ == key,
    ensures
        find_key(es, key, i) == j,
    decreases j - i,
{
    if i < j {
        lemma_find_key_is(es, key, i + 1, j);
    }
}

/// The session caches: parse table and file metadata table.
pub struct ParsingCache {
    cache: Vec<(String, PartialParse)>,
    file_cache: Vec<(String, FileInfo)>,
}

impl ParsingCache {
    /// The memoized parse stored under a path, if any.
    pub closed spec fn parse_lookup(&self, key: Seq<char>) -> Option<PartialParseModel> {
        let i = find_key(self.cache@, key, 0);
        if i < self.cache@.len() {
            Some(self.cache@[i].1@)
        } else {
            None
        }
    }

    /// The file metadata recorded under a path, if any.
    pub closed spec fn file_lookup(&self, key: Seq<char>) -> Option<FileInfoModel> {
        let i = find_key(self.file_cache@, key, 0);
        if i < self.file_cache@.len() {
            Some(self.file_cache@[i].1@)
        } else {
            None
        }
    }

    /// The recorded file metadata entries, in insertion order.
    pub closed spec fn file_entries(&self) -> Seq<(String, FileInfo)> {
        self.file_cache@
    }

    /// A fresh session with both tables empty.
    pub fn new() -> (c: ParsingCache)
        ensures
            forall|k: Seq<char>| c.parse_lookup(k) is None,
            forall|k: Seq<char>| c.file_lookup(k) is None,
            c.file_entries() == Seq::<(String, FileInfo)>::empty(),
    {
        let c = ParsingCache { cache: Vec::new(), file_cache: Vec::new() };
        proof {
            assert(c.file_entries() =~= Seq::<(String, FileInfo)>::empty());
        }
        c
    }

    /// Index of the parse entry keyed by `key`, or the table length.
    fn find_parse_idx(&self, key: &String) -> (i: usize)
        ensures
            i == find_key(self.cache@, key@, 0),
    {
        let mut i: usize = 0;
        while i < self.cache.len()
            invariant
                0 <= i <= self.cache@.len(),
                forall|j: int| 0 <= j < i ==> self.cache@[j].0@ != key@,
            decreases self.cache@.len() - i,
        {
            if self.cache[i].0.eq(key) {
                proof {
                    lemma_find_key_is(self.cache@, key@, 0, i as int);
                }
                return i;
            }
            i = i + 1;
        }
        proof {
            lemma_find_key_is(self.cache@, key@, 0, self.cache@.len() as int);
        }
        i
    }

    /// Index of the file metadata entry keyed by `key`, or the table length.
    fn find_file_idx(&self, key: &String) -> (i: usize)
        ensures
            i == find_key(self.file_cache@, key@, 0),
    {
        let mut i: usize = 0;
        while i < self.file_cache.len()
            invariant
                0 <= i <= self.file_cache@.len(),
                forall|j: int| 0 <= j < i ==> self.file_cache@[j].0@ != key@,
            decreases self.file_cache@.len() - i,
        {
            if self.file_cache[i].0.eq(key) {
                proof {
                    lemma_find_key_is(self.file_cache@, key@, 0, i as int);
                }
                return i;
            }
            i = i + 1;
        }
        proof {
            lemma_find_key_is(self.file_cache@, key@, 0, self.file_cache@.len() as int);
        }
        i
    }

    /// The stored resolved path of the parse memoized under `path`, if any.
    /// Its file's current modification time decides reuse.
    pub fn cached_real_path(&self, path: &String) -> (r: Option<&String>)
        ensures
            match r {
                Some(rp) => self.parse_lookup(path@) matches Some(e) && rp@ == e.real_path,
                None => self.parse_lookup(path@) is None,
            },
    {
        let i = self.find_parse_idx(path);
        proof {
            lemma_find_key_bounds(self.cache@, path@, 0);
        }
        if i < self.cache.len() {
            Some(&self.cache[i].1.real_path)
        } else {
            None
        }
    }

    /// The memoized parse under `path`, provided it is still fresh: the
    /// file's modification time must precede the stored parse timestamp.
    /// Returns the stored entry unchanged; nothing is re-tokenized.
    pub fn cache_fresh_parse(&self, path: &String, file_mtime: u64) -> (r: Option<&PartialParse>)
        ensures
            match r {
                Some(pp) => self.parse_lookup(path@) == Some(pp@) && file_mtime < pp@.timestamp,
                None => match self.parse_lookup(path@) {
                    Some(e) => file_mtime >= e.timestamp,
                    None => true,
                },
            },
    {
        let i = self.find_parse_idx(path);
        proof {
            lemma_find_key_bounds(self.cache@, path@, 0);
        }
        if i < self.cache.len() {
            let entry = &self.cache[i].1;
            if file_mtime < entry.timestamp {
                Some(entry)
            } else {
                None
            }
        } else {
            None
        }
    }

    /// Stores a parse under `key`, replacing any entry with that key.
    pub fn store_parse(&mut self, key: &String, pp: PartialParse)
        ensures
            final(self).parse_lookup(key@) == Some(pp@),
            forall|k: Seq<char>|
                k != key@ ==> final(self).parse_lookup(k) == old(self).parse_lookup(k),
            forall|k: Seq<char>| final(self).file_lookup(k) == old(self).file_lookup(k),
            final(self).file_entries() == old(self).file_entries(),
    {
        let ghost es0 = self.cache@;
        let i = self.find_parse_idx(key);
        proof {
            lemma_find_key_bounds(es0, key@, 0);
        }
        if i < self.cache.len() {
            self.cache.set(i, (key.clone(), pp));
            proof {
                let es1 = self.cache@;
                assert forall|m: int| 0 <= m < es1.len() implies es1[m].0@ == es0[m].0@ by {
                    if m == i as int {
                        assert(es0[m].0@ == key@);
                    }
                }
                assert forall|k: Seq<char>| #[trigger]
                    find_key(es1, k, 0) == find_key(es0, k, 0) by {
                    lemma_find_key_bounds(es0, k, 0);
                    let f = find_key(es0, k, 0);
                    lemma_find_key_is(es1, k, 0, f);
                }
                assert forall|k: Seq<char>| k != key@ implies self.parse_lookup(k) == old(
                    self,
                ).parse_lookup(k) by {
                    lemma_find_key_bounds(es0, k, 0);
                    let f = find_key(es0, k, 0);
                    if f < es0.len() {
                        assert(es0[f].0@ == k);
                        assert(f != i as int);
                    }
                }
                assert(self.parse_lookup(key@) == Some(pp@));
            }
        } else {
            self.cache.push((key.clone(), pp));
            proof {
                let es1 = self.cache@;
                assert forall|k: Seq<char>|
                    k != key@ implies #[trigger] self.parse_lookup(k) == old(
                    self,
                ).parse_lookup(k) by {
                    lemma_find_key_bounds(es0, k, 0);
                    let f = find_key(es0, k, 0);
                    if f < es0.len() {
                        lemma_find_key_is(es1, k, 0, f);
                    } else {
                        assert(es1[es0.len() as int].0@ == key@);
                        lemma_find_key_is(es1, k, 0, es1.len() as int);
                    }
                }
                assert forall|m: int| 0 <= m < es0.len() implies self.cache@[m].0@
                    != key@ by {
                    lemma_find_key_bounds(es0, key@, 0);
                }
                lemma_find_key_is(self.cache@, key@, 0, es0.len() as int);
                assert(self.parse_lookup(key@) == Some(pp@));
            }
        }
    }

    /// Records the metadata of a compiled file under `key`, replacing any
    /// entry with that key. Entries persist for the whole session: recording
    /// never removes one, and the keys already recorded keep their places.
    pub fn record_file_info(&mut self, key: &String, info: FileInfo)
        ensures
            final(self).file_lookup(key@) == Some(info@),
            forall|k: Seq<char>|
                k != key@ ==> final(self).file_lookup(k) == old(self).file_lookup(k),
            forall|k: Seq<char>| final(self).parse_lookup(k) == old(self).parse_lookup(k),
            final(self).file_entries().len() >= old(self).file_entries().len(),
            forall|i: int|
                0 <= i < old(self).file_entries().len() ==> final(self).file_entries()[i].0@ == old(
                    self,
                ).file_entries()[i].0@,
    {
        let ghost es0 = self.file_cache@;
        let i = self.find_file_idx(key);
        proof {
            lemma_find_key_bounds(es0, key@, 0);
        }
        if i < self.file_cache.len() {
            self.file_cache.set(i, (key.clone(), info));
            proof {
                let es1 = self.file_cache@;
                assert forall|m: int| 0 <= m < es1.len() implies es1[m].0@ == es0[m].0@ by {
                    if m == i as int {
                        assert(es0[m].0@ == key@);
                    }
                }
                assert forall|k: Seq<char>| #[trigger]
                    find_key(es1, k, 0) == find_key(es0, k, 0) by {
                    lemma_find_key_bounds(es0, k, 0);
                    let f = find_key(es0, k, 0);
                    lemma_find_key_is(es1, k, 0, f);
                }
                assert forall|k: Seq<char>| k != key@ implies self.file_lookup(k) == old(
                    self,
                ).file_lookup(k) by {
                    lemma_find_key_bounds(es0, k, 0);
                    let f = find_key(es0, k, 0);
                    if f < es0.len() {
                        assert(es0[f].0@ == k);
                        assert(f != i as int);
                    }
                }
                assert(self.file_lookup(key@) == Some(info@));
            }
        } else {
            self.file_cache.push((key.clone(), info));
            proof {
                let es1 = self.file_cache@;
                assert forall|k: Seq<char>|
                    k != key@ implies #[trigger] self.file_lookup(k) == old(
                    self,
                ).file_lookup(k) by {
                    lemma_find_key_bounds(es0, k, 0);
                    let f = find_key(es0, k, 0);
                    if f < es0.len() {
                        lemma_find_key_is(es1, k, 0, f);
                    } else {
                        assert(es1[es0.len() as int].0@ == key@);
                        lemma_find_key_is(es1, k, 0, es1.len() as int);
                    }
                }
                assert forall|m: int| 0 <= m < es0.len() implies self.file_cache@[m].0@
                    != key@ by {
                    lemma_find_key_bounds(es0, key@, 0);
                }
                lemma_find_key_is(self.file_cache@, key@, 0, es0.len() as int);
                assert(self.file_lookup(key@) == Some(info@));
            }
        }
    }

    /// Index of the first recorded file metadata entry, at or after `start`,
    /// whose path's final component reads `filename`; `None` when no entry
    /// from `start` on matches. Callers read the file behind the key and may
    /// continue the search past an unreadable one.
    #[verifier::loop_isolation(false)]
    pub fn find_file_key_named_from(&self, filename: &String, start: usize) -> (r: Option<usize>)
        requires
            start <= self.file_entries().len(),
        ensures
            match r {
                Some(i) => start <= i < self.file_entries().len()
                    && crate::paths::spec_file_name(self.file_entries()[i as int].0@) == filename@
                    && (forall|j: int|
                    start <= j < i ==> crate::paths::spec_file_name(
                        #[trigger] self.file_entries()[j].0@,
                    ) != filename@),
                None => forall|j: int|
                    start <= j < self.file_entries().len() ==> crate::paths::spec_file_name(
                        #[trigger] self.file_entries()[j].0@,
                    ) != filename@,
            },
    {
        let mut i: usize = start;
        while i < self.file_cache.len()
            invariant
                start <= i <= self.file_cache@.len(),
                forall|j: int|
                    start <= j < i ==> crate::paths::spec_file_name(
                        #[trigger] self.file_cache@[j].0@,
                    ) != filename@,
            decreases self.file_cache@.len() - i,
        {
            let name = crate::paths::file_name_of(self.file_cache[i].0.as_str());
            if name.eq(filename) {
                return Some(i);
            }
            i = i + 1;
        }
        None
    }

    /// The metadata recorded under `key`, if any.
    pub fn file_info(&self, key: &String) -> (r: Option<&FileInfo>)
        ensures
            match r {
                Some(info) => self.file_lookup(key@) == Some(info@),
                None => self.file_lookup(key@) is None,
            },
    {
        let i = self.find_file_idx(key);
        proof {
            lemma_find_key_bounds(self.file_cache@, key@, 0);
        }
        if i < self.file_cache.len() {
            Some(&self.file_cache[i].1)
        } else {
            None
        }
    }

    /// Number of recorded file metadata entries.
    pub fn file_count(&self) -> (n: usize)
        ensures
            n == self.file_entries().len(),
    {
        self.file_cache.len()
    }

    /// The path of the `i`-th recorded file metadata entry.
    pub fn file_key_at(&self, i: usize) -> (r: &String)
        requires
            i < self.file_entries().len(),
        ensures
            r@ == self.file_entries()[i as int].0@,
    {
        &self.file_cache[i].0
    }

    /// The metadata of the `i`-th recorded file metadata entry.
    pub fn file_info_at(&self, i: usize) -> (r: &FileInfo)
        requires
            i < self.file_entries().len(),
        ensures
            r@ == self.file_entries()[i as int].1@,
    {
        &self.file_cache[i].1
    }
}

impl Default for ParsingCache {
    fn default() -> (c: Self)
        ensures
            forall|k: Seq<char>| c.parse_lookup(k) is None,
            forall|k: Seq<char>| c.file_lookup(k) is None,
    {
        ParsingCache::new()
    }
}

/// Do the template formats cover this path? Files of other formats bypass
/// templating and are emitted verbatim.
pub open spec fn spec_is_template_path(p: Seq<char>) -> bool {
    crate::text::spec_ends_with(p, ".html"@) || crate::text::spec_ends_with(p, ".md"@)
        || crate::text::spec_ends_with(p, ".css"@) || crate::text::spec_ends_with(p, ".js"@)
        || crate::text::spec_ends_with(p, ".txt"@) || crate::text::spec_ends_with(p, ".asg"@)
}

pub fn is_template_path(p: &str) -> (r: bool)
    ensures
        r == spec_is_template_path(p@),
{
    str_ends_with(p, ".html") || str_ends_with(p, ".md") || str_ends_with(p, ".css")
        || str_ends_with(p, ".js") || str_ends_with(p, ".txt") || str_ends_with(p, ".asg")
}

/// Is this a whole-file script, executed rather than templated?
pub open spec fn spec_is_pure_lua_path(p: Seq<char>) -> bool {
    crate::text::spec_ends_with(p, ".lua"@)
}

pub fn is_pure_lua_path(p: &str) -> (r: bool)
    ensures
        r == spec_is_pure_lua_path(p@),
{
    str_ends_with(p, ".lua")
}

/// The chunks a file parses to: template formats are tokenized and
/// classified; a whole-file script is one executable chunk; anything else is
/// one verbatim chunk.
pub open spec fn spec_parse_file(resolved: Seq<char>, content: Seq<char>) -> Seq<ChunkModel> {
    if !spec_is_template_path(resolved) || spec_is_pure_lua_path(resolved) {
        let kind = if spec_is_pure_lua_path(resolved) {
            ParseChunkType::LuaController
        } else {
            ParseChunkType::RawText
        };
        seq![ChunkModel { text: content, kind }]
    } else {
        spec_classify_source(content)
    }
}

/// Duplicates a chunk sequence, preserving its model.
fn copy_chunks(v: &Vec<ParseChunk>) -> (r: Vec<ParseChunk>)
    ensures
        chunks_view(r@) == chunks_view(v@),
{
    let mut r: Vec<ParseChunk> = Vec::new();
    let mut i: usize = 0;
    while i < v.len()
        invariant
            0 <= i <= v@.len(),
            chunks_view(r@) =~= chunks_view(v@).subrange(0, i as int),
        decreases v@.len() - i,
    {
        let c = &v[i];
        let ghost prev = chunks_view(r@);
        r.push(ParseChunk { chunk: c.chunk.clone(), chunk_type: c.chunk_type });
        proof {
            assert(chunks_view(r@) =~= prev + seq![v@[i as int]@]);
            assert(chunks_view(v@).subrange(0, i as int + 1) =~= prev + seq![v@[i as int]@]);
        }
        i = i + 1;
    }
    proof {
        assert(chunks_view(v@).subrange(0, v@.len() as int) =~= chunks_view(v@));
    }
    r
}

/// Parses the content read from a file into classified chunks, and memoizes
/// the parse under the resolved path where the format is a templated one and
/// the content lies below the cache ceiling. Callers resolve the path before
/// any cache access, so entries are never shared across distinct resolved
/// paths, whatever relative names alias them.
///
/// `resolved_path` is the file the content was read from; `timestamp` the
/// moment of this parse; `parse_nanos` its measured duration.
pub fn tokenize_file(
    cache: &mut ParsingCache,
    resolved_path: &String,
    content: &String,
    timestamp: u64,
    parse_nanos: u64,
) -> (pp: PartialParse)
    ensures
        chunks_view(pp.chunks@) == spec_parse_file(resolved_path@, content@),
        pp.timestamp == timestamp,
        pp.parse_nanos == parse_nanos,
        pp.real_path@ == resolved_path@,
        if spec_is_template_path(resolved_path@) && !spec_is_pure_lua_path(resolved_path@)
            && content@.len() < PARSE_CACHE_CEILING {
            final(cache).parse_lookup(resolved_path@) == Some(pp@) && (forall|k: Seq<char>|
                k != resolved_path@ ==> final(cache).parse_lookup(k) == old(cache).parse_lookup(k))
        } else {
            forall|k: Seq<char>| final(cache).parse_lookup(k) == old(cache).parse_lookup(k)
        },
        forall|k: Seq<char>| final(cache).file_lookup(k) == old(cache).file_lookup(k),
        final(cache).file_entries() == old(cache).file_entries(),
{
    let templating = is_template_path(resolved_path.as_str());
    let is_pure_lua = is_pure_lua_path(resolved_path.as_str());
    if !templating || is_pure_lua {
        let chunk_type = if is_pure_lua {
            ParseChunkType::LuaController
        } else {
            ParseChunkType::RawText
        };
        let chunks: Vec<ParseChunk> = vec![ParseChunk { chunk: content.clone(), chunk_type }];
        proof {
            assert(chunks_view(chunks@) =~= spec_parse_file(resolved_path@, content@));
        }
        return PartialParse {
            chunks,
            timestamp,
            real_path: resolved_path.clone(),
            parse_nanos,
        };
    }
    let chunks = classify_source(content.as_str());
    let pp = PartialParse { chunks, timestamp, real_path: resolved_path.clone(), parse_nanos };
    if content.as_str().unicode_len() < PARSE_CACHE_CEILING {
        let stored = PartialParse {
            chunks: copy_chunks(&pp.chunks),
            timestamp,
            real_path: resolved_path.clone(),
            parse_nanos,
        };
        proof {
            assert(stored@ == pp@);
        }
        cache.store_parse(resolved_path, stored);
    }
    pp
}

} // verus!
