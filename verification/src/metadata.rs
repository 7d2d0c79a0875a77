//! Derived per-file metadata: title, description, tags, word count, and the
//! destination address of a compiled file.

use vstd::prelude::*;
use vstd::string::StrSliceExecFns;
use vstd::string::StringExecFns;

use crate::text::count_words;
use crate::text::lines_of;
use crate::text::spec_lines;
use crate::text::spec_split;
use crate::text::spec_starts_with;
use crate::text::spec_trim;
use crate::text::spec_word_count;
use crate::text::split_str;
use crate::text::str_ends_with;
use crate::text::str_starts_with;
use crate::text::strings_view;
use crate::text::trim_str;

verus! {

/// Information about a compiled file, recorded in the file metadata cache
/// and exposed to the scripting context.
#[derive(Clone, Debug)]
pub struct FileInfo {
    pub filename: String,
    pub url: String,
    pub size: i64,
    pub word_count: i64,
    pub last_modified_os: String,
    pub last_modified: String,
    pub created_at: String,
    pub title: String,
    pub description: String,
    pub tags: Vec<String>,
}

/// Mathematical model of a [`FileInfo`].
pub struct FileInfoModel {
    pub filename: Seq<char>,
    pub url: Seq<char>,
    pub size: i64,
    pub word_count: i64,
    pub last_modified_os: Seq<char>,
    pub last_modified: Seq<char>,
    pub created_at: Seq<char>,
    pub title: Seq<char>,
    pub description: Seq<char>,
    pub tags: Seq<Seq<char>>,
}

impl View for FileInfo {
    type V = FileInfoModel;

    open spec fn view(&self) -> FileInfoModel {
        FileInfoModel {
            filename: self.filename@,
            url: self.url@,
            size: self.size,
            word_count: self.word_count,
            last_modified_os: self.last_modified_os@,
            last_modified: self.last_modified@,
            created_at: self.created_at@,
            title: self.title@,
            description: self.description@,
            tags: strings_view(self.tags@),
        }
    }
}

/// Is a line non-blank, i.e. not whitespace only?
pub open spec fn spec_nonblank(l: Seq<char>) -> bool {
    spec_trim(l).len() > 0
}

/// The `k`-th non-blank member of `ls` at or after `i`, if any.
pub open spec fn nth_nonblank_from(ls: Seq<Seq<char>>, i: int, k: int) -> Option<Seq<char>>
    recommends
        0 <= i <= ls.len(),
    decreases ls.len() - i,
    when 0 <= i <= ls.len()
{
    if i >= ls.len() {
        None
    } else if spec_nonblank(ls[i]) {
        if k <= 0 {
            Some(ls[i])
        } else {
            nth_nonblank_from(ls, i + 1, k - 1)
        }
    } else {
        nth_nonblank_from(ls, i + 1, k)
    }
}

/// The `k`-th non-blank line of `s`, or empty if there is none.
pub open spec fn spec_nth_nonblank_line(s: Seq<char>, k: int) -> Seq<char> {
    match nth_nonblank_from(spec_lines(s), 0, k) {
        Some(l) => l,
        None => Seq::empty(),
    }
}

/// Title, description, tags and word count derived from a compiled file.
pub struct DerivedMetadata {
    pub title: String,
    pub description: String,
    pub tags: Vec<String>,
    pub word_count: usize,
}

/// Derives metadata from the tag-stripped plain text of a compiled file and
/// the configured overrides.
///
/// The configured title and description win over the content regardless of
/// it; without them the first and second non-blank plain-text lines are
/// taken, or empty when the text has too few such lines. The tags are the
/// comma-separated pieces of the configured value; a missing or empty value
/// yields one empty tag.
#[verifier::loop_isolation(false)]
pub fn derive_metadata(
    stripped: &str,
    cfg_title: &Option<String>,
    cfg_description: &Option<String>,
    cfg_tags: &Option<String>,
) -> (d: DerivedMetadata)
    ensures
        d.title@ == (match cfg_title {
            Some(t) => t@,
            None => spec_nth_nonblank_line(stripped@, 0),
        }),
        d.description@ == (match cfg_description {
            Some(t) => t@,
            None => spec_nth_nonblank_line(stripped@, 1),
        }),
        strings_view(d.tags@) == spec_split(
            match cfg_tags {
                Some(t) => t@,
                None => Seq::<char>::empty(),
            },
            ',',
        ),
        d.word_count == spec_word_count(stripped@),
{
    let lines = lines_of(stripped);
    let ghost sv = strings_view(lines@);
    let mut first: Option<String> = None;
    let mut second: Option<String> = None;
    let mut i: usize = 0;
    while i < lines.len() && second.is_none()
        invariant
            0 <= i <= lines@.len(),
            sv == strings_view(lines@),
            match first {
                Some(x) => nth_nonblank_from(sv, 0, 0) == Some(x@),
                None => second is None && nth_nonblank_from(sv, 0, 0) == nth_nonblank_from(
                    sv,
                    i as int,
                    0,
                ) && nth_nonblank_from(sv, 0, 1) == nth_nonblank_from(sv, i as int, 1),
            },
            match second {
                Some(y) => nth_nonblank_from(sv, 0, 1) == Some(y@),
                None => first is Some ==> nth_nonblank_from(sv, 0, 1) == nth_nonblank_from(
                    sv,
                    i as int,
                    0,
                ),
            },
        decreases lines@.len() - i,
    {
        let line = &lines[i];
        let t = trim_str(line.as_str());
        if t.as_str().unicode_len() > 0 {
            if first.is_none() {
                first = Some(line.clone());
            } else {
                second = Some(line.clone());
            }
        }
        i = i + 1;
    }
    let title = match cfg_title {
        Some(t) => t.clone(),
        None => match &first {
            Some(l) => l.clone(),
            None => String::new(),
        },
    };
    let description = match cfg_description {
        Some(t) => t.clone(),
        None => match &second {
            Some(l) => l.clone(),
            None => String::new(),
        },
    };
    let tags = match cfg_tags {
        Some(t) => split_str(t.as_str(), ','),
        None => split_str("", ','),
    };
    proof {
        if cfg_tags is None {
            reveal_strlit("");
            assert(""@ =~= Seq::<char>::empty());
        }
    }
    let word_count = count_words(stripped);
    DerivedMetadata { title, description, tags, word_count }
}

/// Derives metadata straight from rendered markup: the markup is stripped to
/// plain text by the document model, and title, description, tags and word
/// count are taken from that text and the configured overrides as
/// [`derive_metadata`] does.
pub fn derive_metadata_from_html(
    html: &str,
    cfg_title: &Option<String>,
    cfg_description: &Option<String>,
    cfg_tags: &Option<String>,
) -> (d: DerivedMetadata)
    ensures
        d.title@ == (match cfg_title {
            Some(t) => t@,
            None => spec_nth_nonblank_line(crate::handle_html::plain_text_of(html@), 0),
        }),
        d.description@ == (match cfg_description {
            Some(t) => t@,
            None => spec_nth_nonblank_line(crate::handle_html::plain_text_of(html@), 1),
        }),
        strings_view(d.tags@) == spec_split(
            match cfg_tags {
                Some(t) => t@,
                None => Seq::<char>::empty(),
            },
            ',',
        ),
        d.word_count == spec_word_count(crate::handle_html::plain_text_of(html@)),
{
    let stripped = crate::handle_html::strip_html(html);
    derive_metadata(stripped.as_str(), cfg_title, cfg_description, cfg_tags)
}

/// Assembles the [`FileInfo`] record of one compiled file from its derived
/// metadata and its identity as the caller observed it. The word count is
/// clamped into the record's integer range.
pub fn make_file_info(
    derived: DerivedMetadata,
    filename: String,
    url: String,
    size: i64,
    last_modified_os: String,
    last_modified: String,
    created_at: String,
) -> (info: FileInfo)
    ensures
        info.filename@ == filename@,
        info.url@ == url@,
        info.size == size,
        info.word_count == if derived.word_count <= i64::MAX as usize {
            derived.word_count as i64
        } else {
            i64::MAX
        },
        info.last_modified_os@ == last_modified_os@,
        info.last_modified@ == last_modified@,
        info.created_at@ == created_at@,
        info.title@ == derived.title@,
        info.description@ == derived.description@,
        strings_view(info.tags@) == strings_view(derived.tags@),
{
    let word_count: i64 = if derived.word_count <= i64::MAX as usize {
        derived.word_count as i64
    } else {
        i64::MAX
    };
    FileInfo {
        filename,
        url,
        size,
        word_count,
        last_modified_os,
        last_modified,
        created_at,
        title: derived.title,
        description: derived.description,
        tags: derived.tags,
    }
}

/// Path stripping as the destination address derivation uses it: the part of
/// `file` under the directory `base`, or `base` itself where `file` does not
/// lie under it.
pub open spec fn spec_strip_prefix_path(file: Seq<char>, base: Seq<char>) -> Seq<char> {
    if file == base {
        Seq::empty()
    } else if spec_starts_with(file, base + seq!['/']) {
        file.skip(base.len() as int + 1)
    } else {
        base
    }
}

/// Joining a relative path under the current directory marker.
pub open spec fn spec_dot_join(rel: Seq<char>) -> Seq<char> {
    if rel.len() > 0 && rel[0] == '/' {
        rel
    } else {
        "./"@ + rel
    }
}

/// The destination address of a compiled source file: its path under the
/// input directory, joined below the current directory, with a markup
/// extension rewritten to the rendered one.
pub open spec fn spec_destination_url(file: Seq<char>, base: Seq<char>) -> Seq<char> {
    let joined = spec_dot_join(spec_strip_prefix_path(file, base));
    if spec_ends_with_md(joined) {
        joined.subrange(0, joined.len() - 2) + "html"@
    } else {
        joined
    }
}

pub open spec fn spec_ends_with_md(s: Seq<char>) -> bool {
    crate::text::spec_ends_with(s, ".md"@)
}

/// Computes the destination address a compiled file is written to.
pub fn get_destination_url(file_path: &str, base_input_dir: &str) -> (r: String)
    ensures
        r@ == spec_destination_url(file_path@, base_input_dir@),
{
    let flen = file_path.unicode_len();
    let blen = base_input_dir.unicode_len();
    let mut prefix = String::from_str(base_input_dir);
    prefix.append("/");
    proof {
        reveal_strlit("/");
        assert(prefix@ =~= base_input_dir@ + seq!['/']);
    }
    let rel: String = if flen == blen && str_starts_with(file_path, base_input_dir) {
        proof {
            assert(file_path@ =~= base_input_dir@);
        }
        String::new()
    } else if str_starts_with(file_path, prefix.as_str()) {
        proof {
            assert(file_path@ != base_input_dir@);
            assert(file_path@.subrange(blen as int + 1, flen as int) =~= file_path@.skip(
                blen as int + 1,
            ));
        }
        file_path.substring_char(blen + 1, flen).to_owned()
    } else {
        proof {
            if file_path@ == base_input_dir@ {
                assert(file_path@.subrange(0, base_input_dir@.len() as int)
                    =~= base_input_dir@);
                assert(false);
            }
        }
        String::from_str(base_input_dir)
    };
    let rlen = rel.as_str().unicode_len();
    let joined: String = if rlen > 0 && rel.as_str().get_char(0) == '/' {
        rel
    } else {
        let mut j = String::from_str("./");
        j.append(rel.as_str());
        j
    };
    if str_ends_with(joined.as_str(), ".md") {
        proof {
            reveal_strlit(".md");
        }
        let jlen = joined.as_str().unicode_len();
        let mut out = joined.as_str().substring_char(0, jlen - 2).to_owned();
        out.append("html");
        proof {
            assert(out@ =~= spec_destination_url(file_path@, base_input_dir@));
        }
        out
    } else {
        joined
    }
}

} // verus!
