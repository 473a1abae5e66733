//! Fragment discovery and metadata resolution: selection and exclusion of
//! candidate files, front-matter extraction, dependency candidates, and the
//! cross-fragment metadata merge.
//!
//! The filesystem walks live outside the crate; the functions here take the
//! walked path lists and the file contents as plain values.

use vstd::prelude::*;
use crate::chars::{
    contains_seq, contains_sub, ext_of_path, file_name_spec, file_name_chars, find_sub_from,
    matches_at, seq_eqi, starts_with_chars, str_to_chars, chars_eqi_str, chars_eq_str,
};
use crate::errors::AutoDocError;
use crate::metadata::{
    DocumentMetadata, MarkdownFile, MarkdownFileView, MetadataView, ProjectConfig,
    ProjectConfigView, empty_metadata,
};
use crate::yaml::{meta_of_block, parse_meta_block};

verus! {

/// Whether the regex pattern (compiled as a regular expression, or read as
/// literal text when it does not compile) matches anywhere in the text.
pub uninterp spec fn regex_match_spec(pattern: Seq<char>, text: Seq<char>) -> bool;

/// Relies on `regex::Regex`: matches the pattern against the text, falling
/// back to the escaped (literal) reading of a pattern that does not compile.
#[verifier::external_body]
fn pattern_matches(pattern: &str, text: &Vec<char>) -> (r: bool)
    ensures
        r == regex_match_spec(pattern@, text@),
{
    let t: String = text.iter().collect();
    match regex::Regex::new(pattern) {
        Ok(re) => re.is_match(&t),
        Err(_) => match regex::Regex::new(&regex::escape(pattern)) {
            Ok(re) => re.is_match(&t),
            Err(_) => t.contains(pattern),
        },
    }
}

/// The first capture group of each match of the pattern in the text, in
/// match order; a pattern that does not compile has no matches.
pub uninterp spec fn regex_captures_spec(pattern: Seq<char>, text: Seq<char>) -> Seq<Seq<char>>;

/// Relies on `regex::Regex::captures_iter`: collects the first capture
/// group of every match.
#[verifier::external_body]
fn capture_group1(pattern: &str, text: &str) -> (r: Vec<String>)
    ensures
        r.deep_view() == regex_captures_spec(pattern@, text@),
{
    match regex::Regex::new(pattern) {
        Ok(re) => re.captures_iter(text).map(
            |c| c.get(1).map(|m| m.as_str().to_string()).unwrap_or_default(),
        ).collect(),
        Err(_) => Vec::new(),
    }
}

/// A file name is excluded when any configured pattern matches it.
pub open spec fn excluded(patterns: Seq<Seq<char>>, name: Seq<char>) -> bool {
    exists|k: int| 0 <= k < patterns.len() && regex_match_spec(patterns[k], name)
}

/// A path selects as a fragment when its extension is `md` and its file
/// name matches no exclusion pattern.
pub open spec fn fragment_selected(patterns: Seq<Seq<char>>, path: Seq<char>) -> bool {
    ext_of_path(path) == Some("md"@) && !excluded(patterns, file_name_spec(path))
}

/// Enumerates the files of one discovery pass from walked path lists.
pub struct FileDiscovery {
    pub project_config: ProjectConfig,
}

impl FileDiscovery {
    pub fn new(config: ProjectConfig) -> (r: FileDiscovery)
        ensures
            r.project_config@ == config@,
    {
        FileDiscovery { project_config: config }
    }

    /// Whether the final component of `path` matches a configured exclusion
    /// pattern.
    pub fn should_exclude(&self, path: &str) -> (r: bool)
        ensures
            r == excluded(self.project_config@.exclude_files, file_name_spec(path@)),
    {
        let chars = str_to_chars(path);
        let name = file_name_chars(&chars);
        let ghost patterns = self.project_config@.exclude_files;
        let n = self.project_config.exclude_files.len();
        let mut k: usize = 0;
        while k < n
            invariant
                k <= n,
                n == patterns.len(),
                patterns == self.project_config@.exclude_files,
                name@ == file_name_spec(path@),
                forall|j: int| 0 <= j < k ==> !regex_match_spec(patterns[j], name@),
            decreases n - k,
        {
            let p = &self.project_config.exclude_files[k];
            proof {
                assert(p@ == patterns[k as int]);
            }
            if pattern_matches(p.as_str(), &name) {
                return true;
            }
            k += 1;
        }
        false
    }

    /// Selects the fragment files among walked paths: extension `md`, not
    /// excluded.  The order of the walk is kept.
    pub fn filter_markdown_paths(&self, paths: &Vec<String>) -> (r: Vec<String>)
        ensures
            r.deep_view() == paths.deep_view().filter(
                |p: Seq<char>| fragment_selected(self.project_config@.exclude_files, p),
            ),
    {
        broadcast use vstd::seq_lib::group_filter_ensures, Seq::lemma_filter_push;

        let ghost pred = |p: Seq<char>|
            fragment_selected(self.project_config@.exclude_files, p);
        let mut r: Vec<String> = Vec::new();
        let mut i: usize = 0;
        proof {
            assert(paths.deep_view().take(0) =~= Seq::<Seq<char>>::empty());
            assert(r.deep_view() =~= Seq::<Seq<char>>::empty().filter(pred));
        }
        while i < paths.len()
            invariant
                i <= paths@.len(),
                pred == (|p: Seq<char>|
                    fragment_selected(self.project_config@.exclude_files, p)),
                r.deep_view() == paths.deep_view().take(i as int).filter(pred),
            decreases paths@.len() - i,
        {
            let ghost r_old = r.deep_view();
            let p = &paths[i];
            let chars = str_to_chars(p.as_str());
            let ext = crate::chars::ext_of_path_chars(&chars);
            let is_md = match ext {
                Some(e) => chars_eq_str(&e, "md"),
                None => false,
            };
            let keep = is_md && !self.should_exclude(p.as_str());
            proof {
                assert(paths.deep_view()[i as int] == paths@[i as int]@);
                assert(keep == pred(paths.deep_view()[i as int]));
            }
            if keep {
                r.push(p.clone());
                proof {
                    assert(r.deep_view() =~= r_old.push(paths.deep_view()[i as int]));
                }
            }
            proof {
                assert(paths.deep_view().take(i + 1) =~= paths.deep_view().take(i as int).push(
                    paths.deep_view()[i as int],
                ));
                paths.deep_view().take(i as int).lemma_filter_push(
                    paths.deep_view()[i as int],
                    pred,
                );
            }
            i += 1;
        }
        proof {
            assert(paths.deep_view().take(paths@.len() as int) =~= paths.deep_view());
        }
        r
    }

    /// Selects the paths with one of the given extensions: compared exactly,
    /// or without regard to ASCII case when `fold_case` is set.  The order
    /// of the walk is kept.
    fn filter_by_extension(paths: &Vec<String>, exts: &Vec<String>, fold_case: bool) -> (r: Vec<
        String,
    >)
        ensures
            fold_case ==> r.deep_view() == paths.deep_view().filter(
                (|p: Seq<char>| ext_in(exts.deep_view(), p)),
            ),
            !fold_case ==> r.deep_view() == paths.deep_view().filter(
                (|p: Seq<char>| ext_in_exact(exts.deep_view(), p)),
            ),
    {
        broadcast use vstd::seq_lib::group_filter_ensures, Seq::lemma_filter_push;

        let ghost pred: spec_fn(Seq<char>) -> bool = if fold_case {
            |p: Seq<char>| ext_in(exts.deep_view(), p)
        } else {
            |p: Seq<char>| ext_in_exact(exts.deep_view(), p)
        };
        let mut r: Vec<String> = Vec::new();
        let mut i: usize = 0;
        proof {
            assert(paths.deep_view().take(0) =~= Seq::<Seq<char>>::empty());
            assert(r.deep_view() =~= Seq::<Seq<char>>::empty().filter(pred));
        }
        while i < paths.len()
            invariant
                i <= paths@.len(),
                pred == if fold_case {
                    (|p: Seq<char>| ext_in(exts.deep_view(), p))
                } else {
                    (|p: Seq<char>| ext_in_exact(exts.deep_view(), p))
                },
                r.deep_view() == paths.deep_view().take(i as int).filter(pred),
            decreases paths@.len() - i,
        {
            let ghost r_old = r.deep_view();
            let p = &paths[i];
            let keep = has_ext_in(p.as_str(), exts, fold_case);
            proof {
                assert(paths.deep_view()[i as int] == paths@[i as int]@);
                assert(keep == pred(paths.deep_view()[i as int]));
            }
            if keep {
                r.push(p.clone());
                proof {
                    assert(r.deep_view() =~= r_old.push(paths.deep_view()[i as int]));
                }
            }
            proof {
                assert(paths.deep_view().take(i + 1) =~= paths.deep_view().take(i as int).push(
                    paths.deep_view()[i as int],
                ));
                paths.deep_view().take(i as int).lemma_filter_push(
                    paths.deep_view()[i as int],
                    pred,
                );
            }
            i += 1;
        }
        proof {
            assert(paths.deep_view().take(paths@.len() as int) =~= paths.deep_view());
        }
        r
    }

    /// Selects the diagram source files: extension `mmd`, compared exactly.
    pub fn filter_mermaid_paths(&self, paths: &Vec<String>) -> (r: Vec<String>)
        ensures
            r.deep_view() == paths.deep_view().filter(
                (|p: Seq<char>| ext_in_exact(seq!["mmd"@], p)),
            ),
    {
        let exts = vec![String::from_str("mmd")];
        proof {
            assert(exts.deep_view() =~= seq!["mmd"@]);
        }
        Self::filter_by_extension(paths, &exts, false)
    }

    /// Selects the image files of the images directory walk.
    pub fn filter_image_paths(&self, paths: &Vec<String>) -> (r: Vec<String>)
        ensures
            r.deep_view() == paths.deep_view().filter(
                (|p: Seq<char>|
                    ext_in(
                        seq!["png"@, "jpg"@, "jpeg"@, "svg"@, "pdf"@, "gif"@, "webp"@],
                        p,
                    )),
            ),
    {
        let exts = vec![
            String::from_str("png"),
            String::from_str("jpg"),
            String::from_str("jpeg"),
            String::from_str("svg"),
            String::from_str("pdf"),
            String::from_str("gif"),
            String::from_str("webp"),
        ];
        proof {
            assert(exts.deep_view() =~= seq![
                "png"@,
                "jpg"@,
                "jpeg"@,
                "svg"@,
                "pdf"@,
                "gif"@,
                "webp"@,
            ]);
        }
        Self::filter_by_extension(paths, &exts, true)
    }

    /// Selects the template files of the templates directory walk:
    /// extension `latex` or `tex`, compared exactly.
    pub fn filter_template_paths(&self, paths: &Vec<String>) -> (r: Vec<String>)
        ensures
            r.deep_view() == paths.deep_view().filter(
                (|p: Seq<char>| ext_in_exact(seq!["latex"@, "tex"@], p)),
            ),
    {
        let exts = vec![String::from_str("latex"), String::from_str("tex")];
        proof {
            assert(exts.deep_view() =~= seq!["latex"@, "tex"@]);
        }
        Self::filter_by_extension(paths, &exts, false)
    }

    /// Selects the bibliography files of the project walk.
    pub fn filter_bibliography_paths(&self, paths: &Vec<String>) -> (r: Vec<String>)
        ensures
            r.deep_view() == paths.deep_view().filter(
                (|p: Seq<char>| ext_in(seq!["bib"@, "bibtex"@, "json"@, "yaml"@], p)),
            ),
    {
        let exts = vec![
            String::from_str("bib"),
            String::from_str("bibtex"),
            String::from_str("json"),
            String::from_str("yaml"),
        ];
        proof {
            assert(exts.deep_view() =~= seq!["bib"@, "bibtex"@, "json"@, "yaml"@]);
        }
        Self::filter_by_extension(paths, &exts, true)
    }
}

/// Whether the path's extension equals one of `exts`, without regard to
/// ASCII case.
pub open spec fn ext_in(exts: Seq<Seq<char>>, path: Seq<char>) -> bool {
    match ext_of_path(path) {
        Some(e) => exists|k: int| 0 <= k < exts.len() && seq_eqi(e, exts[k]),
        None => false,
    }
}

/// Whether the path's extension equals one of `exts` exactly.
pub open spec fn ext_in_exact(exts: Seq<Seq<char>>, path: Seq<char>) -> bool {
    match ext_of_path(path) {
        Some(e) => exts.contains(e),
        None => false,
    }
}

/// Whether the extension of `path` is one of `exts`: compared exactly, or
/// without regard to ASCII case when `fold_case` is set.
#[verifier::loop_isolation(false)]
fn has_ext_in(path: &str, exts: &Vec<String>, fold_case: bool) -> (r: bool)
    ensures
        fold_case ==> r == ext_in(exts.deep_view(), path@),
        !fold_case ==> r == ext_in_exact(exts.deep_view(), path@),
{
    let chars = str_to_chars(path);
    let ext = crate::chars::ext_of_path_chars(&chars);
    match ext {
        None => false,
        Some(e) => {
            let n = exts.len();
            let mut k: usize = 0;
            while k < n
                invariant
                    k <= n,
                    n == exts@.len(),
                    ext_of_path(path@) == Some(e@),
                    fold_case ==> forall|j: int|
                        0 <= j < k ==> !seq_eqi(e@, exts.deep_view()[j]),
                    !fold_case ==> forall|j: int| 0 <= j < k ==> e@ != exts.deep_view()[j],
                decreases n - k,
            {
                proof {
                    assert(exts.deep_view()[k as int] == exts@[k as int]@);
                }
                let hit = if fold_case {
                    chars_eqi_str(&e, exts[k].as_str())
                } else {
                    chars_eq_str(&e, exts[k].as_str())
                };
                if hit {
                    proof {
                        if !fold_case {
                            assert(exts.deep_view().contains(e@)) by {
                                assert(exts.deep_view()[k as int] == e@);
                            }
                        }
                    }
                    return true;
                }
                k += 1;
            }
            proof {
                if !fold_case {
                    assert(!exts.deep_view().contains(e@)) by {
                        if exts.deep_view().contains(e@) {
                            let j = choose|j: int|
                                0 <= j < exts.deep_view().len() && exts.deep_view()[j] == e@;
                            assert(e@ != exts.deep_view()[j]);
                        }
                    }
                }
            }
            false
        },
    }
}

} // verus!

verus! {

/// The index of the first occurrence of `pat` in `s`, if any.
pub open spec fn first_occ(s: Seq<char>, pat: Seq<char>) -> Option<int>
    decreases s.len(),
{
    if matches_at(s, pat, 0) {
        Some(0)
    } else if s.len() == 0 {
        None
    } else {
        match first_occ(s.skip(1), pat) {
            Some(i) => Some(i + 1),
            None => None,
        }
    }
}

/// Shifts an occurrence across `skip`.
pub proof fn lemma_matches_at_skip(c: Seq<char>, pat: Seq<char>, k: int, i: int)
    requires
        0 <= k <= c.len(),
        0 <= i,
    ensures
        matches_at(c.skip(k), pat, i) == matches_at(c, pat, k + i),
{
    if i + pat.len() <= c.skip(k).len() {
        assert(c.skip(k).subrange(i, i + pat.len() as int) =~= c.subrange(
            k + i,
            k + i + pat.len() as int,
        ));
    }
}

/// `first_occ` is the least occurrence.
pub proof fn lemma_first_occ_is(s: Seq<char>, pat: Seq<char>, e: int)
    requires
        matches_at(s, pat, e),
        forall|j: int| 0 <= j < e ==> !matches_at(s, pat, j),
    ensures
        first_occ(s, pat) == Some(e),
    decreases s.len(),
{
    if e == 0 {
    } else {
        assert(!matches_at(s, pat, 0));
        assert(s.len() > 0);
        lemma_matches_at_skip(s, pat, 1, e - 1);
        assert forall|j: int| 0 <= j < e - 1 implies !matches_at(s.skip(1), pat, j) by {
            lemma_matches_at_skip(s, pat, 1, j);
        }
        lemma_first_occ_is(s.skip(1), pat, e - 1);
    }
}

/// Without any occurrence, `first_occ` is `None`.
pub proof fn lemma_first_occ_none(s: Seq<char>, pat: Seq<char>)
    requires
        forall|j: int| 0 <= j ==> !matches_at(s, pat, j),
    ensures
        first_occ(s, pat) is None,
    decreases s.len(),
{
    if s.len() > 0 {
        assert forall|j: int| 0 <= j implies !matches_at(s.skip(1), pat, j) by {
            lemma_matches_at_skip(s, pat, 1, j);
        }
        lemma_first_occ_none(s.skip(1), pat);
    }
}

/// A fragment file opens with a front-matter block when its first line is
/// the delimiter.
pub open spec fn has_open_delim(c: Seq<char>) -> bool {
    "---\n"@.is_prefix_of(c)
}

/// The contract of front-matter extraction on the text `c`: no opening
/// delimiter parses as empty metadata with the whole text as body; an
/// opening delimiter without a closing one, or with an unparsable block, is
/// a parse failure; otherwise the block parses under the schema and the
/// body is what follows the closing delimiter.
pub open spec fn frontmatter_ok(
    c: Seq<char>,
    r: Result<(DocumentMetadata, String), AutoDocError>,
) -> bool {
    if !has_open_delim(c) {
        &&& r is Ok
        &&& r->Ok_0.0@ == empty_metadata()
        &&& r->Ok_0.1@ == c
    } else {
        match first_occ(c.skip(4), "\n---\n"@) {
            None => r is Err && r->Err_0 is Yaml,
            Some(e) => {
                let yaml = c.skip(4).take(e);
                let body = c.skip(4).skip(e + 5);
                match meta_of_block(yaml) {
                    Some(m) => r is Ok && r->Ok_0.0@ == m && r->Ok_0.1@ == body,
                    None => r is Err && r->Err_0 is Yaml,
                }
            },
        }
    }
}

/// Parses fragment files: front-matter extraction and the metadata merge.
pub struct MetadataParser;

impl MetadataParser {
    /// Splits a fragment's text into its front-matter metadata and its
    /// body.  A file that does not open with the delimiter line has empty
    /// metadata and its full text as body; an unterminated or unparsable
    /// block is a parse failure.
    #[verifier::loop_isolation(false)]
    pub fn extract_frontmatter(content: &str) -> (r: Result<
        (DocumentMetadata, String),
        AutoDocError,
    >)
        ensures
            frontmatter_ok(content@, r),
    {
        let chars = str_to_chars(content);
        let open_pat = str_to_chars("---\n");
        proof {
            reveal_strlit("---\n");
        }
        if !starts_with_chars(&chars, &open_pat) {
            let meta = DocumentMetadata::new_empty();
            let body = content.to_owned();
            return Ok((meta, body));
        }
        proof {
            reveal_strlit("\n---\n");
        }
        let close_pat = str_to_chars("\n---\n");
        match find_sub_from(&chars, &close_pat, 4) {
            None => {
                proof {
                    assert forall|j: int| 0 <= j implies !matches_at(
                        content@.skip(4),
                        "\n---\n"@,
                        j,
                    ) by {
                        lemma_matches_at_skip(content@, "\n---\n"@, 4, j);
                        assert(!matches_at(content@, "\n---\n"@, 4 + j));
                    }
                    lemma_first_occ_none(content@.skip(4), "\n---\n"@);
                }
                Err(
                    AutoDocError::Yaml(
                        String::from_str("front matter block has no closing delimiter"),
                    ),
                )
            },
            Some(abs) => {
                proof {
                    lemma_matches_at_skip(content@, "\n---\n"@, 4, abs - 4);
                    assert forall|j: int| 0 <= j < abs - 4 implies !matches_at(
                        content@.skip(4),
                        "\n---\n"@,
                        j,
                    ) by {
                        lemma_matches_at_skip(content@, "\n---\n"@, 4, j);
                    }
                    lemma_first_occ_is(content@.skip(4), "\n---\n"@, abs - 4);
                }
                let n = content.unicode_len();
                let yaml_part = content.substring_char(4, abs);
                let body_part = content.substring_char(abs + 5, n);
                proof {
                    assert(yaml_part@ =~= content@.skip(4).take(abs - 4));
                    assert(body_part@ =~= content@.skip(4).skip(abs - 4 + 5));
                }
                match parse_meta_block(yaml_part) {
                    Ok(meta) => Ok((meta, body_part.to_owned())),
                    Err(msg) => {
                        let mut m = String::from_str("invalid front matter: ");
                        m.append(msg.as_str());
                        Err(AutoDocError::Yaml(m))
                    },
                }
            },
        }
    }

    /// Whether a body holds an inline diagram code block.
    pub fn detect_inline_mermaid(content: &str) -> (r: bool)
        ensures
            r == contains_seq(content@, "```mermaid"@),
    {
        let chars = str_to_chars(content);
        let pat = str_to_chars("```mermaid");
        contains_sub(&chars, &pat)
    }

    /// Parses one fragment from its path, text and modification time.  The
    /// dependency list starts empty; the caller fills it from the
    /// candidates once their existence is known.
    pub fn parse_file(path: &str, content: &str, last_modified: u64) -> (r: Result<
        MarkdownFile,
        AutoDocError,
    >)
        ensures
            r is Ok <==> frontmatter_is_ok(content@),
            r is Err ==> r->Err_0 is Yaml,
            r is Ok ==> {
                let f = r->Ok_0@;
                &&& f.path == path@
                &&& Some(f.metadata) == frontmatter_meta(content@)
                &&& Some(f.content) == frontmatter_body(content@)
                &&& f.has_inline_mermaid == contains_seq(
                    frontmatter_body(content@)->Some_0,
                    "```mermaid"@,
                )
                &&& f.dependencies == Seq::<Seq<char>>::empty()
                &&& f.last_modified == last_modified
            },
    {
        match Self::extract_frontmatter(content) {
            Err(e) => {
                proof {
                    lemma_frontmatter_fns(content@, Err(e));
                }
                Err(e)
            },
            Ok((metadata, body)) => {
                let has_inline_mermaid = Self::detect_inline_mermaid(body.as_str());
                let ghost rr = Ok::<(DocumentMetadata, String), AutoDocError>(
                    (metadata, body),
                );
                proof {
                    lemma_frontmatter_fns(content@, rr);
                }
                let f = MarkdownFile {
                    path: String::from_str(path),
                    metadata,
                    content: body,
                    has_inline_mermaid,
                    dependencies: Vec::new(),
                    last_modified,
                };
                proof {
                    assert(f.dependencies.deep_view() =~= Seq::<Seq<char>>::empty());
                }
                Ok(f)
            },
        }
    }
}

/// Whether front-matter extraction succeeds on the text.
pub open spec fn frontmatter_is_ok(c: Seq<char>) -> bool {
    if !has_open_delim(c) {
        true
    } else {
        match first_occ(c.skip(4), "\n---\n"@) {
            None => false,
            Some(e) => meta_of_block(c.skip(4).take(e)) is Some,
        }
    }
}

/// The metadata front-matter extraction yields on the text, when it
/// succeeds.
pub open spec fn frontmatter_meta(c: Seq<char>) -> Option<MetadataView> {
    if !has_open_delim(c) {
        Some(empty_metadata())
    } else {
        match first_occ(c.skip(4), "\n---\n"@) {
            None => None,
            Some(e) => meta_of_block(c.skip(4).take(e)),
        }
    }
}

/// The body front-matter extraction yields on the text, when it succeeds.
pub open spec fn frontmatter_body(c: Seq<char>) -> Option<Seq<char>> {
    if !has_open_delim(c) {
        Some(c)
    } else {
        match first_occ(c.skip(4), "\n---\n"@) {
            None => None,
            Some(e) => if meta_of_block(c.skip(4).take(e)) is Some {
                Some(c.skip(4).skip(e + 5))
            } else {
                None
            },
        }
    }
}

/// Ties the one-piece contract of `extract_frontmatter` to its projections.
proof fn lemma_frontmatter_fns(c: Seq<char>, r: Result<(DocumentMetadata, String), AutoDocError>)
    requires
        frontmatter_ok(c, r),
    ensures
        r is Ok <==> frontmatter_is_ok(c),
        r is Ok ==> Some(r->Ok_0.0@) == frontmatter_meta(c),
        r is Ok ==> Some(r->Ok_0.1@) == frontmatter_body(c),
{
}

} // verus!

verus! {

/// The reserved fragment name whose metadata takes full precedence.
pub open spec fn is_reserved_name(path: Seq<char>) -> bool {
    file_name_spec(path) == "00-setup.md"@
}

/// The metadata of the first fragment carrying the reserved name, if any.
pub open spec fn reserved_meta(files: Seq<MarkdownFileView>) -> Option<MetadataView>
    decreases files.len(),
{
    if files.len() == 0 {
        None
    } else if is_reserved_name(files[0].path) {
        Some(files[0].metadata)
    } else {
        reserved_meta(files.skip(1))
    }
}

/// Fills every key of `t` that is still unset from `s`; keys already set in
/// `t` are never overridden.  The open bag of unrecognized keys follows the
/// seed alone.
pub open spec fn merge2(t: MetadataView, s: MetadataView) -> MetadataView {
    MetadataView {
        title: if t.title is Some { t.title } else { s.title },
        author: if t.author is Some { t.author } else { s.author },
        date: if t.date is Some { t.date } else { s.date },
        subtitle: if t.subtitle is Some { t.subtitle } else { s.subtitle },
        lang: if t.lang is Some { t.lang } else { s.lang },
        babel_lang: if t.babel_lang is Some { t.babel_lang } else { s.babel_lang },
        top_level_division: if t.top_level_division is Some { t.top_level_division } else { s.top_level_division },
        numbersections: if t.numbersections is Some { t.numbersections } else { s.numbersections },
        secnumdepth: if t.secnumdepth is Some { t.secnumdepth } else { s.secnumdepth },
        toc: if t.toc is Some { t.toc } else { s.toc },
        toc_depth: if t.toc_depth is Some { t.toc_depth } else { s.toc_depth },
        lof: if t.lof is Some { t.lof } else { s.lof },
        lot: if t.lot is Some { t.lot } else { s.lot },
        documentclass: if t.documentclass is Some { t.documentclass } else { s.documentclass },
        classoption: if t.classoption is Some { t.classoption } else { s.classoption },
        geometry: if t.geometry is Some { t.geometry } else { s.geometry },
        fontsize: if t.fontsize is Some { t.fontsize } else { s.fontsize },
        mainfont: if t.mainfont is Some { t.mainfont } else { s.mainfont },
        sansfont: if t.sansfont is Some { t.sansfont } else { s.sansfont },
        monofont: if t.monofont is Some { t.monofont } else { s.monofont },
        bibliography: if t.bibliography is Some { t.bibliography } else { s.bibliography },
        csl: if t.csl is Some { t.csl } else { s.csl },
        link_citations: if t.link_citations is Some { t.link_citations } else { s.link_citations },
        colorlinks: if t.colorlinks is Some { t.colorlinks } else { s.colorlinks },
        linkcolor: if t.linkcolor is Some { t.linkcolor } else { s.linkcolor },
        urlcolor: if t.urlcolor is Some { t.urlcolor } else { s.urlcolor },
        citecolor: if t.citecolor is Some { t.citecolor } else { s.citecolor },
        book: if t.book is Some { t.book } else { s.book },
        custom: t.custom,
    }
}

/// Scans the fragments in discovery order, filling still-unset keys.
pub open spec fn merge_fold(files: Seq<MarkdownFileView>, acc: MetadataView) -> MetadataView
    decreases files.len(),
{
    if files.len() == 0 {
        acc
    } else {
        merge_fold(files.skip(1), merge2(acc, files[0].metadata))
    }
}

/// The merged configuration of one build cycle: the reserved fragment's
/// metadata seeds the result in entirety, and every key still unset is
/// filled with the first value found in discovery order.  Keys no fragment
/// sets remain unset; the orchestrator applies its built-in defaults to
/// them.
pub open spec fn merge_spec(files: Seq<MarkdownFileView>) -> MetadataView {
    merge_fold(files, merge_seed(files))
}

/// The first set value of two optional strings.
fn opt_str_or(a: &Option<String>, b: &Option<String>) -> (r: Option<String>)
    ensures
        crate::metadata::view_opt_str(r) == if crate::metadata::view_opt_str(*a) is Some {
            crate::metadata::view_opt_str(*a)
        } else {
            crate::metadata::view_opt_str(*b)
        },
{
    if a.is_some() {
        a.clone()
    } else {
        b.clone()
    }
}

/// The first set value of two optional string lists.
fn opt_strs_or(a: &Option<Vec<String>>, b: &Option<Vec<String>>) -> (r: Option<Vec<String>>)
    ensures
        crate::metadata::view_opt_strs(r) == if crate::metadata::view_opt_strs(*a) is Some {
            crate::metadata::view_opt_strs(*a)
        } else {
            crate::metadata::view_opt_strs(*b)
        },
{
    let r = if a.is_some() {
        a.clone()
    } else {
        b.clone()
    };
    proof {
        if r is Some {
            if a.is_some() {
                assert(r->0.deep_view() =~= a->0.deep_view());
            } else {
                assert(r->0.deep_view() =~= b->0.deep_view());
            }
        }
    }
    r
}

/// The first set value of two optional booleans.
fn opt_bool_or(a: &Option<bool>, b: &Option<bool>) -> (r: Option<bool>)
    ensures
        r == if *a is Some {
            *a
        } else {
            *b
        },
{
    if a.is_some() {
        *a
    } else {
        *b
    }
}

/// The first set value of two optional depths.
fn opt_u8_or(a: &Option<u8>, b: &Option<u8>) -> (r: Option<u8>)
    ensures
        r == if *a is Some {
            *a
        } else {
            *b
        },
{
    if a.is_some() {
        *a
    } else {
        *b
    }
}

impl MetadataParser {
    /// Fills every still-unset key of `target` from `source`.
    #[verifier::rlimit(100)]
    fn merge_missing(target: &mut DocumentMetadata, source: &DocumentMetadata)
        ensures
            final(target)@ == merge2(old(target)@, source@),
    {
        let custom = target.custom.clone();
        proof {
            assert(custom.deep_view() =~= old(target).custom.deep_view());
        }
        let merged = DocumentMetadata {
            title: opt_str_or(&target.title, &source.title),
            author: opt_strs_or(&target.author, &source.author),
            date: opt_str_or(&target.date, &source.date),
            subtitle: opt_str_or(&target.subtitle, &source.subtitle),
            lang: opt_str_or(&target.lang, &source.lang),
            babel_lang: opt_str_or(&target.babel_lang, &source.babel_lang),
            top_level_division: opt_str_or(&target.top_level_division, &source.top_level_division),
            numbersections: opt_bool_or(&target.numbersections, &source.numbersections),
            secnumdepth: opt_u8_or(&target.secnumdepth, &source.secnumdepth),
            toc: opt_bool_or(&target.toc, &source.toc),
            toc_depth: opt_u8_or(&target.toc_depth, &source.toc_depth),
            lof: opt_bool_or(&target.lof, &source.lof),
            lot: opt_bool_or(&target.lot, &source.lot),
            documentclass: opt_str_or(&target.documentclass, &source.documentclass),
            classoption: opt_strs_or(&target.classoption, &source.classoption),
            geometry: opt_strs_or(&target.geometry, &source.geometry),
            fontsize: opt_str_or(&target.fontsize, &source.fontsize),
            mainfont: opt_str_or(&target.mainfont, &source.mainfont),
            sansfont: opt_str_or(&target.sansfont, &source.sansfont),
            monofont: opt_str_or(&target.monofont, &source.monofont),
            bibliography: opt_strs_or(&target.bibliography, &source.bibliography),
            csl: opt_str_or(&target.csl, &source.csl),
            link_citations: opt_bool_or(&target.link_citations, &source.link_citations),
            colorlinks: opt_bool_or(&target.colorlinks, &source.colorlinks),
            linkcolor: opt_str_or(&target.linkcolor, &source.linkcolor),
            urlcolor: opt_str_or(&target.urlcolor, &source.urlcolor),
            citecolor: opt_str_or(&target.citecolor, &source.citecolor),
            book: opt_bool_or(&target.book, &source.book),
            custom,
        };
        *target = merged;
        proof {
            assert(target@ =~= merge2(old(target)@, source@));
        }
    }

    /// Merges the fragments' metadata under the precedence rule: the
    /// reserved setup fragment seeds the result in entirety, and every key
    /// still unset takes the first value found in discovery order.
    #[verifier::loop_isolation(false)]
    pub fn merge_metadata(files: &Vec<MarkdownFile>) -> (r: DocumentMetadata)
        ensures
            r@ == merge_spec(files.deep_view()),
    {
        let ghost fs = files.deep_view();
        let mut merged = DocumentMetadata::new_empty();
        let mut i: usize = 0;
        proof {
            assert(fs.skip(0) =~= fs);
        }
        while i < files.len()
            invariant
                i <= fs.len(),
                reserved_meta(fs) == reserved_meta(fs.skip(i as int)),
                merged@ == empty_metadata(),
            decreases fs.len() - i,
        {
            let chars = str_to_chars(files[i].path.as_str());
            let name = file_name_chars(&chars);
            proof {
                assert(fs[i as int] == files@[i as int]@);
                assert(fs.skip(i as int)[0] == fs[i as int]);
                assert(fs.skip(i as int).skip(1) =~= fs.skip(i + 1));
            }
            if chars_eq_str(&name, "00-setup.md") {
                proof {
                    assert(is_reserved_name(fs[i as int].path));
                    assert(reserved_meta(fs) == Some(fs[i as int].metadata));
                }
                merged = files[i].metadata.clone();
                proof {
                    assert(merged@ == fs[i as int].metadata);
                }
                break;
            }
            proof {
                assert(!is_reserved_name(fs[i as int].path));
            }
            i += 1;
        }
        proof {
            if i >= fs.len() {
                assert(fs.skip(i as int).len() == 0);
                assert(reserved_meta(fs) is None);
            }
            assert(merged@ == (match reserved_meta(fs) {
                Some(m) => m,
                None => empty_metadata(),
            }));
        }
        let mut j: usize = 0;
        proof {
            assert(fs.skip(0) =~= fs);
        }
        while j < files.len()
            invariant
                j <= fs.len(),
                merge_fold(fs, (match reserved_meta(fs) {
                    Some(m) => m,
                    None => empty_metadata(),
                })) == merge_fold(fs.skip(j as int), merged@),
            decreases fs.len() - j,
        {
            let ghost m0 = merged@;
            proof {
                assert(fs[j as int] == files@[j as int]@);
                assert(fs.skip(j as int)[0] == fs[j as int]);
                assert(fs.skip(j as int).skip(1) =~= fs.skip(j + 1));
            }
            Self::merge_missing(&mut merged, &files[j].metadata);
            proof {
                assert(merged@ == merge2(m0, fs[j as int].metadata));
                assert(merge_fold(fs.skip(j as int), m0) == merge_fold(fs.skip(j + 1), merged@));
            }
            j += 1;
        }
        proof {
            assert(fs.skip(fs.len() as int).len() == 0);
        }
        merged
    }
}

/// The seed of the merge: the reserved fragment's metadata in entirety, or
/// the empty metadata.
pub open spec fn merge_seed(files: Seq<MarkdownFileView>) -> MetadataView {
    match reserved_meta(files) {
        Some(m) => m,
        None => empty_metadata(),
    }
}

/// The first of two optional values that is set.
pub open spec fn or_opt<T>(a: Option<T>, b: Option<T>) -> Option<T> {
    if a is Some {
        a
    } else {
        b
    }
}

/// The first value the fragments set for one key, in discovery order; the
/// key is given as its projection out of the metadata.
pub open spec fn first_key<T>(
    files: Seq<MarkdownFileView>,
    key: spec_fn(MetadataView) -> Option<T>,
) -> Option<T>
    decreases files.len(),
{
    if files.len() == 0 {
        None
    } else if key(files[0].metadata) is Some {
        key(files[0].metadata)
    } else {
        first_key(files.skip(1), key)
    }
}

/// The fill rule, per key: a projection that `merge2` resolves first-wins
/// follows the first-wins rule through the whole fold.
proof fn lemma_merge_fold_key<T>(
    files: Seq<MarkdownFileView>,
    acc: MetadataView,
    key: spec_fn(MetadataView) -> Option<T>,
)
    requires
        forall|t: MetadataView, s: MetadataView| #[trigger] key(merge2(t, s)) == or_opt(
            key(t),
            key(s),
        ),
    ensures
        key(merge_fold(files, acc)) == or_opt(key(acc), first_key(files, key)),
    decreases files.len(),
{
    if files.len() > 0 {
        lemma_merge_fold_key(files.skip(1), merge2(acc, files[0].metadata), key);
    }
}

/// The open bag of unrecognized keys follows the seed alone through the
/// fold.
proof fn lemma_merge_fold_custom(files: Seq<MarkdownFileView>, acc: MetadataView)
    ensures
        merge_fold(files, acc).custom == acc.custom,
    decreases files.len(),
{
    if files.len() > 0 {
        lemma_merge_fold_custom(files.skip(1), merge2(acc, files[0].metadata));
    }
}

/// Merge precedence: a key the reserved fragment sets is never overridden
/// by a later fragment, and a key it leaves unset takes the first value
/// found in discovery order.  Stated here for the title.
pub proof fn lemma_merge_precedence_title(files: Seq<MarkdownFileView>)
    ensures
        reserved_meta(files) is Some && reserved_meta(files)->Some_0.title is Some
            ==> merge_spec(files).title == reserved_meta(files)->Some_0.title,
        (reserved_meta(files) is None || reserved_meta(files)->Some_0.title is None)
            ==> merge_spec(files).title == first_key(files, |m: MetadataView| m.title),
{
    lemma_merge_fold_key(files, merge_seed(files), |m: MetadataView| m.title);
}

/// Per-key fill independence, for every key of the schema: each key is
/// resolved on its own — the reserved fragment's value when it sets the
/// key, else the first value found in discovery order, else unset — so
/// different fragments may be the source of different individual keys.
/// The open bag of unrecognized keys follows the seed alone.
#[verifier::rlimit(100)]
pub proof fn lemma_merge_per_key_independence(files: Seq<MarkdownFileView>)
    ensures
        merge_spec(files).title == or_opt(
            merge_seed(files).title,
            first_key(files, |m: MetadataView| m.title),
        ),
        merge_spec(files).author == or_opt(
            merge_seed(files).author,
            first_key(files, |m: MetadataView| m.author),
        ),
        merge_spec(files).date == or_opt(
            merge_seed(files).date,
            first_key(files, |m: MetadataView| m.date),
        ),
        merge_spec(files).subtitle == or_opt(
            merge_seed(files).subtitle,
            first_key(files, |m: MetadataView| m.subtitle),
        ),
        merge_spec(files).lang == or_opt(
            merge_seed(files).lang,
            first_key(files, |m: MetadataView| m.lang),
        ),
        merge_spec(files).babel_lang == or_opt(
            merge_seed(files).babel_lang,
            first_key(files, |m: MetadataView| m.babel_lang),
        ),
        merge_spec(files).top_level_division == or_opt(
            merge_seed(files).top_level_division,
            first_key(files, |m: MetadataView| m.top_level_division),
        ),
        merge_spec(files).numbersections == or_opt(
            merge_seed(files).numbersections,
            first_key(files, |m: MetadataView| m.numbersections),
        ),
        merge_spec(files).secnumdepth == or_opt(
            merge_seed(files).secnumdepth,
            first_key(files, |m: MetadataView| m.secnumdepth),
        ),
        merge_spec(files).toc == or_opt(
            merge_seed(files).toc,
            first_key(files, |m: MetadataView| m.toc),
        ),
        merge_spec(files).toc_depth == or_opt(
            merge_seed(files).toc_depth,
            first_key(files, |m: MetadataView| m.toc_depth),
        ),
        merge_spec(files).lof == or_opt(
            merge_seed(files).lof,
            first_key(files, |m: MetadataView| m.lof),
        ),
        merge_spec(files).lot == or_opt(
            merge_seed(files).lot,
            first_key(files, |m: MetadataView| m.lot),
        ),
        merge_spec(files).documentclass == or_opt(
            merge_seed(files).documentclass,
            first_key(files, |m: MetadataView| m.documentclass),
        ),
        merge_spec(files).classoption == or_opt(
            merge_seed(files).classoption,
            first_key(files, |m: MetadataView| m.classoption),
        ),
        merge_spec(files).geometry == or_opt(
            merge_seed(files).geometry,
            first_key(files, |m: MetadataView| m.geometry),
        ),
        merge_spec(files).fontsize == or_opt(
            merge_seed(files).fontsize,
            first_key(files, |m: MetadataView| m.fontsize),
        ),
        merge_spec(files).mainfont == or_opt(
            merge_seed(files).mainfont,
            first_key(files, |m: MetadataView| m.mainfont),
        ),
        merge_spec(files).sansfont == or_opt(
            merge_seed(files).sansfont,
            first_key(files, |m: MetadataView| m.sansfont),
        ),
        merge_spec(files).monofont == or_opt(
            merge_seed(files).monofont,
            first_key(files, |m: MetadataView| m.monofont),
        ),
        merge_spec(files).bibliography == or_opt(
            merge_seed(files).bibliography,
            first_key(files, |m: MetadataView| m.bibliography),
        ),
        merge_spec(files).csl == or_opt(
            merge_seed(files).csl,
            first_key(files, |m: MetadataView| m.csl),
        ),
        merge_spec(files).link_citations == or_opt(
            merge_seed(files).link_citations,
            first_key(files, |m: MetadataView| m.link_citations),
        ),
        merge_spec(files).colorlinks == or_opt(
            merge_seed(files).colorlinks,
            first_key(files, |m: MetadataView| m.colorlinks),
        ),
        merge_spec(files).linkcolor == or_opt(
            merge_seed(files).linkcolor,
            first_key(files, |m: MetadataView| m.linkcolor),
        ),
        merge_spec(files).urlcolor == or_opt(
            merge_seed(files).urlcolor,
            first_key(files, |m: MetadataView| m.urlcolor),
        ),
        merge_spec(files).citecolor == or_opt(
            merge_seed(files).citecolor,
            first_key(files, |m: MetadataView| m.citecolor),
        ),
        merge_spec(files).book == or_opt(
            merge_seed(files).book,
            first_key(files, |m: MetadataView| m.book),
        ),
        merge_spec(files).custom == merge_seed(files).custom,
{
    lemma_merge_fold_key(files, merge_seed(files), |m: MetadataView| m.title);
    lemma_merge_fold_key(files, merge_seed(files), |m: MetadataView| m.author);
    lemma_merge_fold_key(files, merge_seed(files), |m: MetadataView| m.date);
    lemma_merge_fold_key(files, merge_seed(files), |m: MetadataView| m.subtitle);
    lemma_merge_fold_key(files, merge_seed(files), |m: MetadataView| m.lang);
    lemma_merge_fold_key(files, merge_seed(files), |m: MetadataView| m.babel_lang);
    lemma_merge_fold_key(files, merge_seed(files), |m: MetadataView| m.top_level_division);
    lemma_merge_fold_key(files, merge_seed(files), |m: MetadataView| m.numbersections);
    lemma_merge_fold_key(files, merge_seed(files), |m: MetadataView| m.secnumdepth);
    lemma_merge_fold_key(files, merge_seed(files), |m: MetadataView| m.toc);
    lemma_merge_fold_key(files, merge_seed(files), |m: MetadataView| m.toc_depth);
    lemma_merge_fold_key(files, merge_seed(files), |m: MetadataView| m.lof);
    lemma_merge_fold_key(files, merge_seed(files), |m: MetadataView| m.lot);
    lemma_merge_fold_key(files, merge_seed(files), |m: MetadataView| m.documentclass);
    lemma_merge_fold_key(files, merge_seed(files), |m: MetadataView| m.classoption);
    lemma_merge_fold_key(files, merge_seed(files), |m: MetadataView| m.geometry);
    lemma_merge_fold_key(files, merge_seed(files), |m: MetadataView| m.fontsize);
    lemma_merge_fold_key(files, merge_seed(files), |m: MetadataView| m.mainfont);
    lemma_merge_fold_key(files, merge_seed(files), |m: MetadataView| m.sansfont);
    lemma_merge_fold_key(files, merge_seed(files), |m: MetadataView| m.monofont);
    lemma_merge_fold_key(files, merge_seed(files), |m: MetadataView| m.bibliography);
    lemma_merge_fold_key(files, merge_seed(files), |m: MetadataView| m.csl);
    lemma_merge_fold_key(files, merge_seed(files), |m: MetadataView| m.link_citations);
    lemma_merge_fold_key(files, merge_seed(files), |m: MetadataView| m.colorlinks);
    lemma_merge_fold_key(files, merge_seed(files), |m: MetadataView| m.linkcolor);
    lemma_merge_fold_key(files, merge_seed(files), |m: MetadataView| m.urlcolor);
    lemma_merge_fold_key(files, merge_seed(files), |m: MetadataView| m.citecolor);
    lemma_merge_fold_key(files, merge_seed(files), |m: MetadataView| m.book);
    lemma_merge_fold_custom(files, merge_seed(files));
}

} // verus!

verus! {

/// A body reference that is not a local file: an absolute network URL or a
/// mail address.
pub open spec fn is_remote_ref(u: Seq<char>) -> bool {
    "http"@.is_prefix_of(u) || "mailto:"@.is_prefix_of(u)
}

/// The local dependency candidates among captured reference targets: each
/// target that is not remote, resolved against the fragment's directory;
/// with `md_only`, further restricted to fragment files.
pub open spec fn local_refs(urls: Seq<Seq<char>>, base: Seq<char>, md_only: bool) -> Seq<
    Seq<char>,
>
    decreases urls.len(),
{
    if urls.len() == 0 {
        Seq::empty()
    } else {
        let u = urls[0];
        let joined = base + "/"@ + u;
        let keep = !is_remote_ref(u) && (!md_only || ext_of_path(joined) == Some("md"@));
        if keep {
            seq![joined] + local_refs(urls.skip(1), base, md_only)
        } else {
            local_refs(urls.skip(1), base, md_only)
        }
    }
}

/// Filters captured reference targets to local candidates.
#[verifier::loop_isolation(false)]
fn local_ref_candidates(urls: &Vec<String>, base_dir: &str, md_only: bool) -> (r: Vec<String>)
    ensures
        r.deep_view() == local_refs(urls.deep_view(), base_dir@, md_only),
{
    let ghost us = urls.deep_view();
    let http_pat = str_to_chars("http");
    let mailto_pat = str_to_chars("mailto:");
    let mut r: Vec<String> = Vec::new();
    let mut i: usize = 0;
    proof {
        assert(us.skip(0) =~= us);
        assert(r.deep_view() + local_refs(us, base_dir@, md_only) =~= local_refs(
            us,
            base_dir@,
            md_only,
        ));
    }
    while i < urls.len()
        invariant
            i <= us.len(),
            r.deep_view() + local_refs(us.skip(i as int), base_dir@, md_only) == local_refs(
                us,
                base_dir@,
                md_only,
            ),
        decreases us.len() - i,
    {
        let ghost r_old = r.deep_view();
        let u = &urls[i];
        let u_chars = str_to_chars(u.as_str());
        proof {
            assert(us[i as int] == urls@[i as int]@);
            assert(us.skip(i as int)[0] == us[i as int]);
            assert(us.skip(i as int).skip(1) =~= us.skip(i + 1));
        }
        let remote = starts_with_chars(&u_chars, &http_pat) || starts_with_chars(
            &u_chars,
            &mailto_pat,
        );
        let joined = crate::chars::join_path(base_dir, u.as_str());
        let keep = if remote {
            false
        } else if md_only {
            let jc = str_to_chars(joined.as_str());
            match crate::chars::ext_of_path_chars(&jc) {
                Some(e) => chars_eq_str(&e, "md"),
                None => false,
            }
        } else {
            true
        };
        if keep {
            r.push(joined);
            proof {
                assert(r.deep_view() =~= r_old.push(base_dir@ + "/"@ + us[i as int]));
            }
        }
        proof {
            assert(r.deep_view() + local_refs(us.skip(i + 1), base_dir@, md_only) =~= r_old
                + local_refs(us.skip(i as int), base_dir@, md_only));
        }
        i += 1;
    }
    proof {
        assert(local_refs(us.skip(us.len() as int), base_dir@, md_only) =~= Seq::<
            Seq<char>,
        >::empty());
        assert(r.deep_view() + Seq::<Seq<char>>::empty() =~= r.deep_view());
    }
    r
}

impl MetadataParser {
    /// The image dependency candidates of a body: each image reference
    /// whose target is not remote, resolved against the fragment's
    /// directory.  The caller keeps those that exist on disk.
    pub fn image_candidates(content: &str, base_dir: &str) -> (r: Vec<String>)
        ensures
            r.deep_view() == local_refs(
                regex_captures_spec("!\\[.*?\\]\\(([^)]+)\\)"@, content@),
                base_dir@,
                false,
            ),
    {
        let urls = capture_group1("!\\[.*?\\]\\(([^)]+)\\)", content);
        local_ref_candidates(&urls, base_dir, false)
    }

    /// The fragment-link dependency candidates of a body: each inline link
    /// whose target is not remote and names a fragment file, resolved
    /// against the fragment's directory.  The caller keeps those that exist
    /// on disk.
    pub fn link_candidates(content: &str, base_dir: &str) -> (r: Vec<String>)
        ensures
            r.deep_view() == local_refs(
                regex_captures_spec("\\[.*?\\]\\(([^)]+)\\)"@, content@),
                base_dir@,
                true,
            ),
    {
        let urls = capture_group1("\\[.*?\\]\\(([^)]+)\\)", content);
        local_ref_candidates(&urls, base_dir, true)
    }
}

} // verus!

verus! {

/// What `first_occ` returns is the least occurrence.
pub proof fn lemma_first_occ_sound(s: Seq<char>, pat: Seq<char>)
    ensures
        match first_occ(s, pat) {
            Some(i) => matches_at(s, pat, i) && (forall|j: int|
                0 <= j < i ==> !matches_at(s, pat, j)),
            None => forall|j: int| 0 <= j ==> !matches_at(s, pat, j),
        },
    decreases s.len(),
{
    if matches_at(s, pat, 0) {
    } else if s.len() == 0 {
        assert forall|j: int| 0 <= j implies !matches_at(s, pat, j) by {}
    } else {
        lemma_first_occ_sound(s.skip(1), pat);
        match first_occ(s.skip(1), pat) {
            Some(i) => {
                lemma_matches_at_skip(s, pat, 1, i);
                assert forall|j: int| 0 <= j < i + 1 implies !matches_at(s, pat, j) by {
                    if j > 0 {
                        lemma_matches_at_skip(s, pat, 1, j - 1);
                    }
                }
            },
            None => {
                assert forall|j: int| 0 <= j implies !matches_at(s, pat, j) by {
                    if j > 0 {
                        lemma_matches_at_skip(s, pat, 1, j - 1);
                    }
                }
            },
        }
    }
}

} // verus!

verus! {

/// A line with its trailing carriage return removed.
pub open spec fn strip_cr(l: Seq<char>) -> Seq<char> {
    if l.len() > 0 && l.last() == '\r' {
        l.drop_last()
    } else {
        l
    }
}

/// The lines of a text, split on newlines, without a trailing empty piece.
pub open spec fn lines_of(s: Seq<char>) -> Seq<Seq<char>>
    decreases s.len(),
    via lines_of_decreases
{
    if s.len() == 0 {
        Seq::empty()
    } else {
        match first_occ(s, "\n"@) {
            None => seq![strip_cr(s)],
            Some(i) => seq![strip_cr(s.take(i))] + lines_of(s.skip(i + 1)),
        }
    }
}

#[via_fn]
proof fn lines_of_decreases(s: Seq<char>) {
    reveal_strlit("\n");
    lemma_first_occ_sound(s, "\n"@);
}

/// The first line that starts with the given key prefix, if any.
pub open spec fn first_line_with(lines: Seq<Seq<char>>, pre: Seq<char>) -> Option<Seq<char>>
    decreases lines.len(),
{
    if lines.len() == 0 {
        None
    } else if pre.is_prefix_of(lines[0]) {
        Some(lines[0])
    } else {
        first_line_with(lines.skip(1), pre)
    }
}

/// ASCII whitespace, as the value trimming reads it.
pub open spec fn is_trim_space(c: char) -> bool {
    c as u32 == 32 || c as u32 == 9 || c as u32 == 13 || c as u32 == 10
}

pub open spec fn is_quote(c: char) -> bool {
    c as u32 == 34
}

/// Drops leading characters satisfying `p`.
pub open spec fn trim_front(s: Seq<char>, p: spec_fn(char) -> bool) -> Seq<char>
    decreases s.len(),
{
    if s.len() > 0 && p(s[0]) {
        trim_front(s.skip(1), p)
    } else {
        s
    }
}

/// Drops trailing characters satisfying `p`.
pub open spec fn trim_back(s: Seq<char>, p: spec_fn(char) -> bool) -> Seq<char>
    decreases s.len(),
{
    if s.len() > 0 && p(s.last()) {
        trim_back(s.drop_last(), p)
    } else {
        s
    }
}

pub open spec fn trim_both(s: Seq<char>, p: spec_fn(char) -> bool) -> Seq<char> {
    trim_back(trim_front(s, p), p)
}

/// The raw value of a configuration line: the text between its first and
/// second separator, or everything after the first when there is no second.
pub open spec fn colon_value(l: Seq<char>) -> Seq<char> {
    match first_occ(l, ":"@) {
        None => Seq::empty(),
        Some(c1) => {
            let rest = l.skip(c1 + 1);
            match first_occ(rest, ":"@) {
                None => rest,
                Some(c2) => rest.take(c2),
            }
        },
    }
}

/// The cleaned value of a configuration line: whitespace trimmed, then
/// surrounding quote characters trimmed.
pub open spec fn line_value(l: Seq<char>) -> Seq<char> {
    trim_both(trim_both(colon_value(l), |c: char| is_trim_space(c)), |c: char| is_quote(c))
}

/// The configured value of a key in a fragment body: the cleaned value of
/// the first line starting with the key prefix.
pub open spec fn cfg_value(content: Seq<char>, pre: Seq<char>) -> Option<Seq<char>> {
    match first_line_with(lines_of(content), pre) {
        None => None,
        Some(l) => Some(line_value(l)),
    }
}

/// The first fragment carrying the reserved numeric prefix, whose
/// front-matter and body configure the project.
pub open spec fn config_source(files: Seq<MarkdownFileView>) -> Option<MarkdownFileView>
    decreases files.len(),
{
    if files.len() == 0 {
        None
    } else if "00-"@.is_prefix_of(file_name_spec(files[0].path)) {
        Some(files[0])
    } else {
        config_source(files.skip(1))
    }
}

/// The project configuration the fragments stand for: the setup fragment's
/// title becomes the project name, and its body may override the output and
/// templates directories; everything else keeps the built-in defaults.
pub open spec fn project_config_of(files: Seq<MarkdownFileView>) -> ProjectConfigView {
    match config_source(files) {
        None => ProjectConfigView {
            name: "document"@,
            output_dir: "output"@,
            templates_dir: "templates"@,
            images_dir: "images"@,
            exclude_files: seq!["README.md"@],
        },
        Some(f) => ProjectConfigView {
            name: match f.metadata.title {
                Some(t) => t,
                None => "document"@,
            },
            output_dir: match cfg_value(f.content, "output_dir:"@) {
                Some(v) => v,
                None => "output"@,
            },
            templates_dir: match cfg_value(f.content, "templates_dir:"@) {
                Some(v) => v,
                None => "templates"@,
            },
            images_dir: "images"@,
            exclude_files: seq!["README.md"@],
        },
    }
}

} // verus!

verus! {

/// `trim_front` drops exactly the leading run satisfying `p`.
proof fn lemma_trim_front_is(s: Seq<char>, p: spec_fn(char) -> bool, a: int)
    requires
        0 <= a <= s.len(),
        forall|j: int| 0 <= j < a ==> p(s[j]),
        a < s.len() ==> !p(s[a]),
    ensures
        trim_front(s, p) == s.skip(a),
    decreases s.len(),
{
    if a == 0 {
        if s.len() > 0 && p(s[0]) {
            assert(false);
        }
        assert(s.skip(0) =~= s);
    } else {
        assert(p(s[0]));
        assert forall|j: int| 0 <= j < a - 1 implies p(s.skip(1)[j]) by {
            assert(s.skip(1)[j] == s[j + 1]);
        }
        if a - 1 < s.skip(1).len() {
            assert(s.skip(1)[a - 1] == s[a]);
        }
        lemma_trim_front_is(s.skip(1), p, a - 1);
        assert(s.skip(1).skip(a - 1) =~= s.skip(a));
    }
}

/// `trim_back` drops exactly the trailing run satisfying `p`.
proof fn lemma_trim_back_is(s: Seq<char>, p: spec_fn(char) -> bool, b: int)
    requires
        0 <= b <= s.len(),
        forall|j: int| b <= j < s.len() ==> p(s[j]),
        b > 0 ==> !p(s[b - 1]),
    ensures
        trim_back(s, p) == s.take(b),
    decreases s.len(),
{
    if b == s.len() {
        if s.len() > 0 && p(s.last()) {
            assert(false);
        }
        assert(s.take(b) =~= s);
    } else {
        assert(p(s.last()));
        assert forall|j: int| b <= j < s.drop_last().len() implies p(s.drop_last()[j]) by {
            assert(s.drop_last()[j] == s[j]);
        }
        if b > 0 {
            assert(s.drop_last()[b - 1] == s[b - 1]);
        }
        lemma_trim_back_is(s.drop_last(), p, b);
        assert(s.drop_last().take(b) =~= s.take(b));
    }
}

/// Whether a character is trimmed: whitespace, or a quote character when
/// `quotes` is set.
fn trim_pred(c: char, quotes: bool) -> (r: bool)
    ensures
        r == if quotes {
            is_quote(c)
        } else {
            is_trim_space(c)
        },
{
    let u = c as u32;
    if quotes {
        u == 34
    } else {
        u == 32 || u == 9 || u == 13 || u == 10
    }
}

/// Trims a run satisfying the given predicate from both ends: whitespace
/// when `quotes` is false, quote characters when it is true.
#[verifier::loop_isolation(false)]
fn trim_ends(v: &Vec<char>, quotes: bool) -> (r: Vec<char>)
    ensures
        !quotes ==> r@ == trim_both(v@, |c: char| is_trim_space(c)),
        quotes ==> r@ == trim_both(v@, |c: char| is_quote(c)),
{
    let ghost p: spec_fn(char) -> bool = if quotes {
        |c: char| is_quote(c)
    } else {
        |c: char| is_trim_space(c)
    };
    let mut a: usize = 0;
    while a < v.len() && trim_pred(v[a], quotes)
        invariant
            a <= v@.len(),
            forall|j: int| 0 <= j < a ==> p(v@[j]),
        decreases v@.len() - a,
    {
        a += 1;
    }
    proof {
        lemma_trim_front_is(v@, p, a as int);
    }
    let ghost f = v@.skip(a as int);
    let mut b: usize = v.len();
    while b > a && trim_pred(v[b - 1], quotes)
        invariant
            a <= b <= v@.len(),
            forall|j: int| b <= j < v@.len() ==> p(v@[j]),
        decreases b,
    {
        b -= 1;
    }
    proof {
        assert forall|j: int| b - a <= j < f.len() implies p(f[j]) by {
            assert(f[j] == v@[a + j]);
        }
        if b - a > 0 {
            assert(f[b - a - 1] == v@[b - 1 as int]);
        }
        lemma_trim_back_is(f, p, b - a);
    }
    let r = crate::chars::subvec(v, a, b);
    proof {
        assert(r@ =~= f.take(b - a));
    }
    r
}

/// The cleaned value of one configuration line.
#[verifier::loop_isolation(false)]
fn line_value_exec(l: &Vec<char>) -> (r: Vec<char>)
    ensures
        r@ == line_value(l@),
{
    proof {
        reveal_strlit(":");
    }
    let colon = str_to_chars(":");
    let raw: Vec<char> = match find_sub_from(l, &colon, 0) {
        None => {
            proof {
                assert forall|j: int| 0 <= j implies !matches_at(l@, ":"@, j) by {}
                lemma_first_occ_none(l@, ":"@);
            }
            Vec::new()
        },
        Some(c1) => {
            proof {
                lemma_first_occ_is(l@, ":"@, c1 as int);
            }
            let ln = l.len();
            proof {
                assert(matches_at(l@, ":"@, c1 as int));
                assert(c1 + 1 <= ln);
            }
            let ghost rest = l@.skip(c1 + 1);
            match find_sub_from(l, &colon, c1 + 1) {
                None => {
                    proof {
                        assert forall|j: int| 0 <= j implies !matches_at(rest, ":"@, j) by {
                            lemma_matches_at_skip(l@, ":"@, c1 + 1, j);
                        }
                        lemma_first_occ_none(rest, ":"@);
                    }
                    let r = crate::chars::subvec(l, c1 + 1, l.len());
                    proof {
                        assert(r@ =~= l@.skip(c1 + 1));
                    }
                    r
                },
                Some(c2) => {
                    proof {
                        lemma_matches_at_skip(l@, ":"@, c1 + 1, c2 - (c1 + 1));
                        assert forall|j: int| 0 <= j < c2 - (c1 + 1) implies !matches_at(
                            rest,
                            ":"@,
                            j,
                        ) by {
                            lemma_matches_at_skip(l@, ":"@, c1 + 1, j);
                        }
                        lemma_first_occ_is(rest, ":"@, c2 - (c1 + 1));
                    }
                    let r = crate::chars::subvec(l, c1 + 1, c2);
                    proof {
                        assert(r@ =~= l@.skip(c1 + 1).take(c2 - (c1 + 1)));
                    }
                    r
                },
            }
        },
    };
    let spaced = trim_ends(&raw, false);
    trim_ends(&spaced, true)
}

/// Splits a text into its lines.
#[verifier::loop_isolation(false)]
fn split_lines(v: &Vec<char>) -> (r: Vec<Vec<char>>)
    ensures
        r.deep_view() == lines_of(v@),
{
    proof {
        reveal_strlit("\n");
    }
    let nl = str_to_chars("\n");
    let mut r: Vec<Vec<char>> = Vec::new();
    let mut pos: usize = 0;
    proof {
        assert(v@.skip(0) =~= v@);
        assert(r.deep_view() + lines_of(v@) =~= lines_of(v@));
    }
    while pos < v.len()
        invariant
            pos <= v@.len(),
            r.deep_view() + lines_of(v@.skip(pos as int)) == lines_of(v@),
        decreases v@.len() - pos,
    {
        let ghost r_old = r.deep_view();
        let ghost tail = v@.skip(pos as int);
        match find_sub_from(v, &nl, pos) {
            Some(j) => {
                proof {
                    lemma_matches_at_skip(v@, "\n"@, pos as int, j - pos);
                    assert forall|t: int| 0 <= t < j - pos implies !matches_at(
                        tail,
                        "\n"@,
                        t,
                    ) by {
                        lemma_matches_at_skip(v@, "\n"@, pos as int, t);
                    }
                    lemma_first_occ_is(tail, "\n"@, j - pos);
                }
                let line_end = if j > pos && v[j - 1] == '\r' {
                    j - 1
                } else {
                    j
                };
                let line = crate::chars::subvec(v, pos, line_end);
                proof {
                    assert(tail.take(j - pos) =~= v@.subrange(pos as int, j as int));
                    if j > pos && v@[j - 1 as int] == '\r' {
                        assert(tail.take(j - pos).drop_last() =~= v@.subrange(
                            pos as int,
                            j - 1 as int,
                        ));
                    }
                    assert(line@ == strip_cr(tail.take(j - pos)));
                }
                proof {
                    assert(line.deep_view() =~= line@);
                }
                r.push(line);
                proof {
                    assert(r.deep_view() =~= r_old.push(strip_cr(tail.take(j - pos))));
                    assert(tail.skip(j - pos + 1) =~= v@.skip(j + 1));
                    assert(tail.len() > 0);
                    assert(lines_of(tail) == seq![strip_cr(tail.take(j - pos))] + lines_of(
                        tail.skip(j - pos + 1),
                    ));
                    assert(r.deep_view() + lines_of(v@.skip(j + 1)) =~= r_old + lines_of(tail));
                }
                pos = j + 1;
            },
            None => {
                proof {
                    assert forall|t: int| 0 <= t implies !matches_at(tail, "\n"@, t) by {
                        if t + 1 <= tail.len() {
                            lemma_matches_at_skip(v@, "\n"@, pos as int, t);
                        }
                    }
                    lemma_first_occ_none(tail, "\n"@);
                }
                let n = v.len();
                let line_end = if v[n - 1] == '\r' {
                    n - 1
                } else {
                    n
                };
                let line = crate::chars::subvec(v, pos, line_end);
                proof {
                    assert(tail =~= v@.subrange(pos as int, n as int));
                    if v@[n - 1 as int] == '\r' {
                        assert(tail.drop_last() =~= v@.subrange(pos as int, n - 1 as int));
                    }
                    assert(line@ == strip_cr(tail));
                    assert(tail.len() > 0);
                    assert(lines_of(tail) == seq![strip_cr(tail)]);
                }
                proof {
                    assert(line.deep_view() =~= line@);
                }
                r.push(line);
                proof {
                    assert(r.deep_view() =~= r_old.push(strip_cr(tail)));
                    assert(v@.skip(n as int).len() == 0);
                    assert(r.deep_view() + lines_of(v@.skip(n as int)) =~= r_old + lines_of(
                        tail,
                    ));
                }
                pos = n;
            },
        }
    }
    proof {
        assert(lines_of(v@.skip(pos as int)) =~= Seq::<Seq<char>>::empty());
        assert(r.deep_view() + Seq::<Seq<char>>::empty() =~= r.deep_view());
    }
    r
}

/// The configured value of a key in a fragment body, if a line sets it.
#[verifier::loop_isolation(false)]
fn find_config_value(content: &str, pre: &str) -> (r: Option<String>)
    ensures
        match cfg_value(content@, pre@) {
            Some(v) => r is Some && r->0@ == v,
            None => r is None,
        },
{
    let chars = str_to_chars(content);
    let lines = split_lines(&chars);
    let pre_chars = str_to_chars(pre);
    let ghost ls = lines.deep_view();
    let mut i: usize = 0;
    proof {
        assert(ls.skip(0) =~= ls);
    }
    while i < lines.len()
        invariant
            i <= ls.len(),
            first_line_with(ls, pre@) == first_line_with(ls.skip(i as int), pre@),
        decreases ls.len() - i,
    {
        proof {
            assert(ls[i as int] == lines@[i as int]@);
            assert(ls.skip(i as int)[0] == ls[i as int]);
            assert(ls.skip(i as int).skip(1) =~= ls.skip(i + 1));
        }
        if starts_with_chars(&lines[i], &pre_chars) {
            let value = line_value_exec(&lines[i]);
            return Some(crate::chars::chars_to_string(&value));
        }
        i += 1;
    }
    proof {
        assert(ls.skip(ls.len() as int).len() == 0);
    }
    None
}

impl MetadataParser {
    /// Derives the project configuration from the fragments: the setup
    /// fragment's title becomes the project name, and lines of its body may
    /// override the output and templates directories.
    #[verifier::loop_isolation(false)]
    pub fn extract_project_config(markdown_files: &Vec<MarkdownFile>) -> (r: ProjectConfig)
        ensures
            r@ == project_config_of(markdown_files.deep_view()),
    {
        let ghost fs = markdown_files.deep_view();
        let prefix = str_to_chars("00-");
        let mut i: usize = 0;
        proof {
            assert(fs.skip(0) =~= fs);
        }
        while i < markdown_files.len()
            invariant
                i <= fs.len(),
                config_source(fs) == config_source(fs.skip(i as int)),
            decreases fs.len() - i,
        {
            proof {
                assert(fs[i as int] == markdown_files@[i as int]@);
                assert(fs.skip(i as int)[0] == fs[i as int]);
                assert(fs.skip(i as int).skip(1) =~= fs.skip(i + 1));
            }
            let chars = str_to_chars(markdown_files[i].path.as_str());
            let name = file_name_chars(&chars);
            if starts_with_chars(&name, &prefix) {
                let f = &markdown_files[i];
                let mut config = ProjectConfig::default();
                if let Some(title) = &f.metadata.title {
                    config.name = title.clone();
                }
                if let Some(out) = find_config_value(f.content.as_str(), "output_dir:") {
                    config.output_dir = out;
                }
                if let Some(tpl) = find_config_value(f.content.as_str(), "templates_dir:") {
                    config.templates_dir = tpl;
                }
                proof {
                    assert(config@ =~= project_config_of(fs));
                }
                return config;
            }
            i += 1;
        }
        proof {
            assert(fs.skip(fs.len() as int).len() == 0);
            assert(config_source(fs) is None);
        }
        let config = ProjectConfig::default();
        proof {
            assert(config@ =~= project_config_of(fs));
        }
        config
    }
}

} // verus!
