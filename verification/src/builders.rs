//! The build orchestrators: one per output format.  Each assembles the full
//! converter invocation from the merged metadata, the ordered fragment list,
//! the template listing and the output path.  Running the converter and
//! creating the output directory are filesystem work and live outside the
//! crate.

use vstd::prelude::*;
use crate::chars::{ext_of_path, str_to_chars, str_eq, find_sub_from, chars_eq_str};
use crate::errors::AutoDocError;
use crate::discovery::{first_occ, lemma_first_occ_is, lemma_first_occ_none};
use crate::metadata::{DocumentMetadata, MarkdownFile, MarkdownFileView, MetadataView,
    ProjectConfig};

verus! {

/// Builds print-ready output through the external converter.
pub struct PdfBuilder {
    pub config: ProjectConfig,
}

/// Builds word-processor output through the external converter.
pub struct DocxBuilder {
    pub config: ProjectConfig,
}

/// Builds web output through the external converter.
pub struct HtmlBuilder {
    pub config: ProjectConfig,
}

/// The primary subtag of a language code: the text before its first `-`,
/// or the whole code.
pub open spec fn primary_subtag(lang: Seq<char>) -> Seq<char> {
    match first_occ(lang, "-"@) {
        None => lang,
        Some(i) => lang.take(i),
    }
}

/// The locale-family value derived from a language code: a fixed lookup on
/// the primary subtag, with a fallback for unrecognized subtags.
pub open spec fn babel_of(lang: Seq<char>) -> Seq<char> {
    let p = primary_subtag(lang);
    if p == "de"@ {
        "ngerman"@
    } else if p == "fr"@ {
        "french"@
    } else if p == "es"@ {
        "spanish"@
    } else if p == "it"@ {
        "italian"@
    } else if p == "pt"@ {
        "portuguese"@
    } else if p == "nl"@ {
        "dutch"@
    } else if p == "ru"@ {
        "russian"@
    } else {
        "english"@
    }
}

/// The separators placed before every author after the first.
pub open spec fn author_rest(authors: Seq<Seq<char>>) -> Seq<char>
    decreases authors.len(),
{
    if authors.len() == 0 {
        Seq::empty()
    } else {
        ", "@ + authors[0] + author_rest(authors.skip(1))
    }
}

/// The author list joined with a literal separator; a single author stands
/// alone.
pub open spec fn author_join(authors: Seq<Seq<char>>) -> Seq<char> {
    if authors.len() == 0 {
        Seq::empty()
    } else {
        authors[0] + author_rest(authors.skip(1))
    }
}

/// The metadata flags shared by the formats that translate per-key
/// metadata: title (with its built-in default), authors joined, date,
/// language with the derived locale family when no explicit override is
/// set, document class and book mode.
pub open spec fn meta_args_spec(m: MetadataView) -> Seq<Seq<char>> {
    let title_args = match m.title {
        Some(t) => seq!["--metadata"@, "title="@ + t],
        None => seq!["--metadata"@, "title=Document"@],
    };
    let author_args = match m.author {
        Some(a) => seq!["--metadata"@, "author="@ + author_join(a)],
        None => Seq::empty(),
    };
    let date_args = match m.date {
        Some(d) => seq!["--metadata"@, "date="@ + d],
        None => Seq::empty(),
    };
    let lang_args = match m.lang {
        Some(l) => seq!["--metadata"@, "lang="@ + l] + if m.babel_lang is None {
            seq!["--metadata"@, "babel-lang="@ + babel_of(l)]
        } else {
            Seq::empty()
        },
        None => Seq::empty(),
    };
    let babel_args = match m.babel_lang {
        Some(b) => seq!["--metadata"@, "babel-lang="@ + b],
        None => Seq::empty(),
    };
    let class_args = match m.documentclass {
        Some(c) => seq!["--metadata"@, "documentclass="@ + c],
        None => Seq::empty(),
    };
    let book_args = if m.book == Some(true) {
        seq!["--metadata"@, "book=true"@]
    } else {
        Seq::empty()
    };
    title_args + author_args + date_args + lang_args + babel_args + class_args + book_args
}

/// The first template in the listing with the given extension.
pub open spec fn first_with_ext(templates: Seq<Seq<char>>, ext: Seq<char>) -> Option<Seq<char>>
    decreases templates.len(),
{
    if templates.len() == 0 {
        None
    } else if ext_of_path(templates[0]) == Some(ext) {
        Some(templates[0])
    } else {
        first_with_ext(templates.skip(1), ext)
    }
}

/// The print template: the canonically named one when the listing holds
/// it, else the first with the expected extension.
pub open spec fn pdf_template_choice(templates_dir: Seq<char>, templates: Seq<Seq<char>>) -> Option<
    Seq<char>,
> {
    let canonical = templates_dir + "/eisvogel.latex"@;
    if templates.contains(canonical) {
        Some(canonical)
    } else {
        first_with_ext(templates, "latex"@)
    }
}

/// The fragment paths, in their discovery order.
pub open spec fn input_paths(files: Seq<MarkdownFileView>) -> Seq<Seq<char>> {
    files.map_values(|f: MarkdownFileView| f.path)
}

/// The full converter invocation for print output.
pub open spec fn pdf_args_spec(
    files: Seq<MarkdownFileView>,
    out: Seq<char>,
    m: MetadataView,
    templates_dir: Seq<char>,
    templates: Seq<Seq<char>>,
) -> Seq<Seq<char>> {
    let base = seq!["--standalone"@, "--listings"@, "--pdf-engine"@, "xelatex"@];
    let tmpl = match pdf_template_choice(templates_dir, templates) {
        Some(t) => seq!["--template"@, t],
        None => Seq::empty(),
    };
    let cite = seq!["--citeproc"@];
    let division = match m.top_level_division {
        Some(d) => seq!["--top-level-division"@, d],
        None => seq!["--top-level-division"@, "section"@],
    };
    let numbering = if m.numbersections != Some(false) {
        seq!["--number-sections"@]
    } else {
        Seq::empty()
    };
    base + tmpl + cite + division + numbering + meta_args_spec(m) + input_paths(files) + seq![
        "-o"@,
        out,
    ]
}

/// The full converter invocation for word-processor output.
pub open spec fn docx_args_spec(
    files: Seq<MarkdownFileView>,
    out: Seq<char>,
    m: MetadataView,
    templates: Seq<Seq<char>>,
) -> Seq<Seq<char>> {
    let base = seq!["--standalone"@, "--to"@, "docx"@];
    let tmpl = match first_with_ext(templates, "docx"@) {
        Some(t) => seq!["--reference-doc"@, t],
        None => Seq::empty(),
    };
    let cite = seq!["--citeproc"@];
    let numbering = if m.numbersections != Some(false) {
        seq!["--number-sections"@]
    } else {
        Seq::empty()
    };
    base + tmpl + cite + numbering + input_paths(files) + seq!["-o"@, out]
}

/// The full converter invocation for web output.
pub open spec fn html_args_spec(
    files: Seq<MarkdownFileView>,
    out: Seq<char>,
    m: MetadataView,
    templates: Seq<Seq<char>>,
) -> Seq<Seq<char>> {
    let base = seq![
        "--standalone"@,
        "--to"@,
        "html5"@,
        "--self-contained"@,
        "--citeproc"@,
    ];
    let numbering = if m.numbersections != Some(false) {
        seq!["--number-sections"@]
    } else {
        Seq::empty()
    };
    let tmpl = match first_with_ext(templates, "html"@) {
        Some(t) => seq!["--template"@, t],
        None => Seq::empty(),
    };
    base + numbering + tmpl + input_paths(files) + seq!["-o"@, out]
}

/// Whether the listing holds the given path.
#[verifier::loop_isolation(false)]
fn vec_contains_string(v: &Vec<String>, s: &String) -> (r: bool)
    ensures
        r == v.deep_view().contains(s@),
{
    let ghost vs = v.deep_view();
    let mut i: usize = 0;
    while i < v.len()
        invariant
            i <= vs.len(),
            forall|j: int| 0 <= j < i ==> vs[j] != s@,
        decreases vs.len() - i,
    {
        proof {
            assert(vs[i as int] == v@[i as int]@);
        }
        if str_eq(v[i].as_str(), s.as_str()) {
            proof {
                assert(vs[i as int] == s@);
            }
            return true;
        }
        i += 1;
    }
    proof {
        assert(!vs.contains(s@)) by {
            if vs.contains(s@) {
                let j = choose|j: int| 0 <= j < vs.len() && vs[j] == s@;
                assert(vs[j] != s@);
            }
        }
    }
    false
}

/// The first template of the listing with the given extension.
#[verifier::loop_isolation(false)]
fn find_first_with_ext(templates: &Vec<String>, ext: &str) -> (r: Option<String>)
    ensures
        match r {
            Some(t) => first_with_ext(templates.deep_view(), ext@) == Some(t@),
            None => first_with_ext(templates.deep_view(), ext@) is None,
        },
{
    let ghost ts = templates.deep_view();
    let mut i: usize = 0;
    proof {
        assert(ts.skip(0) =~= ts);
    }
    while i < templates.len()
        invariant
            i <= ts.len(),
            first_with_ext(ts, ext@) == first_with_ext(ts.skip(i as int), ext@),
        decreases ts.len() - i,
    {
        proof {
            assert(ts[i as int] == templates@[i as int]@);
            assert(ts.skip(i as int)[0] == ts[i as int]);
            assert(ts.skip(i as int).skip(1) =~= ts.skip(i + 1));
        }
        let chars = str_to_chars(templates[i].as_str());
        let is_match = match crate::chars::ext_of_path_chars(&chars) {
            Some(e) => chars_eq_str(&e, ext),
            None => false,
        };
        if is_match {
            return Some(templates[i].clone());
        }
        i += 1;
    }
    proof {
        assert(ts.skip(ts.len() as int).len() == 0);
    }
    None
}

/// Appends the fragment paths as positional inputs.
#[verifier::loop_isolation(false)]
fn push_input_paths(args: &mut Vec<String>, files: &Vec<MarkdownFile>)
    ensures
        final(args).deep_view() == old(args).deep_view() + input_paths(files.deep_view()),
{
    let ghost fs = files.deep_view();
    let ghost base = old(args).deep_view();
    let mut i: usize = 0;
    proof {
        assert(input_paths(fs.take(0)) =~= Seq::<Seq<char>>::empty());
        assert(args.deep_view() =~= base + input_paths(fs.take(0)));
    }
    while i < files.len()
        invariant
            i <= fs.len(),
            args.deep_view() == base + input_paths(fs.take(i as int)),
        decreases fs.len() - i,
    {
        let ghost before = args.deep_view();
        proof {
            assert(fs[i as int] == files@[i as int]@);
        }
        args.push(files[i].path.clone());
        proof {
            assert(args.deep_view() =~= before.push(fs[i as int].path));
            assert(input_paths(fs.take(i + 1)) =~= input_paths(fs.take(i as int)).push(
                fs[i as int].path,
            ));
            assert(args.deep_view() =~= base + input_paths(fs.take(i + 1)));
        }
        i += 1;
    }
    proof {
        assert(fs.take(fs.len() as int) =~= fs);
    }
}

/// Joins the author list with the literal separator; one author stands
/// alone.
#[verifier::loop_isolation(false)]
fn join_authors(authors: &Vec<String>) -> (r: String)
    ensures
        r@ == author_join(authors.deep_view()),
{
    let ghost avs = authors.deep_view();
    if authors.len() == 0 {
        let r = String::new();
        proof {
            assert(r@ =~= author_join(avs));
        }
        return r;
    }
    let mut s = authors[0].clone();
    proof {
        assert(avs[0] == authors@[0]@);
        assert(avs.skip(1).skip(0) =~= avs.skip(1));
    }
    let mut i: usize = 1;
    while i < authors.len()
        invariant
            1 <= i <= avs.len(),
            s@ + author_rest(avs.skip(i as int)) == avs[0] + author_rest(avs.skip(1)),
        decreases avs.len() - i,
    {
        proof {
            assert(avs[i as int] == authors@[i as int]@);
            assert(avs.skip(i as int)[0] == avs[i as int]);
            assert(avs.skip(i as int).skip(1) =~= avs.skip(i + 1));
        }
        s.append(", ");
        s.append(authors[i].as_str());
        i += 1;
    }
    proof {
        assert(avs.skip(avs.len() as int).len() == 0);
        assert(s@ =~= s@ + author_rest(avs.skip(avs.len() as int)));
    }
    s
}

/// Maps the converter's exit to the build outcome: success passes, and a
/// failure carries the converter's error-stream text verbatim.
pub fn pandoc_outcome(exit_ok: bool, stderr: String) -> (r: Result<(), AutoDocError>)
    ensures
        r is Ok <==> exit_ok,
        !exit_ok ==> (r->Err_0 matches AutoDocError::Build { message } && message@
            == "Pandoc failed: "@ + stderr@),
{
    if exit_ok {
        Ok(())
    } else {
        let mut message = String::from_str("Pandoc failed: ");
        message.append(stderr.as_str());
        Err(AutoDocError::Build { message })
    }
}

/// One `--metadata key=value` flag pair.
fn push_meta_arg(args: &mut Vec<String>, key_eq: &str, value: &str)
    ensures
        final(args).deep_view() == old(args).deep_view() + seq!["--metadata"@, key_eq@ + value@],
{
    let ghost base = old(args).deep_view();
    args.push(String::from_str("--metadata"));
    let mut kv = String::from_str(key_eq);
    kv.append(value);
    args.push(kv);
    proof {
        assert(args.deep_view() =~= base + seq!["--metadata"@, key_eq@ + value@]);
    }
}

impl PdfBuilder {
    pub fn new(config: ProjectConfig) -> (r: PdfBuilder)
        ensures
            r.config@ == config@,
    {
        PdfBuilder { config }
    }

    /// The locale-family value for a language code, from the fixed lookup
    /// table keyed by the primary subtag.
    pub fn detect_babel_lang(&self, lang: &str) -> (r: String)
        ensures
            r@ == babel_of(lang@),
    {
        let chars = str_to_chars(lang);
        let dash = str_to_chars("-");
        let prefix: String = match find_sub_from(&chars, &dash, 0) {
            Some(i) => {
                proof {
                    reveal_strlit("-");
                    lemma_first_occ_is(lang@, "-"@, i as int);
                    assert(lang@.subrange(0, i as int) =~= lang@.take(i as int));
                }
                lang.substring_char(0, i).to_owned()
            },
            None => {
                proof {
                    lemma_first_occ_none(lang@, "-"@);
                }
                lang.to_owned()
            },
        };
        let p = prefix.as_str();
        if str_eq(p, "de") {
            String::from_str("ngerman")
        } else if str_eq(p, "fr") {
            String::from_str("french")
        } else if str_eq(p, "es") {
            String::from_str("spanish")
        } else if str_eq(p, "it") {
            String::from_str("italian")
        } else if str_eq(p, "pt") {
            String::from_str("portuguese")
        } else if str_eq(p, "nl") {
            String::from_str("dutch")
        } else if str_eq(p, "ru") {
            String::from_str("russian")
        } else {
            String::from_str("english")
        }
    }

    /// Chooses the print template from the templates listing: the
    /// canonically named one when present, else the first with the print
    /// extension.
    pub fn find_template(&self, template_files: &Vec<String>) -> (r: Option<String>)
        ensures
            match r {
                Some(t) => pdf_template_choice(
                    self.config@.templates_dir,
                    template_files.deep_view(),
                ) == Some(t@),
                None => pdf_template_choice(
                    self.config@.templates_dir,
                    template_files.deep_view(),
                ) is None,
            },
    {
        let mut canonical = self.config.templates_dir.clone();
        canonical.append("/eisvogel.latex");
        if vec_contains_string(template_files, &canonical) {
            return Some(canonical);
        }
        find_first_with_ext(template_files, "latex")
    }

    /// Translates the populated metadata keys into converter flags.
    #[verifier::rlimit(100)]
    pub fn add_metadata_args(&self, args: &mut Vec<String>, metadata: &DocumentMetadata)
        ensures
            final(args).deep_view() == old(args).deep_view() + meta_args_spec(metadata@),
    {
        broadcast use vstd::seq::Seq::add_empty_right;

        let ghost base = old(args).deep_view();
        let ghost m = metadata@;
        let ghost seg_title: Seq<Seq<char>> = match m.title {
            Some(t) => seq!["--metadata"@, "title="@ + t],
            None => seq!["--metadata"@, "title=Document"@],
        };
        match &metadata.title {
            Some(t) => push_meta_arg(args, "title=", t.as_str()),
            None => push_meta_arg(args, "title=", "Document"),
        }
        proof {
            if m.title is None {
                assert("title="@ + "Document"@ =~= "title=Document"@) by {
                    reveal_strlit("title=");
                    reveal_strlit("Document");
                    reveal_strlit("title=Document");
                }
            }
            assert(args.deep_view() == base + seg_title);
        }
        let ghost acc = seg_title;
        let ghost seg_author: Seq<Seq<char>> = match m.author {
            Some(a) => seq!["--metadata"@, "author="@ + author_join(a)],
            None => Seq::empty(),
        };
        if let Some(a) = &metadata.author {
            let joined = join_authors(a);
            push_meta_arg(args, "author=", joined.as_str());
        }
        proof {
            assert(args.deep_view() == (base + acc) + seg_author);
            vstd::seq_lib::lemma_concat_associative(base, acc, seg_author);
        }
        let ghost acc = acc + seg_author;
        let ghost seg_date: Seq<Seq<char>> = match m.date {
            Some(d) => seq!["--metadata"@, "date="@ + d],
            None => Seq::empty(),
        };
        if let Some(d) = &metadata.date {
            push_meta_arg(args, "date=", d.as_str());
        }
        proof {
            assert(args.deep_view() == (base + acc) + seg_date);
            vstd::seq_lib::lemma_concat_associative(base, acc, seg_date);
        }
        let ghost acc = acc + seg_date;
        let ghost seg_lang: Seq<Seq<char>> = match m.lang {
            Some(l) => seq!["--metadata"@, "lang="@ + l] + if m.babel_lang is None {
                seq!["--metadata"@, "babel-lang="@ + babel_of(l)]
            } else {
                Seq::empty()
            },
            None => Seq::empty(),
        };
        if let Some(l) = &metadata.lang {
            let ghost before_lang = args.deep_view();
            push_meta_arg(args, "lang=", l.as_str());
            if metadata.babel_lang.is_none() {
                let babel = self.detect_babel_lang(l.as_str());
                push_meta_arg(args, "babel-lang=", babel.as_str());
            }
            proof {
                assert(args.deep_view() =~= before_lang + seg_lang);
            }
        }
        proof {
            assert(args.deep_view() == (base + acc) + seg_lang);
            vstd::seq_lib::lemma_concat_associative(base, acc, seg_lang);
        }
        let ghost acc = acc + seg_lang;
        let ghost seg_babel: Seq<Seq<char>> = match m.babel_lang {
            Some(b) => seq!["--metadata"@, "babel-lang="@ + b],
            None => Seq::empty(),
        };
        if let Some(b) = &metadata.babel_lang {
            push_meta_arg(args, "babel-lang=", b.as_str());
        }
        proof {
            assert(args.deep_view() == (base + acc) + seg_babel);
            vstd::seq_lib::lemma_concat_associative(base, acc, seg_babel);
        }
        let ghost acc = acc + seg_babel;
        let ghost seg_class: Seq<Seq<char>> = match m.documentclass {
            Some(c) => seq!["--metadata"@, "documentclass="@ + c],
            None => Seq::empty(),
        };
        if let Some(c) = &metadata.documentclass {
            push_meta_arg(args, "documentclass=", c.as_str());
        }
        proof {
            assert(args.deep_view() == (base + acc) + seg_class);
            vstd::seq_lib::lemma_concat_associative(base, acc, seg_class);
        }
        let ghost acc = acc + seg_class;
        let ghost seg_book: Seq<Seq<char>> = if m.book == Some(true) {
            seq!["--metadata"@, "book=true"@]
        } else {
            Seq::empty()
        };
        let book = match &metadata.book {
            Some(b) => *b,
            None => false,
        };
        if book {
            let ghost before_book = args.deep_view();
            args.push(String::from_str("--metadata"));
            args.push(String::from_str("book=true"));
            proof {
                assert(args.deep_view() =~= before_book + seg_book);
            }
        }
        proof {
            assert(args.deep_view() == (base + acc) + seg_book);
            vstd::seq_lib::lemma_concat_associative(base, acc, seg_book);
            assert(acc + seg_book == meta_args_spec(m));
        }
    }

    /// Assembles the full converter invocation for print output.
    pub fn build_pandoc_args(
        &self,
        files: &Vec<MarkdownFile>,
        output_path: &str,
        metadata: &DocumentMetadata,
        template_files: &Vec<String>,
    ) -> (r: Vec<String>)
        ensures
            r.deep_view() == pdf_args_spec(
                files.deep_view(),
                output_path@,
                metadata@,
                self.config@.templates_dir,
                template_files.deep_view(),
            ),
    {
        let ghost m = metadata@;
        let mut args: Vec<String> = Vec::new();
        args.push(String::from_str("--standalone"));
        args.push(String::from_str("--listings"));
        args.push(String::from_str("--pdf-engine"));
        args.push(String::from_str("xelatex"));
        proof {
            assert(args.deep_view() =~= seq![
                "--standalone"@,
                "--listings"@,
                "--pdf-engine"@,
                "xelatex"@,
            ]);
        }
        let ghost base = args.deep_view();
        if let Some(t) = self.find_template(template_files) {
            args.push(String::from_str("--template"));
            args.push(t);
        }
        proof {
            assert(args.deep_view() =~= base + (match pdf_template_choice(
                self.config@.templates_dir,
                template_files.deep_view(),
            ) {
                Some(t) => seq!["--template"@, t],
                None => Seq::<Seq<char>>::empty(),
            }));
        }
        let ghost seg1 = args.deep_view();
        args.push(String::from_str("--citeproc"));
        proof {
            assert(args.deep_view() =~= seg1 + seq!["--citeproc"@]);
        }
        let ghost seg2 = args.deep_view();
        args.push(String::from_str("--top-level-division"));
        match &metadata.top_level_division {
            Some(d) => args.push(d.clone()),
            None => args.push(String::from_str("section")),
        }
        proof {
            assert(args.deep_view() =~= seg2 + (match m.top_level_division {
                Some(d) => seq!["--top-level-division"@, d],
                None => seq!["--top-level-division"@, "section"@],
            }));
        }
        let ghost seg3 = args.deep_view();
        let number = match &metadata.numbersections {
            Some(b) => *b,
            None => true,
        };
        if number {
            args.push(String::from_str("--number-sections"));
        }
        proof {
            assert(args.deep_view() =~= seg3 + (if m.numbersections != Some(false) {
                seq!["--number-sections"@]
            } else {
                Seq::<Seq<char>>::empty()
            }));
        }
        let ghost seg4 = args.deep_view();
        self.add_metadata_args(&mut args, metadata);
        let ghost seg5 = args.deep_view();
        push_input_paths(&mut args, files);
        let ghost seg6 = args.deep_view();
        args.push(String::from_str("-o"));
        args.push(String::from_str(output_path));
        proof {
            assert(args.deep_view() =~= seg6 + seq!["-o"@, output_path@]);
            assert(args.deep_view() =~= pdf_args_spec(
                files.deep_view(),
                output_path@,
                m,
                self.config@.templates_dir,
                template_files.deep_view(),
            ));
        }
        args
    }
}

impl DocxBuilder {
    pub fn new(config: ProjectConfig) -> (r: DocxBuilder)
        ensures
            r.config@ == config@,
    {
        DocxBuilder { config }
    }

    /// The first word-processor reference template of the listing.
    pub fn find_docx_template(&self, template_files: &Vec<String>) -> (r: Option<String>)
        ensures
            match r {
                Some(t) => first_with_ext(template_files.deep_view(), "docx"@) == Some(t@),
                None => first_with_ext(template_files.deep_view(), "docx"@) is None,
            },
    {
        find_first_with_ext(template_files, "docx")
    }

    /// Assembles the full converter invocation for word-processor output.
    pub fn build_pandoc_args(
        &self,
        files: &Vec<MarkdownFile>,
        output_path: &str,
        metadata: &DocumentMetadata,
        template_files: &Vec<String>,
    ) -> (r: Vec<String>)
        ensures
            r.deep_view() == docx_args_spec(
                files.deep_view(),
                output_path@,
                metadata@,
                template_files.deep_view(),
            ),
    {
        let ghost m = metadata@;
        let mut args: Vec<String> = Vec::new();
        args.push(String::from_str("--standalone"));
        args.push(String::from_str("--to"));
        args.push(String::from_str("docx"));
        proof {
            assert(args.deep_view() =~= seq!["--standalone"@, "--to"@, "docx"@]);
        }
        let ghost base = args.deep_view();
        if let Some(t) = self.find_docx_template(template_files) {
            args.push(String::from_str("--reference-doc"));
            args.push(t);
        }
        proof {
            assert(args.deep_view() =~= base + (match first_with_ext(
                template_files.deep_view(),
                "docx"@,
            ) {
                Some(t) => seq!["--reference-doc"@, t],
                None => Seq::<Seq<char>>::empty(),
            }));
        }
        let ghost seg1 = args.deep_view();
        args.push(String::from_str("--citeproc"));
        proof {
            assert(args.deep_view() =~= seg1 + seq!["--citeproc"@]);
        }
        let ghost seg2 = args.deep_view();
        let number = match &metadata.numbersections {
            Some(b) => *b,
            None => true,
        };
        if number {
            args.push(String::from_str("--number-sections"));
        }
        proof {
            assert(args.deep_view() =~= seg2 + (if m.numbersections != Some(false) {
                seq!["--number-sections"@]
            } else {
                Seq::<Seq<char>>::empty()
            }));
        }
        push_input_paths(&mut args, files);
        let ghost seg3 = args.deep_view();
        args.push(String::from_str("-o"));
        args.push(String::from_str(output_path));
        proof {
            assert(args.deep_view() =~= seg3 + seq!["-o"@, output_path@]);
            assert(args.deep_view() =~= docx_args_spec(
                files.deep_view(),
                output_path@,
                m,
                template_files.deep_view(),
            ));
        }
        args
    }
}

impl HtmlBuilder {
    pub fn new(config: ProjectConfig) -> (r: HtmlBuilder)
        ensures
            r.config@ == config@,
    {
        HtmlBuilder { config }
    }

    /// The first web template of the listing.
    pub fn find_html_template(&self, template_files: &Vec<String>) -> (r: Option<String>)
        ensures
            match r {
                Some(t) => first_with_ext(template_files.deep_view(), "html"@) == Some(t@),
                None => first_with_ext(template_files.deep_view(), "html"@) is None,
            },
    {
        find_first_with_ext(template_files, "html")
    }

    /// Assembles the full converter invocation for web output.
    pub fn build_pandoc_args(
        &self,
        files: &Vec<MarkdownFile>,
        output_path: &str,
        metadata: &DocumentMetadata,
        template_files: &Vec<String>,
    ) -> (r: Vec<String>)
        ensures
            r.deep_view() == html_args_spec(
                files.deep_view(),
                output_path@,
                metadata@,
                template_files.deep_view(),
            ),
    {
        let ghost m = metadata@;
        let mut args: Vec<String> = Vec::new();
        args.push(String::from_str("--standalone"));
        args.push(String::from_str("--to"));
        args.push(String::from_str("html5"));
        args.push(String::from_str("--self-contained"));
        args.push(String::from_str("--citeproc"));
        proof {
            assert(args.deep_view() =~= seq![
                "--standalone"@,
                "--to"@,
                "html5"@,
                "--self-contained"@,
                "--citeproc"@,
            ]);
        }
        let ghost base = args.deep_view();
        let number = match &metadata.numbersections {
            Some(b) => *b,
            None => true,
        };
        if number {
            args.push(String::from_str("--number-sections"));
        }
        proof {
            assert(args.deep_view() =~= base + (if m.numbersections != Some(false) {
                seq!["--number-sections"@]
            } else {
                Seq::<Seq<char>>::empty()
            }));
        }
        let ghost seg1 = args.deep_view();
        if let Some(t) = self.find_html_template(template_files) {
            args.push(String::from_str("--template"));
            args.push(t);
        }
        proof {
            assert(args.deep_view() =~= seg1 + (match first_with_ext(
                template_files.deep_view(),
                "html"@,
            ) {
                Some(t) => seq!["--template"@, t],
                None => Seq::<Seq<char>>::empty(),
            }));
        }
        push_input_paths(&mut args, files);
        let ghost seg2 = args.deep_view();
        args.push(String::from_str("-o"));
        args.push(String::from_str(output_path));
        proof {
            assert(args.deep_view() =~= seg2 + seq!["-o"@, output_path@]);
            assert(args.deep_view() =~= html_args_spec(
                files.deep_view(),
                output_path@,
                m,
                template_files.deep_view(),
            ));
        }
        args
    }
}

} // verus!
