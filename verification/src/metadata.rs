//! The data model of one build cycle: a fragment file, its front-matter
//! metadata, the process-wide project configuration, and the result of one
//! discovery pass.  Each executable type has a mathematical view over which
//! the contracts of the crate are stated.

use vstd::prelude::*;

verus! {

/// The view of an optional string: the character sequence, if set.
pub open spec fn view_opt_str(o: Option<String>) -> Option<Seq<char>> {
    match o {
        Some(s) => Some(s@),
        None => None,
    }
}

/// The view of an optional string list.
pub open spec fn view_opt_strs(o: Option<Vec<String>>) -> Option<Seq<Seq<char>>> {
    match o {
        Some(v) => Some(v.deep_view()),
        None => None,
    }
}

/// One front-matter value, flattened to the plain shapes the metadata schema
/// reads.  Values of any other shape (nested mappings, fractional numbers,
/// mixed lists, nulls) are retained as `Other`.
#[derive(Debug)]
pub enum MetaValue {
    Str(String),
    Bool(bool),
    Int(u64),
    List(Vec<String>),
    Other,
}

#[verifier::ext_equal]
pub enum MetaValueView {
    Str(Seq<char>),
    Bool(bool),
    Int(u64),
    List(Seq<Seq<char>>),
    Other,
}

impl View for MetaValue {
    type V = MetaValueView;

    open spec fn view(&self) -> MetaValueView {
        match self {
            MetaValue::Str(s) => MetaValueView::Str(s@),
            MetaValue::Bool(b) => MetaValueView::Bool(*b),
            MetaValue::Int(n) => MetaValueView::Int(*n),
            MetaValue::List(v) => MetaValueView::List(v.deep_view()),
            MetaValue::Other => MetaValueView::Other,
        }
    }
}

impl DeepView for MetaValue {
    type V = MetaValueView;

    open spec fn deep_view(&self) -> MetaValueView {
        self.view()
    }
}

impl Clone for MetaValue {
    fn clone(&self) -> (res: Self)
        ensures
            res@ == self@,
    {
        match self {
            MetaValue::Str(s) => MetaValue::Str(s.clone()),
            MetaValue::Bool(b) => MetaValue::Bool(*b),
            MetaValue::Int(n) => MetaValue::Int(*n),
            MetaValue::List(v) => {
                let c = v.clone();
                proof {
                    assert(c.deep_view() =~= v.deep_view());
                }
                MetaValue::List(c)
            },
            MetaValue::Other => MetaValue::Other,
        }
    }
}

/// One key/value pair of a front-matter block, in document order.
#[derive(Debug)]
pub struct MetaEntry {
    pub key: String,
    pub value: MetaValue,
}

#[verifier::ext_equal]
pub struct MetaEntryView {
    pub key: Seq<char>,
    pub value: MetaValueView,
}

impl View for MetaEntry {
    type V = MetaEntryView;

    open spec fn view(&self) -> MetaEntryView {
        MetaEntryView { key: self.key@, value: self.value@ }
    }
}

impl DeepView for MetaEntry {
    type V = MetaEntryView;

    open spec fn deep_view(&self) -> MetaEntryView {
        self.view()
    }
}

impl Clone for MetaEntry {
    fn clone(&self) -> (res: Self)
        ensures
            res@ == self@,
    {
        MetaEntry { key: self.key.clone(), value: self.value.clone() }
    }
}

/// The metadata schema of one fragment, and of the merged configuration of a
/// build cycle.  Every known key is optional; keys outside the schema are
/// kept verbatim in `custom`.
#[derive(Debug)]
pub struct DocumentMetadata {
    // Standard converter metadata
    pub title: Option<String>,
    pub author: Option<Vec<String>>,
    pub date: Option<String>,
    pub subtitle: Option<String>,
    // Language and localization
    pub lang: Option<String>,
    pub babel_lang: Option<String>,
    // Document structure
    pub top_level_division: Option<String>,
    pub numbersections: Option<bool>,
    pub secnumdepth: Option<u8>,
    pub toc: Option<bool>,
    pub toc_depth: Option<u8>,
    pub lof: Option<bool>,
    pub lot: Option<bool>,
    // Document class and layout
    pub documentclass: Option<String>,
    pub classoption: Option<Vec<String>>,
    pub geometry: Option<Vec<String>>,
    pub fontsize: Option<String>,
    pub mainfont: Option<String>,
    pub sansfont: Option<String>,
    pub monofont: Option<String>,
    // Bibliography
    pub bibliography: Option<Vec<String>>,
    pub csl: Option<String>,
    pub link_citations: Option<bool>,
    // Output-specific styling
    pub colorlinks: Option<bool>,
    pub linkcolor: Option<String>,
    pub urlcolor: Option<String>,
    pub citecolor: Option<String>,
    pub book: Option<bool>,
    // Unrecognized keys, preserved in document order
    pub custom: Vec<MetaEntry>,
}

#[verifier::ext_equal]
pub struct MetadataView {
    pub title: Option<Seq<char>>,
    pub author: Option<Seq<Seq<char>>>,
    pub date: Option<Seq<char>>,
    pub subtitle: Option<Seq<char>>,
    pub lang: Option<Seq<char>>,
    pub babel_lang: Option<Seq<char>>,
    pub top_level_division: Option<Seq<char>>,
    pub numbersections: Option<bool>,
    pub secnumdepth: Option<u8>,
    pub toc: Option<bool>,
    pub toc_depth: Option<u8>,
    pub lof: Option<bool>,
    pub lot: Option<bool>,
    pub documentclass: Option<Seq<char>>,
    pub classoption: Option<Seq<Seq<char>>>,
    pub geometry: Option<Seq<Seq<char>>>,
    pub fontsize: Option<Seq<char>>,
    pub mainfont: Option<Seq<char>>,
    pub sansfont: Option<Seq<char>>,
    pub monofont: Option<Seq<char>>,
    pub bibliography: Option<Seq<Seq<char>>>,
    pub csl: Option<Seq<char>>,
    pub link_citations: Option<bool>,
    pub colorlinks: Option<bool>,
    pub linkcolor: Option<Seq<char>>,
    pub urlcolor: Option<Seq<char>>,
    pub citecolor: Option<Seq<char>>,
    pub book: Option<bool>,
    pub custom: Seq<MetaEntryView>,
}

impl View for DocumentMetadata {
    type V = MetadataView;

    open spec fn view(&self) -> MetadataView {
        MetadataView {
            title: view_opt_str(self.title),
            author: view_opt_strs(self.author),
            date: view_opt_str(self.date),
            subtitle: view_opt_str(self.subtitle),
            lang: view_opt_str(self.lang),
            babel_lang: view_opt_str(self.babel_lang),
            top_level_division: view_opt_str(self.top_level_division),
            numbersections: self.numbersections,
            secnumdepth: self.secnumdepth,
            toc: self.toc,
            toc_depth: self.toc_depth,
            lof: self.lof,
            lot: self.lot,
            documentclass: view_opt_str(self.documentclass),
            classoption: view_opt_strs(self.classoption),
            geometry: view_opt_strs(self.geometry),
            fontsize: view_opt_str(self.fontsize),
            mainfont: view_opt_str(self.mainfont),
            sansfont: view_opt_str(self.sansfont),
            monofont: view_opt_str(self.monofont),
            bibliography: view_opt_strs(self.bibliography),
            csl: view_opt_str(self.csl),
            link_citations: self.link_citations,
            colorlinks: self.colorlinks,
            linkcolor: view_opt_str(self.linkcolor),
            urlcolor: view_opt_str(self.urlcolor),
            citecolor: view_opt_str(self.citecolor),
            book: self.book,
            custom: self.custom.deep_view(),
        }
    }
}

impl DeepView for DocumentMetadata {
    type V = MetadataView;

    open spec fn deep_view(&self) -> MetadataView {
        self.view()
    }
}

/// Metadata with every key unset: the parse result of a fragment without a
/// front-matter block, and the seed of the cross-fragment merge.
pub open spec fn empty_metadata() -> MetadataView {
    MetadataView {
        title: None,
        author: None,
        date: None,
        subtitle: None,
        lang: None,
        babel_lang: None,
        top_level_division: None,
        numbersections: None,
        secnumdepth: None,
        toc: None,
        toc_depth: None,
        lof: None,
        lot: None,
        documentclass: None,
        classoption: None,
        geometry: None,
        fontsize: None,
        mainfont: None,
        sansfont: None,
        monofont: None,
        bibliography: None,
        csl: None,
        link_citations: None,
        colorlinks: None,
        linkcolor: None,
        urlcolor: None,
        citecolor: None,
        book: None,
        custom: Seq::empty(),
    }
}

impl DocumentMetadata {
    /// Builds the all-unset metadata.
    pub fn new_empty() -> (r: DocumentMetadata)
        ensures
            r@ == empty_metadata(),
    {
        let r = DocumentMetadata {
            title: None,
            author: None,
            date: None,
            subtitle: None,
            lang: None,
            babel_lang: None,
            top_level_division: None,
            numbersections: None,
            secnumdepth: None,
            toc: None,
            toc_depth: None,
            lof: None,
            lot: None,
            documentclass: None,
            classoption: None,
            geometry: None,
            fontsize: None,
            mainfont: None,
            sansfont: None,
            monofont: None,
            bibliography: None,
            csl: None,
            link_citations: None,
            colorlinks: None,
            linkcolor: None,
            urlcolor: None,
            citecolor: None,
            book: None,
            custom: Vec::new(),
        };
        proof {
            assert(r@ =~= empty_metadata());
        }
        r
    }
}

impl Default for DocumentMetadata {
    /// No key of the schema has a built-in value at parse time; defaults are
    /// applied by the build orchestrator where a key is still unset.
    fn default() -> (r: DocumentMetadata)
        ensures
            r@ == empty_metadata(),
    {
        DocumentMetadata::new_empty()
    }
}

impl Clone for DocumentMetadata {
    #[verifier::rlimit(50)]
    fn clone(&self) -> (res: Self)
        ensures
            res@ == self@,
    {
        let res = DocumentMetadata {
            title: self.title.clone(),
            author: self.author.clone(),
            date: self.date.clone(),
            subtitle: self.subtitle.clone(),
            lang: self.lang.clone(),
            babel_lang: self.babel_lang.clone(),
            top_level_division: self.top_level_division.clone(),
            numbersections: self.numbersections,
            secnumdepth: self.secnumdepth,
            toc: self.toc,
            toc_depth: self.toc_depth,
            lof: self.lof,
            lot: self.lot,
            documentclass: self.documentclass.clone(),
            classoption: self.classoption.clone(),
            geometry: self.geometry.clone(),
            fontsize: self.fontsize.clone(),
            mainfont: self.mainfont.clone(),
            sansfont: self.sansfont.clone(),
            monofont: self.monofont.clone(),
            bibliography: self.bibliography.clone(),
            csl: self.csl.clone(),
            link_citations: self.link_citations,
            colorlinks: self.colorlinks,
            linkcolor: self.linkcolor.clone(),
            urlcolor: self.urlcolor.clone(),
            citecolor: self.citecolor.clone(),
            book: self.book,
            custom: self.custom.clone(),
        };
        proof {
            assert(res@ =~= self@);
        }
        res
    }
}

/// Process-wide, user-supplied settings: loaded once per invocation and
/// read-only thereafter.
#[derive(Debug)]
pub struct ProjectConfig {
    pub name: String,
    pub output_dir: String,
    pub templates_dir: String,
    pub images_dir: String,
    pub exclude_files: Vec<String>,
}

#[verifier::ext_equal]
pub struct ProjectConfigView {
    pub name: Seq<char>,
    pub output_dir: Seq<char>,
    pub templates_dir: Seq<char>,
    pub images_dir: Seq<char>,
    pub exclude_files: Seq<Seq<char>>,
}

impl View for ProjectConfig {
    type V = ProjectConfigView;

    open spec fn view(&self) -> ProjectConfigView {
        ProjectConfigView {
            name: self.name@,
            output_dir: self.output_dir@,
            templates_dir: self.templates_dir@,
            images_dir: self.images_dir@,
            exclude_files: self.exclude_files.deep_view(),
        }
    }
}

impl Clone for ProjectConfig {
    fn clone(&self) -> (res: Self)
        ensures
            res@ == self@,
    {
        let res = ProjectConfig {
            name: self.name.clone(),
            output_dir: self.output_dir.clone(),
            templates_dir: self.templates_dir.clone(),
            images_dir: self.images_dir.clone(),
            exclude_files: self.exclude_files.clone(),
        };
        proof {
            assert(res@ =~= self@);
            assert(res.exclude_files.deep_view() =~= self.exclude_files.deep_view());
            assert(res@ =~= self@);
        }
        res
    }
}

impl Default for ProjectConfig {
    fn default() -> (r: ProjectConfig)
        ensures
            r@.name == "document"@,
            r@.output_dir == "output"@,
            r@.templates_dir == "templates"@,
            r@.images_dir == "images"@,
            r@.exclude_files == seq!["README.md"@],
    {
        let exclude = vec![String::from_str("README.md")];
        proof {
            assert(exclude.deep_view() =~= seq!["README.md"@]);
        }
        ProjectConfig {
            name: String::from_str("document"),
            output_dir: String::from_str("output"),
            templates_dir: String::from_str("templates"),
            images_dir: String::from_str("images"),
            exclude_files: exclude,
        }
    }
}

/// One discovered fragment: its path, parsed front-matter, body content with
/// the front-matter stripped, and auxiliary facts about the body.  Created
/// fresh on every discovery pass and immutable once parsed.
#[derive(Debug)]
pub struct MarkdownFile {
    pub path: String,
    pub metadata: DocumentMetadata,
    pub content: String,
    pub has_inline_mermaid: bool,
    pub dependencies: Vec<String>,
    /// Seconds since the epoch at which the file was last modified.
    pub last_modified: u64,
}

#[verifier::ext_equal]
pub struct MarkdownFileView {
    pub path: Seq<char>,
    pub metadata: MetadataView,
    pub content: Seq<char>,
    pub has_inline_mermaid: bool,
    pub dependencies: Seq<Seq<char>>,
    pub last_modified: u64,
}

impl View for MarkdownFile {
    type V = MarkdownFileView;

    open spec fn view(&self) -> MarkdownFileView {
        MarkdownFileView {
            path: self.path@,
            metadata: self.metadata@,
            content: self.content@,
            has_inline_mermaid: self.has_inline_mermaid,
            dependencies: self.dependencies.deep_view(),
            last_modified: self.last_modified,
        }
    }
}

impl DeepView for MarkdownFile {
    type V = MarkdownFileView;

    open spec fn deep_view(&self) -> MarkdownFileView {
        self.view()
    }
}

impl Clone for MarkdownFile {
    fn clone(&self) -> (res: Self)
        ensures
            res@ == self@,
    {
        let res = MarkdownFile {
            path: self.path.clone(),
            metadata: self.metadata.clone(),
            content: self.content.clone(),
            has_inline_mermaid: self.has_inline_mermaid,
            dependencies: self.dependencies.clone(),
            last_modified: self.last_modified,
        };
        proof {
            assert(res.dependencies.deep_view() =~= self.dependencies.deep_view());
            assert(res@ =~= self@);
        }
        res
    }
}

/// The result of one discovery pass: ordered fragments plus the auxiliary
/// file lists of the project tree.
#[derive(Debug)]
pub struct DiscoveredFiles {
    pub markdown_files: Vec<MarkdownFile>,
    pub mermaid_files: Vec<String>,
    pub image_files: Vec<String>,
    pub template_files: Vec<String>,
    pub bibliography_files: Vec<String>,
}

} // verus!
