//! Converter argument assembly and locale derivation.

use autodoc::builders::{pandoc_outcome, DocxBuilder, HtmlBuilder, PdfBuilder};
use autodoc::errors::AutoDocError;
use autodoc::metadata::{DocumentMetadata, MarkdownFile, ProjectConfig};

fn fragment(path: &str) -> MarkdownFile {
    MarkdownFile {
        path: path.to_string(),
        metadata: DocumentMetadata::new_empty(),
        content: String::new(),
        has_inline_mermaid: false,
        dependencies: vec![],
        last_modified: 0,
    }
}

#[test]
fn test_locale_derivation() {
    let builder = PdfBuilder::new(ProjectConfig::default());
    // The table-defined value for German.
    assert_eq!(builder.detect_babel_lang("de"), "ngerman");
    assert_eq!(builder.detect_babel_lang("de-AT"), "ngerman");
    assert_eq!(builder.detect_babel_lang("fr"), "french");
    assert_eq!(builder.detect_babel_lang("pt-BR"), "portuguese");
    // An unrecognized primary subtag yields the fallback value.
    assert_eq!(builder.detect_babel_lang("xx"), "english");
    assert_eq!(builder.detect_babel_lang("tlh-KX"), "english");
}

#[test]
fn test_pdf_args_full_invocation() {
    let builder = PdfBuilder::new(ProjectConfig::default());
    let mut metadata = DocumentMetadata::new_empty();
    metadata.title = Some("My Doc".to_string());
    metadata.author = Some(vec!["A".to_string(), "B".to_string()]);
    metadata.lang = Some("de".to_string());
    let files = vec![fragment("00-setup.md"), fragment("01-intro.md")];
    let templates: Vec<String> = vec![];

    let args = builder.build_pandoc_args(&files, "output/doc.pdf", &metadata, &templates);
    assert_eq!(
        args,
        vec![
            "--standalone".to_string(),
            "--listings".to_string(),
            "--pdf-engine".to_string(),
            "xelatex".to_string(),
            "--citeproc".to_string(),
            "--top-level-division".to_string(),
            "section".to_string(),
            "--number-sections".to_string(),
            "--metadata".to_string(),
            "title=My Doc".to_string(),
            "--metadata".to_string(),
            "author=A, B".to_string(),
            "--metadata".to_string(),
            "lang=de".to_string(),
            "--metadata".to_string(),
            "babel-lang=ngerman".to_string(),
            "00-setup.md".to_string(),
            "01-intro.md".to_string(),
            "-o".to_string(),
            "output/doc.pdf".to_string(),
        ]
    );
}

#[test]
fn test_pdf_args_prefer_canonical_template() {
    let builder = PdfBuilder::new(ProjectConfig::default());
    let templates = vec![
        "templates/other.latex".to_string(),
        "templates/eisvogel.latex".to_string(),
    ];
    let chosen = builder.find_template(&templates);
    assert_eq!(chosen, Some("templates/eisvogel.latex".to_string()));

    let fallback = builder.find_template(&vec!["templates/other.latex".to_string()]);
    assert_eq!(fallback, Some("templates/other.latex".to_string()));

    assert_eq!(builder.find_template(&vec!["templates/readme.txt".to_string()]), None);
}

#[test]
fn test_explicit_locale_override_is_kept() {
    let builder = PdfBuilder::new(ProjectConfig::default());
    let mut metadata = DocumentMetadata::new_empty();
    metadata.lang = Some("de".to_string());
    metadata.babel_lang = Some("austrian".to_string());
    let files = vec![fragment("a.md")];
    let args = builder.build_pandoc_args(&files, "out.pdf", &metadata, &vec![]);
    assert!(args.contains(&"babel-lang=austrian".to_string()));
    assert!(!args.contains(&"babel-lang=ngerman".to_string()));
}

#[test]
fn test_docx_args_invocation() {
    let builder = DocxBuilder::new(ProjectConfig::default());
    let mut metadata = DocumentMetadata::new_empty();
    metadata.numbersections = Some(false);
    let files = vec![fragment("a.md")];
    let templates = vec!["templates/ref.docx".to_string()];
    let args = builder.build_pandoc_args(&files, "out.docx", &metadata, &templates);
    assert_eq!(
        args,
        vec![
            "--standalone".to_string(),
            "--to".to_string(),
            "docx".to_string(),
            "--reference-doc".to_string(),
            "templates/ref.docx".to_string(),
            "--citeproc".to_string(),
            "a.md".to_string(),
            "-o".to_string(),
            "out.docx".to_string(),
        ]
    );
}

#[test]
fn test_html_args_invocation() {
    let builder = HtmlBuilder::new(ProjectConfig::default());
    let metadata = DocumentMetadata::new_empty();
    let files = vec![fragment("a.md")];
    let args = builder.build_pandoc_args(&files, "out.html", &metadata, &vec![]);
    assert_eq!(
        args,
        vec![
            "--standalone".to_string(),
            "--to".to_string(),
            "html5".to_string(),
            "--self-contained".to_string(),
            "--citeproc".to_string(),
            "--number-sections".to_string(),
            "a.md".to_string(),
            "-o".to_string(),
            "out.html".to_string(),
        ]
    );
}

#[test]
fn test_pandoc_outcome() {
    assert!(pandoc_outcome(true, String::new()).is_ok());
    match pandoc_outcome(false, "! Undefined control sequence.".to_string()) {
        Err(AutoDocError::Build { message }) => {
            assert_eq!(message, "Pandoc failed: ! Undefined control sequence.");
        },
        _ => panic!("Expected Build error"),
    }
}
