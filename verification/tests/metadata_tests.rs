//! Front-matter parsing and the cross-fragment metadata merge.

use autodoc::discovery::MetadataParser;
use autodoc::metadata::{DiscoveredFiles, DocumentMetadata, MarkdownFile, MetaValue};

fn fragment(path: &str, metadata: DocumentMetadata) -> MarkdownFile {
    MarkdownFile {
        path: path.to_string(),
        metadata,
        content: String::new(),
        has_inline_mermaid: false,
        dependencies: vec![],
        last_modified: 0,
    }
}

#[test]
fn test_document_metadata_default() {
    let metadata = DocumentMetadata::default();
    assert!(metadata.title.is_none());
    assert!(metadata.author.is_none());
    assert!(metadata.date.is_none());
    // Every key of the schema is unset until a fragment sets it; the
    // orchestrator applies the built-in defaults.
    assert!(metadata.numbersections.is_none());
}

#[test]
fn test_metadata_parser_empty() {
    let files = vec![];
    let metadata = MetadataParser::merge_metadata(&files);

    assert!(metadata.title.is_none());
    assert!(metadata.author.is_none());
    // A key no fragment sets remains unset after the merge.
    assert!(metadata.numbersections.is_none());
}

#[test]
fn test_metadata_parser_with_frontmatter() {
    let content = "---\ntitle: \"Test Document\"\nauthor: [\"Test Author\"]\ndate: \"2024-01-01\"\n---\n\n# Content";

    let markdown_file = MetadataParser::parse_file("test.md", content, 0).unwrap();
    let files = vec![markdown_file];
    let metadata = MetadataParser::merge_metadata(&files);

    assert_eq!(metadata.title, Some("Test Document".to_string()));
    assert_eq!(metadata.author, Some(vec!["Test Author".to_string()]));
    assert_eq!(metadata.date, Some("2024-01-01".to_string()));
}

#[test]
fn test_discovered_files_empty() {
    let files = DiscoveredFiles {
        markdown_files: vec![],
        mermaid_files: vec![],
        image_files: vec![],
        template_files: vec![],
        bibliography_files: vec![],
    };

    assert!(files.markdown_files.is_empty());
    assert!(files.mermaid_files.is_empty());
    assert!(files.image_files.is_empty());
}

#[test]
fn test_missing_frontmatter_is_no_error() {
    let content = "# Just a heading\n\nBody text.";
    let parsed = MetadataParser::parse_file("plain.md", content, 7).unwrap();
    assert!(parsed.metadata.title.is_none());
    assert!(parsed.metadata.numbersections.is_none());
    assert_eq!(parsed.content, content);
    assert_eq!(parsed.last_modified, 7);
}

#[test]
fn test_unterminated_frontmatter_is_error() {
    let content = "---\ntitle: \"A\"\nno closing delimiter here";
    assert!(MetadataParser::parse_file("bad.md", content, 0).is_err());
}

#[test]
fn test_unparsable_frontmatter_is_error() {
    let content = "---\ninvalid: yaml: content: [\n---\nbody";
    assert!(MetadataParser::parse_file("bad.md", content, 0).is_err());
}

#[test]
fn test_wrong_shape_for_known_key_is_error() {
    // The title must be text, not a number.
    let content = "---\ntitle: 3\n---\nbody";
    assert!(MetadataParser::parse_file("bad.md", content, 0).is_err());
}

#[test]
fn test_typed_keys_and_custom_bag() {
    let content = "---\nnumbersections: false\nsecnumdepth: 3\ngeometry: [\"margin=2.5cm\"]\ndepartment: ops\n---\nbody";
    let parsed = MetadataParser::parse_file("typed.md", content, 0).unwrap();
    assert_eq!(parsed.metadata.numbersections, Some(false));
    assert_eq!(parsed.metadata.secnumdepth, Some(3));
    assert_eq!(parsed.metadata.geometry, Some(vec!["margin=2.5cm".to_string()]));
    assert_eq!(parsed.metadata.custom.len(), 1);
    assert_eq!(parsed.metadata.custom[0].key, "department");
    assert!(matches!(&parsed.metadata.custom[0].value, MetaValue::Str(s) if s == "ops"));
}

#[test]
fn test_merge_precedence_reserved_wins() {
    let mut reserved = DocumentMetadata::new_empty();
    reserved.title = Some("A".to_string());
    let mut later = DocumentMetadata::new_empty();
    later.title = Some("B".to_string());

    let files = vec![fragment("00-setup.md", reserved), fragment("01-intro.md", later)];
    let merged = MetadataParser::merge_metadata(&files);
    assert_eq!(merged.title, Some("A".to_string()));
}

#[test]
fn test_merge_precedence_first_wins_without_reserved_title() {
    let reserved = DocumentMetadata::new_empty();
    let mut second = DocumentMetadata::new_empty();
    second.title = Some("B".to_string());
    let mut third = DocumentMetadata::new_empty();
    third.title = Some("C".to_string());

    let files = vec![
        fragment("00-setup.md", reserved),
        fragment("01-a.md", second),
        fragment("02-b.md", third),
    ];
    let merged = MetadataParser::merge_metadata(&files);
    assert_eq!(merged.title, Some("B".to_string()));
}

#[test]
fn test_merge_per_key_independence() {
    let mut reserved = DocumentMetadata::new_empty();
    reserved.title = Some("The Title".to_string());
    let mut second = DocumentMetadata::new_empty();
    second.author = Some(vec!["An Author".to_string()]);

    let files = vec![fragment("00-setup.md", reserved), fragment("02-more.md", second)];
    let merged = MetadataParser::merge_metadata(&files);
    assert_eq!(merged.title, Some("The Title".to_string()));
    assert_eq!(merged.author, Some(vec!["An Author".to_string()]));
}

#[test]
fn test_merge_is_idempotent_on_unchanged_input() {
    let content = "---\ntitle: \"Stable\"\nlang: \"de\"\n---\nbody";
    let once = {
        let f = MetadataParser::parse_file("00-setup.md", content, 0).unwrap();
        MetadataParser::merge_metadata(&vec![f])
    };
    let twice = {
        let f = MetadataParser::parse_file("00-setup.md", content, 0).unwrap();
        MetadataParser::merge_metadata(&vec![f])
    };
    assert_eq!(once.title, twice.title);
    assert_eq!(once.lang, twice.lang);
    assert_eq!(once.numbersections, twice.numbersections);
}

#[test]
fn test_extract_project_config() {
    let mut setup = DocumentMetadata::new_empty();
    setup.title = Some("My Project".to_string());
    let mut f = fragment("00-setup.md", setup);
    f.content = "intro\noutput_dir: \"custom-out\"\ntemplates_dir: tpl\nrest".to_string();

    let config = MetadataParser::extract_project_config(&vec![f]);
    assert_eq!(config.name, "My Project");
    assert_eq!(config.output_dir, "custom-out");
    assert_eq!(config.templates_dir, "tpl");
    assert_eq!(config.images_dir, "images");

    let default_config = MetadataParser::extract_project_config(&vec![]);
    assert_eq!(default_config.name, "document");
    assert_eq!(default_config.output_dir, "output");
}
