//! Discovery: natural ordering, selection and exclusion, and dependency
//! candidates.

use autodoc::discovery::{FileDiscovery, MetadataParser};
use autodoc::metadata::{DocumentMetadata, MarkdownFile, ProjectConfig};
use autodoc::natsort::{natural_compare, sort_markdown_files, sort_strings};
use autodoc::diagrams::DiagramProcessor;

fn fragment(path: &str) -> MarkdownFile {
    MarkdownFile {
        path: path.to_string(),
        metadata: DocumentMetadata::new_empty(),
        content: String::new(),
        has_inline_mermaid: false,
        dependencies: vec![],
        last_modified: 0,
    }
}

fn config_with_excludes(excludes: Vec<&str>) -> ProjectConfig {
    let mut config = ProjectConfig::default();
    config.exclude_files = excludes.into_iter().map(|s| s.to_string()).collect();
    config
}

#[test]
fn test_natural_ordering_of_names() {
    // White space is skipped but still splits two digit runs.
    assert_eq!(natural_compare("pic 4", "pic4"), 0);
    assert_eq!(natural_compare("pic\u{a0}4", "pic4"), 0);
    assert_eq!(natural_compare("00-setup", "02-chapter"), -1);
    assert_eq!(natural_compare("02-chapter", "10-appendix"), -1);
    assert_eq!(natural_compare("10-appendix", "02-chapter"), 1);
    assert_eq!(natural_compare("00-setup", "00-setup"), 0);
    // Numeric-visual order, not lexicographic order.
    assert_eq!(natural_compare("2-chapter", "10-appendix"), -1);
    assert_eq!(natural_compare("rfc822", "rfc2086"), -1);
}

#[test]
fn test_discovery_orders_fragments_naturally() {
    let files = vec![
        fragment("10-appendix.md"),
        fragment("02-chapter.md"),
        fragment("00-setup.md"),
    ];
    let sorted = sort_markdown_files(files);
    let order: Vec<&str> = sorted.iter().map(|f| f.path.as_str()).collect();
    assert_eq!(order, vec!["00-setup.md", "02-chapter.md", "10-appendix.md"]);
}

#[test]
fn test_sort_is_deterministic_on_unchanged_input() {
    let mk = || vec![fragment("b/9-x.md"), fragment("a/10-y.md"), fragment("a/2-z.md")];
    let first: Vec<String> = sort_markdown_files(mk()).iter().map(|f| f.path.clone()).collect();
    let second: Vec<String> = sort_markdown_files(mk()).iter().map(|f| f.path.clone()).collect();
    assert_eq!(first, second);
}

#[test]
fn test_exclusion_by_literal_name() {
    let discovery = FileDiscovery::new(config_with_excludes(vec!["README.md"]));
    let paths = vec![
        "./README.md".to_string(),
        "./01-intro.md".to_string(),
        "./notes.txt".to_string(),
    ];
    let selected = discovery.filter_markdown_paths(&paths);
    assert_eq!(selected, vec!["./01-intro.md".to_string()]);
}

#[test]
fn test_exclusion_by_regex_pattern() {
    let discovery = FileDiscovery::new(config_with_excludes(vec!["^draft.*"]));
    let paths = vec!["./draft-notes.md".to_string(), "./final.md".to_string()];
    let selected = discovery.filter_markdown_paths(&paths);
    assert_eq!(selected, vec!["./final.md".to_string()]);
}

#[test]
fn test_exclusion_pattern_that_does_not_compile_matches_literally() {
    // An unclosed bracket is not a valid regular expression; the pattern
    // falls back to a literal reading.
    let discovery = FileDiscovery::new(config_with_excludes(vec!["note[.md"]));
    assert!(discovery.should_exclude("my note[.md"));
    assert!(!discovery.should_exclude("note.md"));
}

#[test]
fn test_filter_auxiliary_files() {
    let discovery = FileDiscovery::new(ProjectConfig::default());
    let paths = vec![
        "images/logo.PNG".to_string(),
        "images/photo.jpeg".to_string(),
        "images/readme.txt".to_string(),
    ];
    assert_eq!(
        discovery.filter_image_paths(&paths),
        vec!["images/logo.PNG".to_string(), "images/photo.jpeg".to_string()]
    );

    let mixed = vec!["d.mmd".to_string(), "e.md".to_string()];
    assert_eq!(discovery.filter_mermaid_paths(&mixed), vec!["d.mmd".to_string()]);

    let templates = vec!["t/a.latex".to_string(), "t/b.tex".to_string(), "t/c.docx".to_string()];
    assert_eq!(
        discovery.filter_template_paths(&templates),
        vec!["t/a.latex".to_string(), "t/b.tex".to_string()]
    );

    // Diagram sources and templates match their extensions exactly; only
    // the image and bibliography filters fold letter case.
    let upper = vec!["d.MMD".to_string(), "t/a.LATEX".to_string(), "refs.YAML".to_string()];
    assert!(discovery.filter_mermaid_paths(&upper).is_empty());
    assert!(discovery.filter_template_paths(&upper).is_empty());
    assert_eq!(discovery.filter_bibliography_paths(&upper), vec!["refs.YAML".to_string()]);

    let bibs = vec!["refs.bib".to_string(), "cite.bibtex".to_string(), "x.md".to_string()];
    assert_eq!(
        discovery.filter_bibliography_paths(&bibs),
        vec!["refs.bib".to_string(), "cite.bibtex".to_string()]
    );
}

#[test]
fn test_detect_inline_mermaid() {
    assert!(MetadataParser::detect_inline_mermaid("before\n```mermaid\ngraph TD\n```\nafter"));
    assert!(!MetadataParser::detect_inline_mermaid("no diagram here"));
}

#[test]
fn test_image_candidates_filter_remote_targets() {
    let content = "![a](img/a.png) ![b](http://example.invalid/b.png) ![c](mailto:someone)";
    let candidates = MetadataParser::image_candidates(content, ".");
    assert_eq!(candidates, vec!["./img/a.png".to_string()]);
}

#[test]
fn test_link_candidates_keep_only_fragments() {
    let content = "[one](other.md) [two](data.csv) [three](http://example.invalid/x.md)";
    let candidates = MetadataParser::link_candidates(content, "docs");
    assert_eq!(candidates, vec!["docs/other.md".to_string()]);
}

#[test]
fn test_sort_strings_lexicographically() {
    let names = vec!["b.latex".to_string(), "a.latex".to_string(), "c.html".to_string()];
    let sorted = sort_strings(names);
    assert_eq!(
        sorted,
        vec!["a.latex".to_string(), "b.latex".to_string(), "c.html".to_string()]
    );
}

#[test]
fn test_inline_diagram_rewrite() {
    let processor = DiagramProcessor::new("output/diagrams".to_string());
    assert_eq!(
        processor.diagram_output_path("flow", "svg"),
        "output/diagrams/flow.svg"
    );

    let content = "before\n```mermaid\ngraph TD\n```\nafter";
    let rendered = vec![(
        "```mermaid\ngraph TD\n```".to_string(),
        "output/diagrams/inline-diagram-0.svg".to_string(),
    )];
    let rewritten = processor.process_inline_mermaid(content, &rendered);
    assert_eq!(
        rewritten,
        "before\n![Diagram](output/diagrams/inline-diagram-0.svg)\nafter"
    );

    // A block the renderer could not handle stays verbatim.
    let untouched = processor.process_inline_mermaid(content, &vec![]);
    assert_eq!(untouched, content);
}
