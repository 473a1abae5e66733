//! Project configuration, the settings file model, templates and
//! initialization.

use autodoc::config_file::AutoDocConfig;
use autodoc::errors::AutoDocError;
use autodoc::init::ProjectInitializer;
use autodoc::metadata::ProjectConfig;
use autodoc::templates::TemplateManager;

#[test]
fn test_project_config_default() {
    let config = ProjectConfig::default();
    assert_eq!(config.name, "document");
    assert_eq!(config.output_dir, "output");
    assert_eq!(config.templates_dir, "templates");
}

#[test]
fn test_autodoc_config_default() {
    let config = AutoDocConfig::default();

    assert_eq!(config.project.name, "document");
    assert_eq!(config.project.output_dir, Some("output".to_string()));
    assert_eq!(config.build.default_format, Some("pdf".to_string()));
    assert_eq!(config.build.watch, Some(false));
}

#[test]
fn test_to_project_config() {
    let mut config = AutoDocConfig::default();
    config.project.name = "test-project".to_string();
    config.project.output_dir = Some("custom-output".to_string());

    let project_config = config.to_project_config();

    assert_eq!(project_config.name, "test-project");
    assert_eq!(project_config.output_dir, "custom-output");
}

#[test]
fn test_config_file_candidates() {
    assert_eq!(
        AutoDocConfig::config_file_candidates(),
        vec![
            "autodoc.yml".to_string(),
            "autodoc.yaml".to_string(),
            ".autodoc.yml".to_string(),
            ".autodoc.yaml".to_string(),
        ]
    );
}

#[test]
fn test_template_manager_creation() {
    let manager = TemplateManager::new("templates".to_string());
    assert_eq!(manager.templates_dir, "templates");
}

#[test]
fn test_install_plan_success() {
    let manager = TemplateManager::new("templates".to_string());
    let dest = manager.install_plan("downloads/source.latex", true).unwrap();
    assert_eq!(dest, "templates/source.latex");
}

#[test]
fn test_install_plan_missing_source() {
    let manager = TemplateManager::new("templates".to_string());
    let result = manager.install_plan("missing.latex", false);
    match result {
        Err(AutoDocError::Build { message }) => {
            assert!(message.contains("Template file not found"));
        },
        _ => panic!("Expected Build error"),
    }
}

#[test]
fn test_find_latex_entry() {
    let names = vec![
        "archive/readme.txt".to_string(),
        "archive/eisvogel.latex".to_string(),
        "archive/another.latex".to_string(),
    ];
    assert_eq!(TemplateManager::find_latex_entry(&names), Some(1));
    assert_eq!(TemplateManager::find_latex_entry(&vec!["a.txt".to_string()]), None);
}

#[test]
fn test_error_messages() {
    assert_eq!(
        AutoDocError::Config { message: "bad".to_string() }.message(),
        "Configuration error: bad"
    );
    assert_eq!(AutoDocError::Io("gone".to_string()).message(), "IO error: gone");
    assert_eq!(
        AutoDocError::WalkDir("loop".to_string()).message(),
        "Directory traversal error: loop"
    );
    assert_eq!(
        AutoDocError::FileNotFound { path: "x.md".to_string() }.message(),
        "File not found: x.md"
    );
    assert_eq!(
        AutoDocError::Dependency { tool: "pandoc".to_string(), hint: "install it".to_string() }
            .message(),
        "Dependency missing: pandoc - install it"
    );
}

#[test]
fn test_initializer_contents() {
    let init = ProjectInitializer::new("demo".to_string());
    assert_eq!(init.project_dirs(), vec!["output", "templates", "images"]);

    let setup = init.setup_file_content("2024-01-01");
    assert!(setup.starts_with("---\ntitle: \"demo\"\n"));
    assert!(setup.contains("date: \"2024-01-01\""));
    assert!(setup.contains("numbersections: true"));

    let sample = init.sample_content();
    assert!(sample.contains("Welcome to your new project: demo."));
}
