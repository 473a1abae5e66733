//! Dependency checking and validation.

use autodoc::dependencies::{DependencyChecker, DependencyStatus};
use autodoc::errors::AutoDocError;

#[test]
fn test_dependency_status_creation() {
    let dep = DependencyStatus {
        name: "test".to_string(),
        available: true,
        version: Some("1.0.0".to_string()),
        required: true,
        install_hint: Some("Install with: brew install test".to_string()),
    };

    assert_eq!(dep.name, "test");
    assert!(dep.available);
    assert_eq!(dep.version, Some("1.0.0".to_string()));
    assert!(dep.required);
}

#[test]
fn test_check_all_returns_dependencies() {
    let result = DependencyChecker::check_all();
    assert!(result.is_ok());

    let deps = result.unwrap();
    assert!(!deps.is_empty());

    let names: Vec<&str> = deps.iter().map(|d| d.name.as_str()).collect();
    assert!(names.contains(&"pandoc"));
    assert!(names.contains(&"xelatex"));
}

#[test]
fn test_validate_for_build_pdf() {
    let result = DependencyChecker::validate_for_build("pdf");

    match result {
        Ok(()) => {},
        Err(AutoDocError::Dependency { tool: _, hint }) => {
            assert!(hint.contains("Missing required dependencies"));
        },
        Err(_) => panic!("Unexpected error type"),
    }
}

#[test]
fn test_validate_for_build_docx() {
    let result = DependencyChecker::validate_for_build("docx");

    match result {
        Ok(()) => {},
        Err(AutoDocError::Dependency { tool: _, hint }) => {
            assert!(hint.contains("docx format"));
        },
        Err(_) => panic!("Unexpected error type"),
    }
}

#[test]
fn test_validate_for_build_html() {
    let result = DependencyChecker::validate_for_build("html");

    match result {
        Ok(()) => {},
        Err(AutoDocError::Dependency { tool: _, hint }) => {
            assert!(hint.contains("html format"));
        },
        Err(_) => panic!("Unexpected error type"),
    }
}

#[test]
fn test_validate_for_build_all() {
    let result = DependencyChecker::validate_for_build("all");

    match result {
        Ok(()) => {},
        Err(AutoDocError::Dependency { tool: _, hint }) => {
            assert!(hint.contains("all format"));
        },
        Err(_) => panic!("Unexpected error type"),
    }
}

#[test]
fn test_validate_statuses_reports_every_missing_tool() {
    let deps = vec![
        DependencyStatus {
            name: "pandoc".to_string(),
            available: false,
            version: None,
            required: true,
            install_hint: Some("sudo apt install pandoc".to_string()),
        },
        DependencyStatus {
            name: "xelatex".to_string(),
            available: false,
            version: None,
            required: true,
            install_hint: None,
        },
    ];
    let result = DependencyChecker::validate_statuses("pdf", &deps);
    match result {
        Err(AutoDocError::Dependency { tool, hint }) => {
            assert_eq!(tool, "multiple");
            assert_eq!(
                hint,
                "Missing required dependencies for pdf format:\n  - pandoc: sudo apt install pandoc\n  - xelatex: Install manually\n"
            );
        },
        _ => panic!("Expected Dependency error"),
    }
}

#[test]
fn test_validate_statuses_succeeds_when_tools_present() {
    let deps = vec![DependencyStatus {
        name: "pandoc".to_string(),
        available: true,
        version: None,
        required: true,
        install_hint: None,
    }];
    assert!(DependencyChecker::validate_statuses("html", &deps).is_ok());
}

#[test]
fn test_install_hints() {
    assert_eq!(DependencyChecker::get_install_hint("pandoc"), "sudo apt install pandoc");
    assert_eq!(DependencyChecker::get_install_hint("texlive"), "sudo apt install texlive-xetex");
    assert_eq!(DependencyChecker::get_install_hint("other"), "sudo apt install other");
}
