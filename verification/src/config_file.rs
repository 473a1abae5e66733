//! The persisted settings file's model: its sections, their built-in
//! defaults, and the translation to the process-wide project configuration.
//! Reading and writing the file itself, and the serialization format, live
//! outside the crate.

use vstd::prelude::*;
use crate::metadata::{DocumentMetadata, ProjectConfig, view_opt_str};

verus! {

/// The project section of the settings file.
#[derive(Debug)]
pub struct ProjectSettings {
    pub name: String,
    pub output_dir: Option<String>,
    pub source_dir: Option<String>,
}

/// The build section of the settings file.
#[derive(Debug)]
pub struct BuildSettings {
    pub default_format: Option<String>,
    pub watch: Option<bool>,
    pub clean_before_build: Option<bool>,
}

/// The templates section of the settings file.
#[derive(Debug)]
pub struct TemplateSettings {
    pub pdf_template: Option<String>,
    pub html_template: Option<String>,
    pub docx_template: Option<String>,
}

/// The whole settings file.
#[derive(Debug)]
pub struct AutoDocConfig {
    pub project: ProjectSettings,
    pub build: BuildSettings,
    pub templates: TemplateSettings,
    pub metadata: Option<DocumentMetadata>,
}

impl Default for AutoDocConfig {
    /// The built-in settings: a document named `document`, print output by
    /// default, no watch, no cleaning, no templates and no metadata.
    fn default() -> (r: AutoDocConfig)
        ensures
            r.project.name@ == "document"@,
            view_opt_str(r.project.output_dir) == Some("output"@),
            r.project.source_dir is None,
            view_opt_str(r.build.default_format) == Some("pdf"@),
            r.build.watch == Some(false),
            r.build.clean_before_build == Some(false),
            r.templates.pdf_template is None,
            r.templates.html_template is None,
            r.templates.docx_template is None,
            r.metadata is None,
    {
        AutoDocConfig {
            project: ProjectSettings {
                name: String::from_str("document"),
                output_dir: Some(String::from_str("output")),
                source_dir: None,
            },
            build: BuildSettings {
                default_format: Some(String::from_str("pdf")),
                watch: Some(false),
                clean_before_build: Some(false),
            },
            templates: TemplateSettings {
                pdf_template: None,
                html_template: None,
                docx_template: None,
            },
            metadata: None,
        }
    }
}

impl AutoDocConfig {
    /// The candidate names of the settings file, in lookup order.
    pub fn config_file_candidates() -> (r: Vec<String>)
        ensures
            r.deep_view() == seq![
                "autodoc.yml"@,
                "autodoc.yaml"@,
                ".autodoc.yml"@,
                ".autodoc.yaml"@,
            ],
    {
        let r = vec![
            String::from_str("autodoc.yml"),
            String::from_str("autodoc.yaml"),
            String::from_str(".autodoc.yml"),
            String::from_str(".autodoc.yaml"),
        ];
        proof {
            assert(r.deep_view() =~= seq![
                "autodoc.yml"@,
                "autodoc.yaml"@,
                ".autodoc.yml"@,
                ".autodoc.yaml"@,
            ]);
        }
        r
    }

    /// The project configuration the settings stand for: the configured
    /// name, the configured output directory when one is set, and the
    /// built-in defaults for everything else.
    pub fn to_project_config(&self) -> (r: ProjectConfig)
        ensures
            r@.name == self.project.name@,
            r@.output_dir == match view_opt_str(self.project.output_dir) {
                Some(o) => o,
                None => "output"@,
            },
            r@.templates_dir == "templates"@,
            r@.images_dir == "images"@,
            r@.exclude_files == seq!["README.md"@],
    {
        let mut config = ProjectConfig::default();
        config.name = self.project.name.clone();
        if let Some(o) = &self.project.output_dir {
            config.output_dir = o.clone();
        }
        config
    }
}

} // verus!
