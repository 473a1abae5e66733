//! Project initialization: the directory layout of a fresh project and the
//! starter files' contents.  Writing them to disk, and fetching the optional
//! template archive, live outside the crate.

use vstd::prelude::*;

verus! {

/// The text of the setup fragment a fresh project starts with: the
/// reserved metadata fragment, seeded with the project's name and the
/// current date.
pub open spec fn setup_content_spec(name: Seq<char>, date: Seq<char>) -> Seq<char> {
    "---\ntitle: \""@ + name + "\"\nauthor: [\"Your Name\"]\ndate: \""@ + date
        + "\"\nlang: \"en\"\ntop_level_division: \"section\"\nnumbersections: true\n---\n\n# Project Setup\n\nThis fragment is the authoritative metadata source of the project.\nEdit the front matter above to configure the assembled document.\n"@
}

/// The text of the sample content fragment.
pub open spec fn sample_content_spec(name: Seq<char>) -> Seq<char> {
    "# Introduction\n\nWelcome to your new project: "@ + name
        + ".\n\nAdd your content in numbered fragment files; their names decide the\nsection order of the assembled document.\n"@
}

/// Prepares the starter content of a fresh project.
pub struct ProjectInitializer {
    pub project_name: String,
}

impl ProjectInitializer {
    pub fn new(project_name: String) -> (r: ProjectInitializer)
        ensures
            r.project_name@ == project_name@,
    {
        ProjectInitializer { project_name }
    }

    /// The directories a fresh project holds.
    pub fn project_dirs(&self) -> (r: Vec<String>)
        ensures
            r.deep_view() == seq!["output"@, "templates"@, "images"@],
    {
        let r = vec![
            String::from_str("output"),
            String::from_str("templates"),
            String::from_str("images"),
        ];
        proof {
            assert(r.deep_view() =~= seq!["output"@, "templates"@, "images"@]);
        }
        r
    }

    /// The setup fragment's text, for the given date.
    pub fn setup_file_content(&self, date: &str) -> (r: String)
        ensures
            r@ == setup_content_spec(self.project_name@, date@),
    {
        let mut s = String::from_str("---\ntitle: \"");
        s.append(self.project_name.as_str());
        s.append("\"\nauthor: [\"Your Name\"]\ndate: \"");
        s.append(date);
        s.append(
            "\"\nlang: \"en\"\ntop_level_division: \"section\"\nnumbersections: true\n---\n\n# Project Setup\n\nThis fragment is the authoritative metadata source of the project.\nEdit the front matter above to configure the assembled document.\n",
        );
        s
    }

    /// The sample fragment's text.
    pub fn sample_content(&self) -> (r: String)
        ensures
            r@ == sample_content_spec(self.project_name@),
    {
        let mut s = String::from_str("# Introduction\n\nWelcome to your new project: ");
        s.append(self.project_name.as_str());
        s.append(
            ".\n\nAdd your content in numbered fragment files; their names decide the\nsection order of the assembled document.\n",
        );
        s
    }
}

} // verus!
