//! External tool validation: which tools a build format requires, whether
//! they are present, and the dependency-missing report.

use vstd::prelude::*;
use crate::chars::str_eq;
use crate::errors::AutoDocError;
use crate::metadata::view_opt_str;

verus! {

/// The availability of one external tool.
#[derive(Debug)]
pub struct DependencyStatus {
    pub name: String,
    pub available: bool,
    pub version: Option<String>,
    pub required: bool,
    pub install_hint: Option<String>,
}

#[verifier::ext_equal]
pub struct DependencyStatusView {
    pub name: Seq<char>,
    pub available: bool,
    pub version: Option<Seq<char>>,
    pub required: bool,
    pub install_hint: Option<Seq<char>>,
}

impl View for DependencyStatus {
    type V = DependencyStatusView;

    open spec fn view(&self) -> DependencyStatusView {
        DependencyStatusView {
            name: self.name@,
            available: self.available,
            version: view_opt_str(self.version),
            required: self.required,
            install_hint: view_opt_str(self.install_hint),
        }
    }
}

impl DeepView for DependencyStatus {
    type V = DependencyStatusView;

    open spec fn deep_view(&self) -> DependencyStatusView {
        self.view()
    }
}

/// Relies on `which::which`: whether the named executable can be located on
/// the search path.  The answer depends on the environment, so nothing
/// further is promised.
#[verifier::external_body]
fn tool_on_path(name: &str) -> bool {
    which::which(name).is_ok()
}

/// The install hint for a package.
pub open spec fn install_hint_spec(package: Seq<char>) -> Seq<char> {
    if package == "pandoc"@ {
        "sudo apt install pandoc"@
    } else if package == "texlive"@ {
        "sudo apt install texlive-xetex"@
    } else {
        "sudo apt install "@ + package
    }
}

/// Whether a tool is required for the given build format.
pub open spec fn required_for(format: Seq<char>, d: DependencyStatusView) -> bool {
    if format == "pdf"@ || format == "all"@ {
        d.name == "pandoc"@ || d.name == "xelatex"@
    } else if format == "docx"@ || format == "html"@ {
        d.name == "pandoc"@
    } else {
        d.required
    }
}

/// Whether any required tool of the list is missing for the format.
pub open spec fn any_missing(deps: Seq<DependencyStatusView>, format: Seq<char>) -> bool
    decreases deps.len(),
{
    if deps.len() == 0 {
        false
    } else {
        (required_for(format, deps[0]) && !deps[0].available) || any_missing(
            deps.skip(1),
            format,
        )
    }
}

/// One line of the dependency-missing report.
pub open spec fn hint_line(d: DependencyStatusView) -> Seq<char> {
    "  - "@ + d.name + ": "@ + (match d.install_hint {
        Some(h) => h,
        None => "Install manually"@,
    }) + "\n"@
}

/// The report lines of the missing required tools, in list order.
pub open spec fn missing_hints(deps: Seq<DependencyStatusView>, format: Seq<char>) -> Seq<char>
    decreases deps.len(),
{
    if deps.len() == 0 {
        Seq::empty()
    } else {
        (if required_for(format, deps[0]) && !deps[0].available {
            hint_line(deps[0])
        } else {
            Seq::empty()
        }) + missing_hints(deps.skip(1), format)
    }
}

/// The full dependency-missing report for a format.
pub open spec fn missing_message(deps: Seq<DependencyStatusView>, format: Seq<char>) -> Seq<
    char,
> {
    "Missing required dependencies for "@ + format + " format:\n"@ + missing_hints(deps, format)
}

/// Checks and validates the external tools of the pipeline.
pub struct DependencyChecker;

impl DependencyChecker {
    /// The status of every tool the pipeline can need: the converter and
    /// the typesetting engine.  Availability comes from the search path;
    /// versions are reported by the shell around the library, not here.
    pub fn check_all() -> (r: Result<Vec<DependencyStatus>, AutoDocError>)
        ensures
            r is Ok,
            r->Ok_0.deep_view().len() == 2,
            r->Ok_0.deep_view()[0].name == "pandoc"@,
            r->Ok_0.deep_view()[0].required,
            r->Ok_0.deep_view()[0].install_hint == Some(install_hint_spec("pandoc"@)),
            r->Ok_0.deep_view()[1].name == "xelatex"@,
            r->Ok_0.deep_view()[1].required,
            r->Ok_0.deep_view()[1].install_hint == Some(install_hint_spec("texlive"@)),
    {
        let pandoc = DependencyStatus {
            name: String::from_str("pandoc"),
            available: tool_on_path("pandoc"),
            version: None,
            required: true,
            install_hint: Some(Self::get_install_hint("pandoc")),
        };
        let xelatex = DependencyStatus {
            name: String::from_str("xelatex"),
            available: tool_on_path("xelatex"),
            version: None,
            required: true,
            install_hint: Some(Self::get_install_hint("texlive")),
        };
        let mut deps: Vec<DependencyStatus> = Vec::new();
        deps.push(pandoc);
        deps.push(xelatex);
        Ok(deps)
    }

    /// The install hint for a package.
    pub fn get_install_hint(package: &str) -> (r: String)
        ensures
            r@ == install_hint_spec(package@),
    {
        if str_eq(package, "pandoc") {
            String::from_str("sudo apt install pandoc")
        } else if str_eq(package, "texlive") {
            String::from_str("sudo apt install texlive-xetex")
        } else {
            let mut s = String::from_str("sudo apt install ");
            s.append(package);
            s
        }
    }

    /// Validates a status list for a format: succeeds exactly when no
    /// required tool is missing, and otherwise reports every missing tool
    /// with its install hint.
    #[verifier::loop_isolation(false)]
    pub fn validate_statuses(format: &str, deps: &Vec<DependencyStatus>) -> (r: Result<
        (),
        AutoDocError,
    >)
        ensures
            r is Ok <==> !any_missing(deps.deep_view(), format@),
            r is Err ==> (r->Err_0 matches AutoDocError::Dependency { tool, hint } && tool@
                == "multiple"@ && hint@ == missing_message(deps.deep_view(), format@)),
    {
        let ghost ds = deps.deep_view();
        let mut msg = String::from_str("Missing required dependencies for ");
        msg.append(format);
        msg.append(" format:\n");
        let mut found = false;
        let mut i: usize = 0;
        proof {
            assert(ds.skip(0) =~= ds);
        }
        while i < deps.len()
            invariant
                i <= ds.len(),
                any_missing(ds, format@) == (found || any_missing(ds.skip(i as int), format@)),
                msg@ + missing_hints(ds.skip(i as int), format@) == missing_message(ds, format@),
            decreases ds.len() - i,
        {
            proof {
                assert(ds[i as int] == deps@[i as int]@);
                assert(ds.skip(i as int)[0] == ds[i as int]);
                assert(ds.skip(i as int).skip(1) =~= ds.skip(i + 1));
            }
            let d = &deps[i];
            let req = if str_eq(format, "pdf") || str_eq(format, "all") {
                str_eq(d.name.as_str(), "pandoc") || str_eq(d.name.as_str(), "xelatex")
            } else if str_eq(format, "docx") || str_eq(format, "html") {
                str_eq(d.name.as_str(), "pandoc")
            } else {
                d.required
            };
            proof {
                assert(req == required_for(format@, ds[i as int]));
            }
            if req && !d.available {
                let ghost msg0 = msg@;
                found = true;
                msg.append("  - ");
                msg.append(d.name.as_str());
                msg.append(": ");
                match &d.install_hint {
                    Some(h) => msg.append(h.as_str()),
                    None => msg.append("Install manually"),
                }
                msg.append("\n");
                proof {
                    assert(msg@ =~= msg0 + hint_line(ds[i as int]));
                }
            }
            i += 1;
        }
        proof {
            assert(ds.skip(ds.len() as int).len() == 0);
            assert(missing_hints(ds.skip(ds.len() as int), format@) =~= Seq::<char>::empty());
            assert(msg@ =~= msg@ + Seq::<char>::empty());
        }
        if found {
            Err(AutoDocError::Dependency { tool: String::from_str("multiple"), hint: msg })
        } else {
            Ok(())
        }
    }

    /// Checks the tools and validates them for a format.  Availability
    /// depends on the environment; a failure is always a dependency report
    /// naming every missing tool.
    pub fn validate_for_build(format: &str) -> (r: Result<(), AutoDocError>)
        ensures
            r is Err ==> (r->Err_0 matches AutoDocError::Dependency { tool, hint } && tool@
                == "multiple"@),
    {
        match Self::check_all() {
            Ok(deps) => Self::validate_statuses(format, &deps),
            Err(_) => unreached(),
        }
    }
}

} // verus!
