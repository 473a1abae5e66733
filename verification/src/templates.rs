//! Template management decisions: where an installed template lands, and
//! which archive entry holds the canonical print template.  Copying files,
//! downloading and unpacking live outside the crate.

use vstd::prelude::*;
use crate::chars::{file_name_spec, str_to_chars};
use crate::errors::AutoDocError;

verus! {

/// Decides template installation and lookup for one templates directory.
pub struct TemplateManager {
    pub templates_dir: String,
}

/// A name that ends in the print-template extension.
pub open spec fn is_latex_name(name: Seq<char>) -> bool {
    ".latex"@.is_suffix_of(name)
}

impl TemplateManager {
    pub fn new(templates_dir: String) -> (r: TemplateManager)
        ensures
            r.templates_dir@ == templates_dir@,
    {
        TemplateManager { templates_dir }
    }

    /// Where a template from `source_path` is installed, given whether the
    /// source exists: under the templates directory, by its file name.  A
    /// missing source, or a path without a final component, is refused.
    pub fn install_plan(&self, source_path: &str, source_exists: bool) -> (r: Result<
        String,
        AutoDocError,
    >)
        ensures
            !source_exists ==> r is Err && (r->Err_0 matches AutoDocError::Build { message }
                && message@ == "Template file not found: "@ + source_path@),
            source_exists && file_name_spec(source_path@).len() == 0 ==> r is Err && (
            r->Err_0 matches AutoDocError::Build { message } && message@
                == "Invalid template file path"@),
            source_exists && file_name_spec(source_path@).len() > 0 ==> r is Ok && r->Ok_0@
                == self.templates_dir@ + "/"@ + file_name_spec(source_path@),
    {
        if !source_exists {
            let mut message = String::from_str("Template file not found: ");
            message.append(source_path);
            return Err(AutoDocError::Build { message });
        }
        let chars = str_to_chars(source_path);
        let start = crate::chars::file_name_start(&chars);
        let n = source_path.unicode_len();
        let name = source_path.substring_char(start, n);
        proof {
            assert(name@ == file_name_spec(source_path@));
        }
        if name.unicode_len() == 0 {
            return Err(
                AutoDocError::Build { message: String::from_str("Invalid template file path") },
            );
        }
        let mut dest = self.templates_dir.clone();
        dest.append("/");
        dest.append(name);
        Ok(dest)
    }

    /// The first archive entry that holds a print template, if any.
    #[verifier::loop_isolation(false)]
    pub fn find_latex_entry(names: &Vec<String>) -> (r: Option<usize>)
        ensures
            match r {
                Some(i) => {
                    &&& i < names.deep_view().len()
                    &&& is_latex_name(names.deep_view()[i as int])
                    &&& forall|j: int| 0 <= j < i ==> !is_latex_name(names.deep_view()[j])
                },
                None => forall|j: int|
                    0 <= j < names.deep_view().len() ==> !is_latex_name(names.deep_view()[j]),
            },
    {
        let ghost ns = names.deep_view();
        let suffix = str_to_chars(".latex");
        let mut i: usize = 0;
        while i < names.len()
            invariant
                i <= ns.len(),
                ns == names.deep_view(),
                forall|j: int| 0 <= j < i ==> !is_latex_name(ns[j]),
            decreases ns.len() - i,
        {
            proof {
                assert(ns[i as int] == names@[i as int]@);
            }
            let chars = str_to_chars(names[i].as_str());
            if ends_with_chars(&chars, &suffix) {
                return Some(i);
            }
            i += 1;
        }
        None
    }
}

/// Whether the characters of `suf` are a suffix of `v`.
#[verifier::loop_isolation(false)]
fn ends_with_chars(v: &Vec<char>, suf: &Vec<char>) -> (r: bool)
    ensures
        r == suf@.is_suffix_of(v@),
{
    if suf.len() > v.len() {
        return false;
    }
    let start = v.len() - suf.len();
    let mut k: usize = 0;
    while k < suf.len()
        invariant
            k <= suf@.len(),
            suf@.len() <= v@.len(),
            v@.len() == v.len(),
            suf@.len() == suf.len(),
            start == v@.len() - suf@.len(),
            forall|j: int| 0 <= j < k ==> v@[start + j] == suf@[j],
        decreases suf@.len() - k,
    {
        proof {
            assert(start + k < v@.len());
        }
        if v[start + k] != suf[k] {
            proof {
                assert(v@.subrange(start as int, v@.len() as int)[k as int] == v@[start + k]);
            }
            return false;
        }
        k += 1;
    }
    proof {
        assert forall|j: int| 0 <= j < suf@.len() implies v@.subrange(
            v@.len() - suf@.len(),
            v@.len() as int,
        )[j] == suf@[j] by {
            assert(v@[start + j] == suf@[j]);
        }
        assert(v@.subrange(v@.len() - suf@.len(), v@.len() as int) =~= suf@);
    }
    true
}

} // verus!
