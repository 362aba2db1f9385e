//! What makes a directory a project.

use vstd::prelude::*;
use vstd::string::StringExecFns;

verus! {

/// What is wrong with a directory that is to be opened as a project: the first
/// of the three things that it lacks; `None` for a directory that lacks none.
pub open spec fn path_fault(is_dir: bool, has_project_xml: bool, has_export_dir: bool) -> Option<
    Seq<char>,
> {
    if !is_dir {
        Some("Not a directory"@)
    } else if !has_project_xml {
        Some("Does not contain project.xml"@)
    } else if !has_export_dir {
        Some("Does not contain a Export/ directory"@)
    } else {
        None
    }
}

/// Judges the path of a project by what was found at it: whether it is a
/// directory, whether it holds `project.xml`, and whether it holds `Export`.
pub fn validate_smart_project_path(is_dir: bool, has_project_xml: bool, has_export_dir: bool) -> (r:
    Result<(), String>)
    ensures
        match r {
            Ok(_) => path_fault(is_dir, has_project_xml, has_export_dir) is None,
            Err(message) => path_fault(is_dir, has_project_xml, has_export_dir) == Some(message@),
        },
{
    if !is_dir {
        return Err(String::from_str("Not a directory"));
    }
    if !has_project_xml {
        return Err(String::from_str("Does not contain project.xml"));
    }
    if !has_export_dir {
        return Err(String::from_str("Does not contain a Export/ directory"));
    }
    Ok(())
}

} // verus!
