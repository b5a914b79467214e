use vstd::prelude::*;
use vstd::string::*;

verus! {

/// Basic information about a project.
pub struct VentApplicationProject {
    pub name: String,
    pub version: String,
}

/// The file inside a project directory that holds the project description.
pub open spec fn project_file_text(dir: Seq<char>) -> Seq<char> {
    dir + "/project.vent"@
}

impl VentApplicationProject {
    /// The path of the project description inside the directory `path`.
    pub fn project_file_path(path: &str) -> (r: String)
        ensures
            r@ == project_file_text(path@),
    {
        let mut s = String::from_str(path);
        s.append("/project.vent");
        s
    }
}

} // verus!
