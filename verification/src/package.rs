//! Project metadata and module resolution.
//!
//! The package manager's file, network and subprocess work lives with the
//! host; here stand the data and the decisions: the manifest shape, and how
//! a module specifier resolves to a builtin marker or a path candidate.
use vstd::prelude::*;

verus! {

/// A project manifest: the fields of a `package.json`, with the string
/// mappings held as ordered key/value pairs.
#[derive(Debug, PartialEq)]
pub struct PackageJson {
    pub name: String,
    pub version: String,
    pub description: Option<String>,
    pub main: Option<String>,
    pub dependencies: Option<Vec<(String, String)>>,
    pub dev_dependencies: Option<Vec<(String, String)>>,
    pub scripts: Option<Vec<(String, String)>>,
    pub author: Option<String>,
    pub license: Option<String>,
}

impl PackageJson {
    /// The manifest a fresh project starts from.
    pub fn fresh() -> (r: PackageJson)
        ensures
            r.name@ == "zano-app"@,
            r.version@ == "1.0.0"@,
            r.description is None,
            (r.main matches Some(m) && m@ == "index.zn"@),
            (r.dependencies matches Some(d) && d@.len() == 0),
            (r.dev_dependencies matches Some(d) && d@.len() == 0),
            (r.scripts matches Some(s) && s@.len() == 1 && s@[0].0@ == "start"@ && s@[0].1@
                == "zano index.zn"@),
            r.author is None,
            (r.license matches Some(l) && l@ == "MIT"@),
    {
        let mut scripts: Vec<(String, String)> = Vec::new();
        scripts.push(("start".to_owned(), "zano index.zn".to_owned()));
        PackageJson {
            name: "zano-app".to_owned(),
            version: "1.0.0".to_owned(),
            description: None,
            main: Some("index.zn".to_owned()),
            dependencies: Some(Vec::new()),
            dev_dependencies: Some(Vec::new()),
            scripts: Some(scripts),
            author: None,
            license: Some("MIT".to_owned()),
        }
    }
}

/// The names of the modules that are built in.
pub open spec fn spec_is_builtin(name: Seq<char>) -> bool {
    name == "fs"@ || name == "http"@ || name == "path"@ || name == "console"@
}

/// Two path pieces joined with one separator.
pub open spec fn spec_join2(a: Seq<char>, b: Seq<char>) -> Seq<char> {
    a + "/"@ + b
}

/// The package manager's stateless core: it knows the project root and
/// decides where a module specifier resolves to.
pub struct PackageManager {
    pub project_root: String,
}

/// Whether a string holds exactly the given text.
fn text_is(s: &str, lit: &str) -> (r: bool)
    ensures
        r == (s@ == lit@),
{
    s.to_owned() == lit.to_owned()
}

/// Appends a path piece after one separator.
fn push_piece(s: &mut String, piece: &str)
    ensures
        final(s)@ == old(s)@ + "/"@ + piece@,
{
    s.append("/");
    s.append(piece);
}

impl PackageManager {
    /// A package manager rooted at the given project directory.
    pub fn new(project_root: String) -> (r: PackageManager)
        ensures
            r.project_root@ == project_root@,
    {
        PackageManager { project_root }
    }

    /// Where a module specifier resolves: a builtin marker for the built-in
    /// modules; else, where the host reports that the directory
    /// `zano_modules/<name>` exists under the root, that directory; else,
    /// where the host reports that `<name>.zn` exists under the root, that
    /// file; else nowhere. The two flags carry the host's answers, in that
    /// order.
    pub fn resolve_module(
        &self,
        module_name: &str,
        modules_dir_exists: bool,
        relative_exists: bool,
    ) -> (r: Option<String>)
        ensures
            spec_is_builtin(module_name@) ==> (r matches Some(p) && p@ == "builtin:"@
                + module_name@),
            !spec_is_builtin(module_name@) && modules_dir_exists ==> (r matches Some(p) && p@
                == spec_join2(spec_join2(self.project_root@, "zano_modules"@), module_name@)),
            !spec_is_builtin(module_name@) && !modules_dir_exists && relative_exists ==> (r matches Some(
                p,
            ) && p@ == spec_join2(self.project_root@, module_name@) + ".zn"@),
            !spec_is_builtin(module_name@) && !modules_dir_exists && !relative_exists ==> r is None,
    {
        if text_is(module_name, "fs") || text_is(module_name, "http") || text_is(
            module_name,
            "path",
        ) || text_is(module_name, "console") {
            let mut marker = "builtin:".to_owned();
            marker.append(module_name);
            return Some(marker);
        }
        if modules_dir_exists {
            let mut p = self.project_root.clone();
            push_piece(&mut p, "zano_modules");
            push_piece(&mut p, module_name);
            return Some(p);
        }
        if relative_exists {
            let mut p = self.project_root.clone();
            push_piece(&mut p, module_name);
            p.append(".zn");
            return Some(p);
        }
        None
    }
}

} // verus!
