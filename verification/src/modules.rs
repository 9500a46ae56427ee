//! The built-in modules and the `require` lookup.
//!
//! Each built-in module is an object mapping method names to function
//! values whose name references follow the `<module>_<method>` registry
//! convention, so that member-style calls dispatch to the natives the host
//! registered. `require` is a pure lookup in the module registry; the
//! filesystem, network and console work itself lives with the host.
use vstd::prelude::*;

use crate::errors::{SpecError, ZanoError};
use crate::value::{clone_pairs, obj_get, spec_obj_get, spec_pairs_view, SpecValue, ZanoValue};

verus! {

broadcast use vstd::seq::group_seq_axioms, vstd::std_specs::vec::group_vec_axioms;

/// The console module: `log`, `error` and `warn`.
pub open spec fn spec_console_module() -> SpecValue {
    SpecValue::Object(
        seq![
            ("log"@, SpecValue::Function("console_log"@)),
            ("error"@, SpecValue::Function("console_error"@)),
            ("warn"@, SpecValue::Function("console_warn"@)),
        ],
    )
}

/// The filesystem module: `readFile`, `writeFile` and `exists`.
pub open spec fn spec_fs_module() -> SpecValue {
    SpecValue::Object(
        seq![
            ("readFile"@, SpecValue::Function("fs_readFile"@)),
            ("writeFile"@, SpecValue::Function("fs_writeFile"@)),
            ("exists"@, SpecValue::Function("fs_exists"@)),
        ],
    )
}

/// The HTTP module: `createServer` and `request`.
pub open spec fn spec_http_module() -> SpecValue {
    SpecValue::Object(
        seq![
            ("createServer"@, SpecValue::Function("http_createServer"@)),
            ("request"@, SpecValue::Function("http_request"@)),
        ],
    )
}

/// The path module: `join`, `dirname` and `basename`.
pub open spec fn spec_path_module() -> SpecValue {
    SpecValue::Object(
        seq![
            ("join"@, SpecValue::Function("path_join"@)),
            ("dirname"@, SpecValue::Function("path_dirname"@)),
            ("basename"@, SpecValue::Function("path_basename"@)),
        ],
    )
}

/// The module registry after initialization.
pub open spec fn spec_builtin_modules() -> Seq<(Seq<char>, SpecValue)> {
    seq![
        ("console"@, spec_console_module()),
        ("fs"@, spec_fs_module()),
        ("http"@, spec_http_module()),
        ("path"@, spec_path_module()),
    ]
}

/// The registry of built-in modules, consulted by `require`.
pub struct ModuleSystem {
    modules: Vec<(String, ZanoValue)>,
}

/// Builds one module object from its listed methods.
fn function_entry(key: &str, name: &str) -> (r: (String, ZanoValue))
    ensures
        r.0@ == key@,
        r.1@ == SpecValue::Function(name@),
{
    (key.to_owned(), ZanoValue::Function(name.to_owned()))
}

impl ModuleSystem {
    /// The views of the registered modules.
    pub closed spec fn mods(self) -> Seq<(Seq<char>, SpecValue)> {
        spec_pairs_view(self.modules@)
    }

    /// An empty module registry.
    pub fn new() -> (r: ModuleSystem)
        ensures
            r.mods() == Seq::<(Seq<char>, SpecValue)>::empty(),
    {
        let r = ModuleSystem { modules: Vec::new() };
        proof {
            assert(r.mods() =~= Seq::<(Seq<char>, SpecValue)>::empty());
        }
        r
    }

    /// The console module object.
    pub fn create_console_module(&self) -> (r: ZanoValue)
        ensures
            r@ == spec_console_module(),
    {
        broadcast use crate::value::group_view_lemmas;

        let mut pairs: Vec<(String, ZanoValue)> = Vec::new();
        pairs.push(function_entry("log", "console_log"));
        pairs.push(function_entry("error", "console_error"));
        pairs.push(function_entry("warn", "console_warn"));
        proof {
            assert(spec_pairs_view(pairs@) =~= spec_console_module()->Object_0);
        }
        ZanoValue::Object(pairs)
    }

    /// The filesystem module object.
    pub fn create_fs_module(&self) -> (r: ZanoValue)
        ensures
            r@ == spec_fs_module(),
    {
        broadcast use crate::value::group_view_lemmas;

        let mut pairs: Vec<(String, ZanoValue)> = Vec::new();
        pairs.push(function_entry("readFile", "fs_readFile"));
        pairs.push(function_entry("writeFile", "fs_writeFile"));
        pairs.push(function_entry("exists", "fs_exists"));
        proof {
            assert(spec_pairs_view(pairs@) =~= spec_fs_module()->Object_0);
        }
        ZanoValue::Object(pairs)
    }

    /// The HTTP module object.
    pub fn create_http_module(&self) -> (r: ZanoValue)
        ensures
            r@ == spec_http_module(),
    {
        broadcast use crate::value::group_view_lemmas;

        let mut pairs: Vec<(String, ZanoValue)> = Vec::new();
        pairs.push(function_entry("createServer", "http_createServer"));
        pairs.push(function_entry("request", "http_request"));
        proof {
            assert(spec_pairs_view(pairs@) =~= spec_http_module()->Object_0);
        }
        ZanoValue::Object(pairs)
    }

    /// The path module object.
    pub fn create_path_module(&self) -> (r: ZanoValue)
        ensures
            r@ == spec_path_module(),
    {
        broadcast use crate::value::group_view_lemmas;

        let mut pairs: Vec<(String, ZanoValue)> = Vec::new();
        pairs.push(function_entry("join", "path_join"));
        pairs.push(function_entry("dirname", "path_dirname"));
        pairs.push(function_entry("basename", "path_basename"));
        proof {
            assert(spec_pairs_view(pairs@) =~= spec_path_module()->Object_0);
        }
        ZanoValue::Object(pairs)
    }

    /// Registers the four built-in modules.
    pub fn init(&mut self)
        requires
            old(self).mods() == Seq::<(Seq<char>, SpecValue)>::empty(),
        ensures
            final(self).mods() == spec_builtin_modules(),
    {
        broadcast use crate::value::group_view_lemmas;

        let console = self.create_console_module();
        self.modules.push(("console".to_owned(), console));
        let fs = self.create_fs_module();
        self.modules.push(("fs".to_owned(), fs));
        let http = self.create_http_module();
        self.modules.push(("http".to_owned(), http));
        let path = self.create_path_module();
        self.modules.push(("path".to_owned(), path));
        proof {
            assert(self.mods() =~= spec_builtin_modules());
        }
    }

    /// An exact copy of the module registry.
    pub fn snapshot(&self) -> (r: ModuleSystem)
        ensures
            r.mods() == self.mods(),
    {
        ModuleSystem { modules: clone_pairs(&self.modules) }
    }

    /// The module registered under `name`, if any.
    pub fn get_module(&self, name: &String) -> (r: Option<ZanoValue>)
        ensures
            match r {
                Some(v) => spec_obj_get(self.mods(), name@) == Some(v@),
                None => spec_obj_get(self.mods(), name@) is None,
            },
    {
        match obj_get(&self.modules, name) {
            Some(v) => Some(v.clone_value()),
            None => None,
        }
    }

    /// What `require` yields: the first argument must be a string naming a
    /// registered module; the module's exported value comes back, a missing
    /// module is a failure naming it, and anything else is a failure asking
    /// for a module name.
    pub fn require(&self, args: &Vec<ZanoValue>) -> (r: Result<ZanoValue, ZanoError>)
        ensures
            match r {
                Ok(v) => {
                    &&& args@.len() > 0
                    &&& args@[0]@ matches SpecValue::String(n) && spec_obj_get(self.mods(), n)
                        == Some(v@)
                },
                Err(e) => match e@ {
                    SpecError::Runtime { message } => {
                        if args@.len() > 0 && args@[0]@ is String {
                            &&& spec_obj_get(self.mods(), args@[0]@->String_0) is None
                            &&& message == "Module not found: "@ + args@[0]@->String_0
                        } else {
                            message == "require requires a module name string"@
                        }
                    },
                    _ => false,
                },
            },
    {
        if args.len() == 0 {
            return Err(
                ZanoError::RuntimeError {
                    message: "require requires a module name string".to_owned(),
                },
            );
        }
        match &args[0] {
            ZanoValue::String(name) => match self.get_module(name) {
                Some(v) => Ok(v),
                None => {
                    let mut message = "Module not found: ".to_owned();
                    message.append(name.as_str());
                    Err(ZanoError::RuntimeError { message })
                },
            },
            _ => Err(
                ZanoError::RuntimeError {
                    message: "require requires a module name string".to_owned(),
                },
            ),
        }
    }
}

} // verus!
