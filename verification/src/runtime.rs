//! The runtime's shared state: one flat name-to-value environment, one
//! callable registry, and the module registry, all living for the whole
//! interpreter instance and persisting across repeated top-level
//! executions. Declaring a function registers its callable and writes a
//! placeholder function value under the same name, so identifier lookups
//! for declared functions never fail.
use vstd::prelude::*;

use crate::ast::{clone_names, clone_stmts, spec_names_view, spec_stmts_of_vec, SpecStmt, Statement};
use crate::errors::{SpecError, ZanoError};
use crate::modules::{spec_builtin_modules, spec_console_module, ModuleSystem};
use crate::value::{
    clone_pairs, obj_get, obj_set, spec_obj_get, spec_obj_set, spec_pairs_view, SpecValue,
    ZanoValue,
};

verus! {

broadcast use vstd::seq::group_seq_axioms, vstd::std_specs::vec::group_vec_axioms;

/// A callable of the registry: a user-defined function with its parameters
/// and body, a host-registered native reached through the host bridge, or
/// the module loader.
#[derive(Debug)]
pub enum FunctionDef {
    UserDefined { params: Vec<String>, body: Vec<Statement> },
    Native,
    Require,
}

/// The mathematical form of a callable.
pub enum SpecFunctionDef {
    UserDefined { params: Seq<Seq<char>>, body: Seq<SpecStmt> },
    Native,
    Require,
}

impl View for FunctionDef {
    type V = SpecFunctionDef;

    open spec fn view(&self) -> SpecFunctionDef {
        match self {
            FunctionDef::UserDefined { params, body } => SpecFunctionDef::UserDefined {
                params: spec_names_view(params@),
                body: spec_stmts_of_vec(*body),
            },
            FunctionDef::Native => SpecFunctionDef::Native,
            FunctionDef::Require => SpecFunctionDef::Require,
        }
    }
}

/// The views of a sequence of registry entries.
pub open spec fn spec_fns_view(s: Seq<(String, FunctionDef)>) -> Seq<(Seq<char>, SpecFunctionDef)> {
    Seq::new(s.len(), |i: int| (s[i].0@, s[i].1@))
}

/// The callable registered under a name: the first entry whose key matches,
/// if any.
pub open spec fn spec_fn_get(s: Seq<(Seq<char>, SpecFunctionDef)>, k: Seq<char>) -> Option<
    SpecFunctionDef,
>
    decreases s,
{
    if s.len() == 0 {
        None
    } else if s[0].0 == k {
        Some(s[0].1)
    } else {
        spec_fn_get(s.drop_first(), k)
    }
}

/// The registry with the callable of `k` set to `f`: the existing entry is
/// replaced in place, or a new entry is appended at the end, as the
/// host's idempotent-overwrite `register` does.
pub open spec fn spec_fn_set(
    s: Seq<(Seq<char>, SpecFunctionDef)>,
    k: Seq<char>,
    f: SpecFunctionDef,
) -> Seq<(Seq<char>, SpecFunctionDef)>
    decreases s,
{
    if s.len() == 0 {
        seq![(k, f)]
    } else if s[0].0 == k {
        seq![(k, f)] + s.drop_first()
    } else {
        seq![s[0]] + spec_fn_set(s.drop_first(), k, f)
    }
}

/// Replacing the first entry whose key is `k` realises `spec_fn_set`.
proof fn lemma_fn_set_found(
    s: Seq<(Seq<char>, SpecFunctionDef)>,
    k: Seq<char>,
    f: SpecFunctionDef,
    i: int,
    out: Seq<(Seq<char>, SpecFunctionDef)>,
)
    requires
        0 <= i < s.len(),
        s[i].0 == k,
        forall|j: int| 0 <= j < i ==> #[trigger] s[j].0 != k,
        out.len() == s.len(),
        out[i] == (k, f),
        forall|j: int| 0 <= j < s.len() && j != i ==> #[trigger] out[j] == s[j],
    ensures
        out == spec_fn_set(s, k, f),
    decreases i,
{
    if i == 0 {
        assert(out =~= seq![(k, f)] + s.drop_first());
    } else {
        lemma_fn_set_found(s.drop_first(), k, f, i - 1, out.drop_first());
        assert(out =~= seq![s[0]] + out.drop_first());
    }
}

/// Appending a fresh entry realises `spec_fn_set` where the key is absent.
proof fn lemma_fn_set_missing(
    s: Seq<(Seq<char>, SpecFunctionDef)>,
    k: Seq<char>,
    f: SpecFunctionDef,
    out: Seq<(Seq<char>, SpecFunctionDef)>,
)
    requires
        forall|j: int| 0 <= j < s.len() ==> #[trigger] s[j].0 != k,
        out == s.push((k, f)),
    ensures
        out == spec_fn_set(s, k, f),
    decreases s.len(),
{
    if s.len() == 0 {
        assert(out =~= seq![(k, f)]);
    } else {
        lemma_fn_set_missing(s.drop_first(), k, f, s.drop_first().push((k, f)));
        assert(out.drop_first() =~= s.drop_first().push((k, f)));
        assert(out =~= seq![s[0]] + out.drop_first());
    }
}

/// The callable registry after initialization: the console, filesystem,
/// HTTP and path natives under their registry names, and the module loader.
pub open spec fn spec_initial_functions() -> Seq<(Seq<char>, SpecFunctionDef)> {
    seq![
        ("console_log"@, SpecFunctionDef::Native),
        ("console_error"@, SpecFunctionDef::Native),
        ("console_warn"@, SpecFunctionDef::Native),
        ("fs_readFile"@, SpecFunctionDef::Native),
        ("fs_writeFile"@, SpecFunctionDef::Native),
        ("fs_exists"@, SpecFunctionDef::Native),
        ("http_createServer"@, SpecFunctionDef::Native),
        ("http_request"@, SpecFunctionDef::Native),
        ("path_join"@, SpecFunctionDef::Native),
        ("path_dirname"@, SpecFunctionDef::Native),
        ("path_basename"@, SpecFunctionDef::Native),
        ("require"@, SpecFunctionDef::Require),
    ]
}

/// The value environment after initialization: the global `console` object
/// and the `require` function value.
pub open spec fn spec_initial_globals() -> Seq<(Seq<char>, SpecValue)> {
    seq![("console"@, spec_console_module()), ("require"@, SpecValue::Function("require"@))]
}

/// An exact copy of a callable definition.
fn clone_def(def: &FunctionDef) -> (r: FunctionDef)
    ensures
        r@ == def@,
{
    match def {
        FunctionDef::UserDefined { params, body } => {
            let params2 = clone_names(params);
            let body2 = clone_stmts(body);
            proof {
                assert(spec_stmts_of_vec(body2) == spec_stmts_of_vec(*body));
                assert(spec_names_view(params2@) == spec_names_view(params@));
            }
            FunctionDef::UserDefined { params: params2, body: body2 }
        },
        FunctionDef::Native => FunctionDef::Native,
        FunctionDef::Require => FunctionDef::Require,
    }
}

/// Sets the callable of `key` in a registry list, replacing in place or
/// appending.
fn fn_set(fns: &mut Vec<(String, FunctionDef)>, key: String, def: FunctionDef)
    ensures
        spec_fns_view(final(fns)@) == spec_fn_set(spec_fns_view(old(fns)@), key@, def@),
{
    let ghost orig = spec_fns_view(fns@);
    let ghost kv = key@;
    let ghost dv = def@;
    let mut i: usize = 0;
    while i < fns.len()
        invariant
            i <= fns.len(),
            spec_fns_view(fns@) == orig,
            kv == key@,
            dv == def@,
            forall|j: int| 0 <= j < i as int ==> #[trigger] orig[j].0 != kv,
        decreases fns.len() - i,
    {
        proof {
            assert(orig[i as int] == (fns@[i as int].0@, fns@[i as int].1@));
        }
        if fns[i].0 == key {
            let ghost pre = fns@;
            fns[i] = (key, def);
            proof {
                let out = spec_fns_view(fns@);
                assert forall|j: int| 0 <= j < out.len() && j != i as int implies #[trigger] out[j]
                    == orig[j] by {
                    assert(fns@[j] == pre[j]);
                }
                assert(out[i as int] == (kv, dv));
                lemma_fn_set_found(orig, kv, dv, i as int, out);
            }
            return ;
        }
        i = i + 1;
    }
    fns.push((key, def));
    proof {
        assert(spec_fns_view(fns@) =~= orig.push((kv, dv)));
        lemma_fn_set_missing(orig, kv, dv, spec_fns_view(fns@));
    }
}

/// The interpreter's shared state.
pub struct ZanoRuntime {
    globals: Vec<(String, ZanoValue)>,
    functions: Vec<(String, FunctionDef)>,
    modules: ModuleSystem,
}

impl ZanoRuntime {
    /// The view of the value environment.
    pub closed spec fn globals_view(self) -> Seq<(Seq<char>, SpecValue)> {
        spec_pairs_view(self.globals@)
    }

    /// The view of the callable registry.
    pub closed spec fn functions_view(self) -> Seq<(Seq<char>, SpecFunctionDef)> {
        spec_fns_view(self.functions@)
    }

    /// The view of the module registry.
    pub closed spec fn modules_view(self) -> Seq<(Seq<char>, SpecValue)> {
        self.modules.mods()
    }

    /// A fresh interpreter instance with its built-ins registered.
    pub fn new() -> (r: ZanoRuntime)
        ensures
            r.globals_view() == spec_initial_globals(),
            r.functions_view() == spec_initial_functions(),
            r.modules_view() == spec_builtin_modules(),
    {
        let mut functions: Vec<(String, FunctionDef)> = Vec::new();
        functions.push(("console_log".to_owned(), FunctionDef::Native));
        functions.push(("console_error".to_owned(), FunctionDef::Native));
        functions.push(("console_warn".to_owned(), FunctionDef::Native));
        functions.push(("fs_readFile".to_owned(), FunctionDef::Native));
        functions.push(("fs_writeFile".to_owned(), FunctionDef::Native));
        functions.push(("fs_exists".to_owned(), FunctionDef::Native));
        functions.push(("http_createServer".to_owned(), FunctionDef::Native));
        functions.push(("http_request".to_owned(), FunctionDef::Native));
        functions.push(("path_join".to_owned(), FunctionDef::Native));
        functions.push(("path_dirname".to_owned(), FunctionDef::Native));
        functions.push(("path_basename".to_owned(), FunctionDef::Native));
        functions.push(("require".to_owned(), FunctionDef::Require));
        let mut modules = ModuleSystem::new();
        modules.init();
        let mut globals: Vec<(String, ZanoValue)> = Vec::new();
        let console = modules.create_console_module();
        globals.push(("console".to_owned(), console));
        globals.push(("require".to_owned(), ZanoValue::Function("require".to_owned())));
        let r = ZanoRuntime { globals, functions, modules };
        proof {
            assert(r.globals_view() =~= spec_initial_globals());
            assert(r.functions_view() =~= spec_initial_functions());
        }
        r
    }

    /// Reads an identifier from the flat environment: its bound value, or
    /// the failure that names the undefined variable. There is no scope
    /// chain and no shadowing.
    pub fn lookup_variable(&self, name: &String) -> (r: Result<ZanoValue, ZanoError>)
        ensures
            match r {
                Ok(v) => spec_obj_get(self.globals_view(), name@) == Some(v@),
                Err(e) => {
                    &&& spec_obj_get(self.globals_view(), name@) is None
                    &&& e@ == (SpecError::Runtime {
                        message: "Undefined variable: "@ + name@,
                    })
                },
            },
    {
        match obj_get(&self.globals, name) {
            Some(v) => Ok(v.clone_value()),
            None => {
                let mut message = "Undefined variable: ".to_owned();
                message.append(name.as_str());
                Err(ZanoError::RuntimeError { message })
            },
        }
    }

    /// Unconditionally (re)binds a name in the flat environment, as a
    /// variable declaration or an assignment does.
    pub fn bind_variable(&mut self, name: String, value: ZanoValue)
        ensures
            final(self).globals_view() == spec_obj_set(old(self).globals_view(), name@, value@),
            final(self).functions_view() == old(self).functions_view(),
            final(self).modules_view() == old(self).modules_view(),
    {
        obj_set(&mut self.globals, name, value);
    }

    /// The callable registered under a name, if any.
    pub fn lookup_function(&self, name: &String) -> (r: Option<&FunctionDef>)
        ensures
            match r {
                Some(f) => spec_fn_get(self.functions_view(), name@) == Some(f@),
                None => spec_fn_get(self.functions_view(), name@) is None,
            },
    {
        let mut i: usize = 0;
        proof {
            assert(spec_fns_view(self.functions@).skip(0) =~= spec_fns_view(self.functions@));
        }
        while i < self.functions.len()
            invariant
                i <= self.functions@.len(),
                spec_fn_get(self.functions_view(), name@) == spec_fn_get(
                    spec_fns_view(self.functions@).skip(i as int),
                    name@,
                ),
            decreases self.functions@.len() - i,
        {
            proof {
                assert(spec_fns_view(self.functions@).skip(i as int)[0] == spec_fns_view(
                    self.functions@,
                )[i as int]);
                assert(spec_fns_view(self.functions@).skip(i as int).drop_first()
                    =~= spec_fns_view(self.functions@).skip(i as int + 1));
            }
            if self.functions[i].0 == *name {
                return Some(&self.functions[i].1);
            }
            i = i + 1;
        }
        None
    }

    /// Resolves a call's registry name to its callable: the failure names
    /// the undefined function. Arguments are always evaluated before this
    /// lookup runs, so their side effects happen even when it fails.
    pub fn resolve_callable(&self, name: &String) -> (r: Result<&FunctionDef, ZanoError>)
        ensures
            match r {
                Ok(f) => spec_fn_get(self.functions_view(), name@) == Some(f@),
                Err(e) => {
                    &&& spec_fn_get(self.functions_view(), name@) is None
                    &&& e@ == (SpecError::Runtime {
                        message: "Undefined function: "@ + name@,
                    })
                },
            },
    {
        match self.lookup_function(name) {
            Some(f) => Ok(f),
            None => {
                let mut message = "Undefined function: ".to_owned();
                message.append(name.as_str());
                Err(ZanoError::RuntimeError { message })
            },
        }
    }

    /// An exact copy of the runtime's state: what the host saves before an
    /// evaluation run and restores when it must replay one.
    pub fn snapshot(&self) -> (r: ZanoRuntime)
        ensures
            r.globals_view() == self.globals_view(),
            r.functions_view() == self.functions_view(),
            r.modules_view() == self.modules_view(),
    {
        let globals = clone_pairs(&self.globals);
        let mut functions: Vec<(String, FunctionDef)> = Vec::new();
        let mut i: usize = 0;
        while i < self.functions.len()
            invariant
                i <= self.functions@.len(),
                functions@.len() == i as int,
                forall|j: int|
                    0 <= j < i as int ==> #[trigger] functions@[j].0@ == self.functions@[j].0@
                        && functions@[j].1@ == self.functions@[j].1@,
            decreases self.functions@.len() - i,
        {
            let name = self.functions[i].0.clone();
            let def = clone_def(&self.functions[i].1);
            functions.push((name, def));
            i = i + 1;
        }
        proof {
            assert(spec_fns_view(functions@) =~= spec_fns_view(self.functions@));
        }
        ZanoRuntime { globals, functions, modules: self.modules.snapshot() }
    }

    /// Registers a callable under a name, as a function declaration or the
    /// host's `register` does: an existing entry is overwritten in place, a
    /// fresh name is appended.
    pub fn register_function(&mut self, name: String, def: FunctionDef)
        ensures
            final(self).functions_view() == spec_fn_set(
                old(self).functions_view(),
                name@,
                def@,
            ),
            final(self).globals_view() == old(self).globals_view(),
            final(self).modules_view() == old(self).modules_view(),
    {
        fn_set(&mut self.functions, name, def);
    }

    /// The callable registered under a name, copied out of the registry so
    /// the runtime stays free for the call itself; the failure names the
    /// undefined function.
    pub fn fetch_callable(&self, name: &String) -> (r: Result<FunctionDef, ZanoError>)
        ensures
            match r {
                Ok(f) => spec_fn_get(self.functions_view(), name@) == Some(f@),
                Err(e) => {
                    &&& spec_fn_get(self.functions_view(), name@) is None
                    &&& e@ == (SpecError::Runtime {
                        message: "Undefined function: "@ + name@,
                    })
                },
            },
    {
        match self.lookup_function(name) {
            Some(def) => Ok(clone_def(def)),
            None => {
                let mut message = "Undefined function: ".to_owned();
                message.append(name.as_str());
                Err(ZanoError::RuntimeError { message })
            },
        }
    }

    /// The module registered under a name, if any.
    pub fn get_module(&self, name: &String) -> (r: Option<ZanoValue>)
        ensures
            match r {
                Some(v) => spec_obj_get(self.modules_view(), name@) == Some(v@),
                None => spec_obj_get(self.modules_view(), name@) is None,
            },
    {
        self.modules.get_module(name)
    }

    /// What `require` yields against this runtime's module registry.
    pub fn require(&self, args: &Vec<ZanoValue>) -> (r: Result<ZanoValue, ZanoError>)
        ensures
            match r {
                Ok(v) => {
                    &&& args@.len() > 0
                    &&& args@[0]@ matches SpecValue::String(n) && spec_obj_get(
                        self.modules_view(),
                        n,
                    ) == Some(v@)
                },
                Err(e) => match e@ {
                    SpecError::Runtime { message } => {
                        if args@.len() > 0 && args@[0]@ is String {
                            &&& spec_obj_get(self.modules_view(), args@[0]@->String_0) is None
                            &&& message == "Module not found: "@ + args@[0]@->String_0
                        } else {
                            message == "require requires a module name string"@
                        }
                    },
                    _ => false,
                },
            },
    {
        self.modules.require(args)
    }
}

} // verus!
