//! The names generated for a server-state type: its route registry and the
//! module that holds it.

use vstd::prelude::*;
use crate::case::{pascal_of, snake_of, to_pascal, to_snake};
use crate::text::{concat_str, copy_str};

verus! {

/// A type marked as a server state, in a package.
#[derive(Debug, Clone, PartialEq, Eq)]
pub struct ServerStateImpl {
    pub ident: String,
    pub current_package: String,
}

/// The items generated for a server state.
#[derive(Debug, Clone, PartialEq, Eq)]
pub struct ServerStateNames {
    /// The module holding the registry: `__{package_snake}_{ident_snake}`.
    pub module: String,
    /// The registry type of the state: `{Ident}Router`.
    pub state_router: String,
    /// The package-wide alias of that registry: `{Package}Router`.
    pub package_router: String,
    /// The router-constructor type: `{Ident}RouterFn`.
    pub router_fn_type: String,
}

pub open spec fn router_word() -> Seq<char> {
    seq!['R', 'o', 'u', 't', 'e', 'r']
}

pub open spec fn fn_word() -> Seq<char> {
    seq!['F', 'n']
}

/// `{name}Router` for an already Pascal-cased name.
pub open spec fn router_name_of(pascal: Seq<char>) -> Seq<char> {
    pascal + router_word()
}

/// `__{package}_{ident}` for already snake-cased names.
pub open spec fn module_name_of(snake_package: Seq<char>, snake_ident: Seq<char>) -> Seq<char> {
    seq!['_', '_'] + snake_package + seq!['_'] + snake_ident
}

/// `{name}Router` for an already Pascal-cased name.
pub fn router_name_for(pascal: &str) -> (r: String)
    ensures
        r@ == router_name_of(pascal@),
{
    proof {
        reveal_strlit("Router");
        assert("Router"@ =~= router_word());
    }
    concat_str(pascal, "Router")
}

/// The registry name for `name`: its Pascal case, then `Router`.
pub fn make_router(name: &str) -> (r: String)
    ensures
        r@ == router_name_of(pascal_of(name@)),
{
    let p = to_pascal(name);
    router_name_for(p.as_str())
}

/// `__{package}_{ident}` for already snake-cased names.
pub fn module_name_for(snake_package: &str, snake_ident: &str) -> (r: String)
    ensures
        r@ == module_name_of(snake_package@, snake_ident@),
{
    proof {
        reveal_strlit("__");
        reveal_strlit("_");
        assert("__"@ =~= seq!['_', '_']);
        assert("_"@ =~= seq!['_']);
    }
    let a = concat_str("__", snake_package);
    let b = concat_str(a.as_str(), "_");
    let r = concat_str(b.as_str(), snake_ident);
    assert(r@ =~= module_name_of(snake_package@, snake_ident@));
    r
}

impl ServerStateImpl {
    /// The server state `ident` declared in `current_package`.
    pub fn try_new(ident: &str, current_package: &str) -> (r: ServerStateImpl)
        ensures
            r.ident@ == ident@,
            r.current_package@ == current_package@,
    {
        ServerStateImpl { ident: copy_str(ident), current_package: copy_str(current_package) }
    }

    /// The names of the registry items generated for this state.
    pub fn names(&self) -> (r: ServerStateNames)
        ensures
            r.module@ == module_name_of(snake_of(self.current_package@), snake_of(self.ident@)),
            r.state_router@ == router_name_of(pascal_of(self.ident@)),
            r.package_router@ == router_name_of(pascal_of(self.current_package@)),
            r.router_fn_type@ == router_name_of(pascal_of(self.ident@)) + fn_word(),
    {
        let sp = to_snake(self.current_package.as_str());
        let si = to_snake(self.ident.as_str());
        let module = module_name_for(sp.as_str(), si.as_str());
        let state_router = make_router(self.ident.as_str());
        let package_router = make_router(self.current_package.as_str());
        proof {
            reveal_strlit("Fn");
            assert("Fn"@ =~= fn_word());
        }
        let router_fn_type = concat_str(state_router.as_str(), "Fn");
        ServerStateNames { module, state_router, package_router, router_fn_type }
    }
}

/// A type that can be the state of a router.
pub trait State {
}

} // verus!
