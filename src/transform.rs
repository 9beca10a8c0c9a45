//! The macro entry points, over the front end's plain model of their input:
//! each validates its input and builds what is generated.

use vstd::prelude::*;
use crate::embed_asset::{AssetStructSource, DirNode, LoadAssetImpl, LoadAssetError, load_asset_outcome};
use crate::http::HttpMethod;
use crate::middleware::{AttrSource, MiddlewareImpl, MiddlewareError, middleware_outcome};
use crate::parse::{ExprSource, MetaItem, MetaError, ServerFnArgs, ServerFnArgsView, MetaErrorView, parse_args};
use crate::server_fn::{BaseProbe, HandlerDecl, ServerFn, ServerFnError, server_fn_outcome, make_server_state, server_state_name_of};
use crate::server_state::{ServerStateImpl, ServerStateNames, module_name_of, router_name_of, fn_word};
use crate::case::{pascal_of, snake_of};

verus! {

/// Why a server attribute could not be expanded.
#[derive(Debug, Clone, PartialEq, Eq)]
pub enum ExpandError {
    /// Its arguments were rejected.
    Meta(MetaError),
    /// The handler was rejected.
    ServerFn(ServerFnError),
}

/// The outcome of expanding a server attribute whose arguments read as `a`.
pub open spec fn expand_outcome(
    r: Result<ServerFn, ExpandError>,
    a: Result<ServerFnArgsView, MetaErrorView>,
    decl: HandlerDecl,
    server_state: Seq<char>,
    probe: Option<BaseProbe>,
) -> bool {
    match a {
        Err(e) => r matches Err(ExpandError::Meta(x)) && x@ == e,
        Ok(args) => match r {
            Ok(s) => server_fn_outcome(Ok(s), args, decl, server_state, probe),
            Err(ExpandError::ServerFn(e)) => server_fn_outcome(Err(e), args, decl, server_state, probe),
            Err(ExpandError::Meta(_)) => false,
        },
    }
}

fn build(args: &ServerFnArgs, decl: &HandlerDecl, server_state: &str, probe: &Option<BaseProbe>) -> (r: Result<ServerFn, ExpandError>)
    ensures
        expand_outcome(r, Ok(args@), *decl, server_state@, *probe),
{
    match ServerFn::try_new(args, decl, server_state, probe) {
        Ok(s) => Ok(s),
        Err(e) => Err(ExpandError::ServerFn(e)),
    }
}

/// The `server` attribute.
pub struct ServerFnAttrMacro;

impl ServerFnAttrMacro {
    /// Reads the attribute's arguments and builds the handler's routes.
    pub fn expand(&self, args: &Vec<MetaItem>, decl: &HandlerDecl, server_state: &str, probe: &Option<BaseProbe>) -> (r: Result<ServerFn, ExpandError>)
        ensures
            expand_outcome(r, parse_args(args@.map_values(|i: MetaItem| i@)), *decl, server_state@, *probe),
    {
        match ServerFnArgs::parse(args) {
            Ok(a) => build(&a, decl, server_state, probe),
            Err(e) => Err(ExpandError::Meta(e)),
        }
    }
}

/// A per-verb attribute (`get`, `post`, ...): a server attribute whose verb
/// is fixed, replacing any `method` argument.
pub struct ServerFnMethodAttr(pub HttpMethod);

/// The arguments with the verb set to `m`.
pub open spec fn with_method(a: Result<ServerFnArgsView, MetaErrorView>, m: HttpMethod) -> Result<ServerFnArgsView, MetaErrorView> {
    match a {
        Ok(args) => Ok(ServerFnArgsView { method: Some(m), ..args }),
        Err(e) => Err(e),
    }
}

impl ServerFnMethodAttr {
    /// Reads the attribute's arguments, sets the verb, and builds the
    /// handler's routes.
    pub fn expand(&self, args: &Vec<MetaItem>, decl: &HandlerDecl, server_state: &str, probe: &Option<BaseProbe>) -> (r: Result<ServerFn, ExpandError>)
        ensures
            expand_outcome(r, with_method(parse_args(args@.map_values(|i: MetaItem| i@)), self.0), *decl, server_state@, *probe),
    {
        match ServerFnArgs::parse(args) {
            Ok(a) => {
                let a = ServerFnArgs { method: Some(self.0), ..a };
                build(&a, decl, server_state, probe)
            },
            Err(e) => Err(ExpandError::Meta(e)),
        }
    }
}

/// The `middleware` attribute.
pub struct MiddlewareAttrMacro;

impl MiddlewareAttrMacro {
    /// Folds `middleware` into the handler's server attribute.
    pub fn expand(&self, attrs: &Vec<AttrSource>, middleware: &ExprSource) -> (r: Result<MiddlewareImpl, MiddlewareError>)
        ensures
            middleware_outcome(r, attrs@, middleware@),
    {
        MiddlewareImpl::try_new(attrs, middleware)
    }
}

/// The `ServerState` derive.
pub struct ServerStateDeriveMacro;

impl ServerStateDeriveMacro {
    /// The registry items for state `ident` of package `package`.
    pub fn expand(&self, ident: &str, package: &str) -> (r: ServerStateNames)
        ensures
            r.module@ == module_name_of(snake_of(package@), snake_of(ident@)),
            r.state_router@ == router_name_of(pascal_of(ident@)),
            r.package_router@ == router_name_of(pascal_of(package@)),
            r.router_fn_type@ == router_name_of(pascal_of(ident@)) + fn_word(),
    {
        ServerStateImpl::try_new(ident, package).names()
    }
}

/// The `use_server_state!` macro: names the package's server state.
pub struct UseServerStateFnMacro;

impl UseServerStateFnMacro {
    /// The alias the package's routes register under.
    pub fn expand(&self, package: &str) -> (r: String)
        ensures
            r@ == server_state_name_of(pascal_of(package@)),
    {
        make_server_state(package)
    }
}

/// The internal asset-load macro.
pub struct LoadAssetInternalMacro;

impl LoadAssetInternalMacro {
    /// Validates the asset-load form and builds how it is served.
    pub fn expand(&self, item: &AssetStructSource, snapshot: &Option<DirNode>) -> (r: Result<LoadAssetImpl, LoadAssetError>)
        ensures
            load_asset_outcome(r, *item, *snapshot),
    {
        LoadAssetImpl::try_new(item, snapshot)
    }
}

} // verus!
