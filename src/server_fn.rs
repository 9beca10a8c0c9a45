//! The route descriptor built for one handler: route constant, URL
//! formatter, router constructor, stateful handler and inner handler.

use vstd::prelude::*;
use crate::case::{kebab_of, upper_snake_of, pascal_of, to_kebab, to_upper_snake, to_pascal};
use crate::classify::{
    FnParam, TypedParam, StateParam, HandlerArg, WherePredicate, ClassifyError, typed_params, classify,
    where_predicates, classified, typed_view, where_predicates_of, param_is, TypedParamView,
};
use crate::http::HttpMethod;
use crate::parse::{ServerFnArgs, Middleware, MiddlewareView, RoutingStrategy, opt_view};
use crate::text::{concat_str, copy_str, split_on, join_with, split_str, join_str};
use crate::url::{url_params, positional_names, path_segments};

verus! {

/// A handler declaration as the syntax front end saw it.
#[derive(Debug, Clone, PartialEq, Eq)]
pub struct HandlerDecl {
    /// The handler's identifier.
    pub name: String,
    /// Its parameters, in order.
    pub params: Vec<FnParam>,
    /// How many statements of its body load an asset.
    pub asset_loads: usize,
}

/// The path and verb a handler is routed at.
#[derive(Debug, Clone, PartialEq, Eq)]
pub struct RouteMeta {
    pub http_path: String,
    pub http_method: HttpMethod,
}

/// Where the embed base was found on disk at build time.
#[derive(Debug, Clone, PartialEq, Eq)]
pub struct BaseProbe {
    /// The canonical path of the base.
    pub canonical: String,
    /// Whether it is a single file rather than a directory.
    pub is_file: bool,
}

/// The path an asset load asks for.
#[derive(Debug, Clone, PartialEq, Eq)]
pub enum AssetPath {
    /// The load's own path expression, evaluated per request.
    Runtime,
    /// A fixed file name (the base is a single file).
    Literal(String),
}

/// How each asset load in the handler body is rewritten.
#[derive(Debug, Clone, PartialEq, Eq)]
pub struct AssetLoadPlan {
    pub path: AssetPath,
    /// The directory a development build reads from.
    pub dev_base: String,
    /// The base a production build embeds.
    pub embed_base: String,
}

/// Middleware layers split by where they apply, each in declaration order.
#[derive(Debug, Clone, PartialEq, Eq)]
pub struct LayerPlan {
    /// Wrap the whole sub-router.
    pub router_layers: Vec<String>,
    /// Wrap only the route.
    pub route_layers: Vec<String>,
}

/// The generated router constructor.
#[derive(Debug, Clone, PartialEq, Eq)]
pub struct RouterFn {
    pub ident: String,
    pub path: String,
    pub method: HttpMethod,
    /// The stateful handler the route dispatches to.
    pub handler_ident: String,
    /// One generic placeholder `State{index}` and one argument `state{index}` each.
    pub state_params: Vec<StateParam>,
    pub where_predicates: Vec<WherePredicate>,
    pub layers: LayerPlan,
    /// The state type whose registry the constructor is submitted to.
    pub server_state: String,
}

/// The generated stateful handler.
#[derive(Debug, Clone, PartialEq, Eq)]
pub struct StatefulHandler {
    pub ident: String,
    pub state_params: Vec<StateParam>,
    pub where_predicates: Vec<WherePredicate>,
    pub args: Vec<HandlerArg>,
    /// The handler it forwards to, and the positions passed, in order.
    pub inner_ident: String,
    pub forward_args: Vec<usize>,
}

/// The handler itself, with state markers stripped.
#[derive(Debug, Clone, PartialEq, Eq)]
pub struct InnerHandler {
    pub ident: String,
    pub params: Vec<TypedParam>,
    /// The rewrite of its asset loads, when the embed base was found.
    pub asset_load: Option<AssetLoadPlan>,
}

/// The generated URL formatter.
#[derive(Debug, Clone, PartialEq, Eq)]
pub struct UrlFormatter {
    pub ident: String,
    pub path: String,
    /// One parameter per positional segment, left to right.
    pub params: Vec<String>,
}

/// Everything generated for one handler.
#[derive(Debug, Clone, PartialEq, Eq)]
pub struct ServerFn {
    /// The route constant's name; its value is the route path.
    pub route_const: String,
    pub format_url_fn: UrlFormatter,
    pub router_mod: String,
    pub router_fn: RouterFn,
    pub stateful_handler: StatefulHandler,
    pub inner_handler: InnerHandler,
}

/// Why code generation for a handler failed.
#[derive(Debug, Clone, PartialEq, Eq)]
pub enum ServerFnError {
    /// The parameter at this position is a `self` receiver.
    ReceiverNotSupported(usize),
    /// The body loads an asset but no `embed` base was given.
    MissingEmbed,
}

// ---- names ----

pub open spec fn api_prefix() -> Seq<char> {
    seq!['/', 'a', 'p', 'i', '/']
}

/// The path a handler is routed at when none is given.
pub open spec fn default_path_of(fn_name: Seq<char>) -> Seq<char> {
    api_prefix() + kebab_of(fn_name)
}

pub open spec fn router_suffix() -> Seq<char> {
    seq!['_', 'r', 'o', 'u', 't', 'e', 'r']
}

pub open spec fn url_suffix() -> Seq<char> {
    seq!['_', 'u', 'r', 'l']
}

pub open spec fn server_state_suffix() -> Seq<char> {
    seq!['S', 'e', 'r', 'v', 'e', 'r', 'S', 't', 'a', 't', 'e']
}

/// `{fn}_router`
pub open spec fn router_fn_name(fn_name: Seq<char>) -> Seq<char> {
    fn_name + router_suffix()
}

/// `__{fn}_router`
pub open spec fn router_mod_name(fn_name: Seq<char>) -> Seq<char> {
    seq!['_', '_'] + router_fn_name(fn_name)
}

/// `{method}_{fn}`
pub open spec fn stateful_name(m: HttpMethod, fn_name: Seq<char>) -> Seq<char> {
    m.name() + seq!['_'] + fn_name
}

/// `{method}_{fn}_url`
pub open spec fn url_fn_name(m: HttpMethod, fn_name: Seq<char>) -> Seq<char> {
    stateful_name(m, fn_name) + url_suffix()
}

/// The alias under which a package names its server state: `{Package}ServerState`.
pub open spec fn server_state_name_of(pascal_package: Seq<char>) -> Seq<char> {
    pascal_package + server_state_suffix()
}

/// The path `/api/{kebab}` for an already kebab-cased handler name.
pub fn default_path_for(kebab: &str) -> (r: String)
    ensures
        r@ == api_prefix() + kebab@,
{
    proof {
        reveal_strlit("/api/");
        assert("/api/"@ =~= api_prefix());
    }
    concat_str("/api/", kebab)
}

/// The path a handler is routed at when none is given: `/api/` and the
/// handler's name in kebab case.
pub fn default_path(fn_name: &str) -> (r: String)
    ensures
        r@ == default_path_of(fn_name@),
{
    let kebab = to_kebab(fn_name);
    default_path_for(kebab.as_str())
}

/// The server-state alias for an already Pascal-cased package name.
pub fn server_state_name_for(pascal_package: &str) -> (r: String)
    ensures
        r@ == server_state_name_of(pascal_package@),
{
    proof {
        reveal_strlit("ServerState");
        assert("ServerState"@ =~= server_state_suffix());
    }
    concat_str(pascal_package, "ServerState")
}

/// The server-state alias of a package: its name in Pascal case, then `ServerState`.
pub fn make_server_state(package: &str) -> (r: String)
    ensures
        r@ == server_state_name_of(pascal_of(package@)),
{
    let p = to_pascal(package);
    server_state_name_for(p.as_str())
}

impl RouteMeta {
    /// The route of a handler: the given path, else `/api/{kebab-name}`; the
    /// given verb, else `post`.
    pub fn resolve(args: &ServerFnArgs, fn_name: &str) -> (r: RouteMeta)
        ensures
            r.http_path@ == match args.path {
                Some(p) => p@,
                None => default_path_of(fn_name@),
            },
            r.http_method == match args.method {
                Some(m) => m,
                None => HttpMethod::Post,
            },
    {
        let http_path = match &args.path {
            Some(p) => copy_str(p.as_str()),
            None => default_path(fn_name),
        };
        let http_method = match args.method {
            Some(m) => m,
            None => HttpMethod::Post,
        };
        RouteMeta { http_path, http_method }
    }
}

// ---- middleware layering ----

/// The layers of the middlewares with strategy `st`, in declaration order.
pub open spec fn layers_with(ms: Seq<MiddlewareView>, st: RoutingStrategy) -> Seq<Seq<char>>
    decreases ms.len(),
{
    if ms.len() == 0 {
        Seq::empty()
    } else if ms.last().strategy == st {
        layers_with(ms.drop_last(), st).push(ms.last().layer)
    } else {
        layers_with(ms.drop_last(), st)
    }
}

impl LayerPlan {
    /// Before-routing middlewares wrap the sub-router and after-routing ones
    /// wrap the route; each group keeps declaration order.
    pub fn new(ms: &Vec<Middleware>) -> (r: LayerPlan)
        ensures
            r.router_layers.deep_view() == layers_with(
                ms@.map_values(|m: Middleware| m@),
                RoutingStrategy::BeforeRouting,
            ),
            r.route_layers.deep_view() == layers_with(
                ms@.map_values(|m: Middleware| m@),
                RoutingStrategy::AfterRouting,
            ),
    {
        let ghost mv = ms@.map_values(|m: Middleware| m@);
        let mut router_layers: Vec<String> = Vec::new();
        let mut route_layers: Vec<String> = Vec::new();
        let mut i: usize = 0;
        while i < ms.len()
            invariant
                i <= ms.len(),
                mv == ms@.map_values(|m: Middleware| m@),
                router_layers.deep_view() == layers_with(mv.subrange(0, i as int), RoutingStrategy::BeforeRouting),
                route_layers.deep_view() == layers_with(mv.subrange(0, i as int), RoutingStrategy::AfterRouting),
            decreases ms.len() - i,
        {
            proof {
                let q = mv.subrange(0, i as int + 1);
                assert(q.drop_last() =~= mv.subrange(0, i as int));
            }
            let m = &ms[i];
            match m.strategy {
                RoutingStrategy::BeforeRouting => {
                    let ghost prev = router_layers.deep_view();
                    router_layers.push(copy_str(m.layer.as_str()));
                    assert(router_layers.deep_view() =~= prev.push(m.layer@));
                },
                RoutingStrategy::AfterRouting => {
                    let ghost prev = route_layers.deep_view();
                    route_layers.push(copy_str(m.layer.as_str()));
                    assert(route_layers.deep_view() =~= prev.push(m.layer@));
                },
            }
            i = i + 1;
        }
        assert(mv.subrange(0, ms.len() as int) =~= mv);
        LayerPlan { router_layers, route_layers }
    }
}

// ---- asset loads ----

/// The last `/`-separated segment of a path: its file name.
pub open spec fn file_name_of(p: Seq<char>) -> Seq<char> {
    split_on(p, '/').last()
}

/// The path without its last segment; `/` when nothing is left.
pub open spec fn parent_of(p: Seq<char>) -> Seq<char> {
    let j = join_with(split_on(p, '/').drop_last(), seq!['/']);
    if j.len() == 0 {
        seq!['/']
    } else {
        j
    }
}

pub struct AssetLoadPlanView {
    pub literal: Option<Seq<char>>,
    pub dev_base: Seq<char>,
    pub embed_base: Seq<char>,
}

impl View for AssetLoadPlan {
    type V = AssetLoadPlanView;

    open spec fn view(&self) -> AssetLoadPlanView {
        AssetLoadPlanView {
            literal: match self.path {
                AssetPath::Runtime => None,
                AssetPath::Literal(f) => Some(f@),
            },
            dev_base: self.dev_base@,
            embed_base: self.embed_base@,
        }
    }
}

/// The rewrite for a base found at `canonical`: a single file is loaded by
/// its name from its directory; a directory is searched with the load's own
/// path.
pub open spec fn asset_plan_of(canonical: Seq<char>, is_file: bool) -> AssetLoadPlanView {
    if is_file {
        AssetLoadPlanView { literal: Some(file_name_of(canonical)), dev_base: parent_of(canonical), embed_base: canonical }
    } else {
        AssetLoadPlanView { literal: None, dev_base: canonical, embed_base: canonical }
    }
}

impl AssetLoadPlan {
    /// The rewrite of asset loads for the base found on disk.
    pub fn new(probe: &BaseProbe) -> (r: AssetLoadPlan)
        ensures
            r@ == asset_plan_of(probe.canonical@, probe.is_file),
    {
        let canonical = probe.canonical.as_str();
        if probe.is_file {
            let mut segs = split_str(canonical, '/');
            proof {
                crate::text::lemma_split_nonempty(canonical@, '/');
            }
            let name = segs.pop().unwrap();
            let ghost before = split_on(canonical@, '/');
            assert(segs.deep_view() =~= before.drop_last());
            proof {
                reveal_strlit("/");
                assert("/"@ =~= seq!['/']);
            }
            let joined = join_str(&segs, "/");
            let dev_base = if joined.unicode_len() == 0 {
                copy_str("/")
            } else {
                joined
            };
            AssetLoadPlan { path: AssetPath::Literal(name), dev_base, embed_base: copy_str(canonical) }
        } else {
            AssetLoadPlan { path: AssetPath::Runtime, dev_base: copy_str(canonical), embed_base: copy_str(canonical) }
        }
    }
}

// ---- the generated units ----

/// The handler's parameters with the state marker removed.
pub open spec fn stripped(ps: Seq<TypedParamView>) -> Seq<TypedParamView> {
    ps.map_values(|p: TypedParamView| TypedParamView { is_state: false, ..p })
}

pub open spec fn state_view(sps: Seq<StateParam>) -> Seq<crate::classify::StateParamView> {
    sps.map_values(|s: StateParam| s@)
}

/// What the stateful handler is, for handler `name` with parameters `ps`.
pub open spec fn stateful_built(h: StatefulHandler, ident: Seq<char>, ps: Seq<TypedParamView>, inner: Seq<char>) -> bool {
    &&& h.ident@ == ident
    &&& h.inner_ident@ == inner
    &&& classified(ps, crate::classify::ClassifiedArgs { state_params: h.state_params, handler_args: h.args, forward_args: h.forward_args })
    &&& h.where_predicates@.map_values(|w: WherePredicate| w@) == where_predicates_of(state_view(h.state_params@))
}

impl StatefulHandler {
    /// The handler that extracts each state-marked parameter from its
    /// placeholder state and every other from the request, then forwards all
    /// of them, in order, to `inner_ident`.
    pub fn try_new(ident: String, params: &Vec<TypedParam>, inner_ident: &str) -> (r: StatefulHandler)
        ensures
            stateful_built(r, ident@, typed_view(params@), inner_ident@),
    {
        let c = classify(params);
        let where_predicates = where_predicates(&c.state_params);
        StatefulHandler {
            ident,
            state_params: c.state_params,
            where_predicates,
            args: c.handler_args,
            inner_ident: copy_str(inner_ident),
            forward_args: c.forward_args,
        }
    }
}

/// What the router constructor is.
pub open spec fn router_built(
    r: RouterFn,
    ident: Seq<char>,
    ps: Seq<TypedParamView>,
    path: Seq<char>,
    method: HttpMethod,
    handler: Seq<char>,
    ms: Seq<MiddlewareView>,
    server_state: Seq<char>,
) -> bool {
    &&& r.ident@ == ident
    &&& r.path@ == path
    &&& r.method == method
    &&& r.handler_ident@ == handler
    &&& state_view(r.state_params@) == crate::classify::state_params_of(ps)
    &&& r.where_predicates@.map_values(|w: WherePredicate| w@) == where_predicates_of(state_view(r.state_params@))
    &&& r.layers.router_layers.deep_view() == layers_with(ms, RoutingStrategy::BeforeRouting)
    &&& r.layers.route_layers.deep_view() == layers_with(ms, RoutingStrategy::AfterRouting)
    &&& r.server_state@ == server_state
}

impl RouterFn {
    /// The constructor of a sub-router holding the one route `path` for
    /// `method`, generic over one placeholder per state-marked parameter and
    /// wrapped by the middleware layers.
    pub fn try_new(
        ident: String,
        params: &Vec<TypedParam>,
        path: &str,
        method: HttpMethod,
        handler_ident: &str,
        middlewares: &Vec<Middleware>,
        server_state: &str,
    ) -> (r: RouterFn)
        ensures
            router_built(
                r,
                ident@,
                typed_view(params@),
                path@,
                method,
                handler_ident@,
                middlewares@.map_values(|m: Middleware| m@),
                server_state@,
            ),
    {
        let c = classify(params);
        let where_predicates = where_predicates(&c.state_params);
        RouterFn {
            ident,
            path: copy_str(path),
            method,
            handler_ident: copy_str(handler_ident),
            state_params: c.state_params,
            where_predicates,
            layers: LayerPlan::new(middlewares),
            server_state: copy_str(server_state),
        }
    }
}

/// What the inner handler is.
pub open spec fn inner_built(
    h: InnerHandler,
    name: Seq<char>,
    ps: Seq<TypedParamView>,
    asset_loads: nat,
    probe: Option<BaseProbe>,
) -> bool {
    &&& h.ident@ == name
    &&& typed_view(h.params@) == stripped(ps)
    &&& match h.asset_load {
        Some(plan) => asset_loads > 0 && probe is Some && plan@ == asset_plan_of(
            probe.unwrap().canonical@,
            probe.unwrap().is_file,
        ),
        None => asset_loads == 0 || probe is None,
    }
}

impl InnerHandler {
    /// The handler with its state markers stripped and, when its body loads
    /// assets, the rewrite of those loads. Loading assets needs an `embed`
    /// base; when the base was not found on disk the loads stay as written.
    pub fn try_new(
        name: &str,
        params: &Vec<TypedParam>,
        asset_loads: usize,
        embed: &Option<String>,
        probe: &Option<BaseProbe>,
    ) -> (r: Result<InnerHandler, ServerFnError>)
        ensures
            r is Err <==> (asset_loads > 0 && embed is None),
            r is Err ==> r == Err::<InnerHandler, ServerFnError>(ServerFnError::MissingEmbed),
            r matches Ok(h) ==> inner_built(h, name@, typed_view(params@), asset_loads as nat, *probe),
    {
        if asset_loads > 0 && embed.is_none() {
            return Err(ServerFnError::MissingEmbed);
        }
        let mut stripped_params: Vec<TypedParam> = Vec::new();
        let mut i: usize = 0;
        while i < params.len()
            invariant
                i <= params.len(),
                typed_view(stripped_params@) == stripped(typed_view(params@)).subrange(0, i as int),
            decreases params.len() - i,
        {
            let ghost prev = typed_view(stripped_params@);
            let p = &params[i];
            stripped_params.push(TypedParam { pattern: copy_str(p.pattern.as_str()), ty: copy_str(p.ty.as_str()), is_state: false });
            assert(typed_view(stripped_params@) =~= prev.push(TypedParamView { is_state: false, ..p@ }));
            assert(typed_view(stripped_params@) =~= stripped(typed_view(params@)).subrange(0, i as int + 1));
            i = i + 1;
        }
        assert(stripped(typed_view(params@)).subrange(0, params.len() as int) =~= stripped(typed_view(params@)));
        let asset_load = if asset_loads > 0 {
            match probe {
                Some(b) => Some(AssetLoadPlan::new(b)),
                None => None,
            }
        } else {
            None
        };
        Ok(InnerHandler { ident: copy_str(name), params: stripped_params, asset_load })
    }
}

impl UrlFormatter {
    /// The URL the generated formatter returns for `args`.
    pub fn format(&self, args: &Vec<String>) -> (r: String)
        requires
            args@.len() == crate::url::positional_count(path_segments(self.path@)),
        ensures
            r@ == crate::url::format_url_spec(self.path@, args.deep_view()),
    {
        crate::url::format_url(self.path.as_str(), args)
    }
}

/// The path a handler is routed at.
pub open spec fn resolved_path(args: crate::parse::ServerFnArgsView, fn_name: Seq<char>) -> Seq<char> {
    match args.path {
        Some(p) => p,
        None => default_path_of(fn_name),
    }
}

/// The verb a handler is routed for.
pub open spec fn resolved_method(args: crate::parse::ServerFnArgsView) -> HttpMethod {
    match args.method {
        Some(m) => m,
        None => HttpMethod::Post,
    }
}

/// The first `self` receiver among the parameters, if any.
pub open spec fn first_receiver(ps: Seq<FnParam>, k: nat) -> bool {
    &&& k < ps.len()
    &&& ps[k as int] is Receiver
    &&& forall|i: int| 0 <= i < k ==> !(#[trigger] ps[i] is Receiver)
}

/// Everything generated for handler `d` with metadata `args`.
pub open spec fn server_fn_built(
    s: ServerFn,
    args: crate::parse::ServerFnArgsView,
    d: HandlerDecl,
    ps: Seq<TypedParamView>,
    server_state: Seq<char>,
    probe: Option<BaseProbe>,
) -> bool {
    let name = d.name@;
    let path = resolved_path(args, name);
    let method = resolved_method(args);
    &&& s.route_const@ == upper_snake_of(stateful_name(method, name))
    &&& s.format_url_fn.ident@ == url_fn_name(method, name)
    &&& s.format_url_fn.path@ == path
    &&& s.format_url_fn.params.deep_view() == positional_names(path_segments(path))
    &&& s.router_mod@ == router_mod_name(name)
    &&& router_built(s.router_fn, router_fn_name(name), ps, path, method, stateful_name(method, name), args.middlewares, server_state)
    &&& stateful_built(s.stateful_handler, stateful_name(method, name), ps, name)
    &&& inner_built(s.inner_handler, name, ps, d.asset_loads as nat, probe)
}

/// The outcome of building handler `decl` with metadata `args`: success
/// exactly when there is no `self` receiver and asset loads have a base.
pub open spec fn server_fn_outcome(
    r: Result<ServerFn, ServerFnError>,
    args: crate::parse::ServerFnArgsView,
    decl: HandlerDecl,
    server_state: Seq<char>,
    probe: Option<BaseProbe>,
) -> bool {
    match r {
        Ok(s) => (forall|i: int| 0 <= i < decl.params@.len() ==> !(#[trigger] decl.params@[i] is Receiver))
            && !(decl.asset_loads > 0 && args.embed is None)
            && exists|ps: Seq<TypedParamView>| {
                &&& ps.len() == decl.params@.len()
                &&& (forall|i: int| 0 <= i < ps.len() ==> param_is(#[trigger] decl.params@[i], ps[i]))
                &&& server_fn_built(s, args, decl, ps, server_state, probe)
            },
        Err(ServerFnError::ReceiverNotSupported(k)) => first_receiver(decl.params@, k as nat),
        Err(ServerFnError::MissingEmbed) => (forall|i: int| 0 <= i < decl.params@.len() ==> !(#[trigger] decl.params@[i] is Receiver))
            && decl.asset_loads > 0 && args.embed is None,
    }
}

impl ServerFn {
    /// Builds the route constant, URL formatter, router constructor, stateful
    /// handler and inner handler for one handler. Fails on a `self`
    /// receiver, and on asset loads without an `embed` base.
    pub fn try_new(args: &ServerFnArgs, decl: &HandlerDecl, server_state: &str, probe: &Option<BaseProbe>) -> (r: Result<ServerFn, ServerFnError>)
        ensures
            server_fn_outcome(r, args@, *decl, server_state@, *probe),
    {
        let name = decl.name.as_str();
        let typed = match typed_params(&decl.params) {
            Ok(t) => t,
            Err(ClassifyError::ReceiverNotSupported(k)) => {
                return Err(ServerFnError::ReceiverNotSupported(k));
            },
        };
        let meta = RouteMeta::resolve(args, name);
        let path = meta.http_path.as_str();
        let method = meta.http_method;

        proof {
            reveal_strlit("_router");
            reveal_strlit("__");
            reveal_strlit("_");
            reveal_strlit("_url");
            assert("_router"@ =~= router_suffix());
            assert("_url"@ =~= url_suffix());
        }
        let router_ident = concat_str(name, "_router");
        let router_mod = concat_str("__", router_ident.as_str());
        assert(router_mod@ =~= router_mod_name(name@));
        let method_prefix = concat_str(method.as_str(), "_");
        let stateful_ident = concat_str(method_prefix.as_str(), name);
        assert(stateful_ident@ =~= stateful_name(method, name@));
        let route_const = to_upper_snake(stateful_ident.as_str());
        let url_ident = concat_str(stateful_ident.as_str(), "_url");

        let format_url_fn = UrlFormatter { ident: url_ident, path: copy_str(path), params: url_params(path) };

        let inner_handler = match InnerHandler::try_new(name, &typed, decl.asset_loads, &args.embed, probe) {
            Ok(h) => h,
            Err(e) => {
                return Err(e);
            },
        };
        let router_fn = RouterFn::try_new(
            router_ident,
            &typed,
            path,
            method,
            stateful_ident.as_str(),
            &args.middlewares,
            server_state,
        );
        let stateful_handler = StatefulHandler::try_new(stateful_ident, &typed, name);
        let s = ServerFn { route_const, format_url_fn, router_mod, router_fn, stateful_handler, inner_handler };
        assert(server_fn_built(s, args@, *decl, typed_view(typed@), server_state@, *probe));
        proof {
            assert forall|i: int| 0 <= i < decl.params@.len() implies !(#[trigger] decl.params@[i] is Receiver) by {
                assert(param_is(decl.params@[i], typed@[i]@));
            }
            assert forall|i: int| 0 <= i < typed_view(typed@).len() implies param_is(#[trigger] decl.params@[i], typed_view(typed@)[i]) by {
                assert(param_is(decl.params@[i], typed@[i]@));
            }
        }
        Ok(s)
    }
}

/// A handler without state-marked parameters gets a router constructor with
/// no generic placeholders and no constraints.
pub proof fn lemma_stateless_router(
    s: ServerFn,
    args: crate::parse::ServerFnArgsView,
    d: HandlerDecl,
    ps: Seq<TypedParamView>,
    server_state: Seq<char>,
    probe: Option<BaseProbe>,
)
    requires
        server_fn_built(s, args, d, ps, server_state, probe),
        forall|i: int| 0 <= i < ps.len() ==> !(#[trigger] ps[i]).is_state,
    ensures
        s.router_fn.state_params@.len() == 0,
        s.router_fn.where_predicates@.len() == 0,
        s.stateful_handler.state_params@.len() == 0,
        s.stateful_handler.where_predicates@.len() == 0,
{
    lemma_state_counts(s, args, d, ps, server_state, probe);
    crate::classify::lemma_no_state_count(ps);
}

/// With k state-marked parameters, the router constructor and the stateful
/// handler each have k placeholders, and the forwarding call passes every
/// parameter of the handler in its original order.
pub proof fn lemma_state_counts(
    s: ServerFn,
    args: crate::parse::ServerFnArgsView,
    d: HandlerDecl,
    ps: Seq<TypedParamView>,
    server_state: Seq<char>,
    probe: Option<BaseProbe>,
)
    requires
        server_fn_built(s, args, d, ps, server_state, probe),
    ensures
        s.router_fn.state_params@.len() == crate::classify::state_count(ps),
        s.router_fn.where_predicates@.len() == 2 * crate::classify::state_count(ps),
        s.stateful_handler.state_params@.len() == crate::classify::state_count(ps),
        s.stateful_handler.where_predicates@.len() == 2 * crate::classify::state_count(ps),
        s.stateful_handler.forward_args@.len() == ps.len(),
        forall|i: int| 0 <= i < ps.len() ==> #[trigger] s.stateful_handler.forward_args@[i] == i,
{
    crate::classify::lemma_state_params_len(ps);
    let r = s.router_fn;
    let h = s.stateful_handler;
    assert(state_view(r.state_params@).len() == r.state_params@.len());
    assert(state_view(h.state_params@).len() == h.state_params@.len());
    crate::classify::lemma_where_len(state_view(r.state_params@));
    assert(r.where_predicates@.map_values(|w: WherePredicate| w@).len() == r.where_predicates@.len());
    crate::classify::lemma_where_len(state_view(h.state_params@));
    assert(h.where_predicates@.map_values(|w: WherePredicate| w@).len() == h.where_predicates@.len());
}

} // verus!
