use server_fns::classify::{classify, where_predicates, FnParam, HandlerArg, TypedParam, WherePredicate};
use server_fns::http::HttpMethod;
use server_fns::middleware::{AttrSource, MiddlewareError, MiddlewareImpl};
use server_fns::parse::{ExprSource, MetaError, MetaItem, MetaValue, Middleware, RoutingStrategy, ServerFnArgs};
use server_fns::server_fn::{
    default_path, make_server_state, AssetLoadPlan, AssetPath, BaseProbe, HandlerDecl, LayerPlan, RouteMeta, ServerFn,
    ServerFnError,
};
use server_fns::server_state::{make_router, ServerStateImpl};
use server_fns::transform::{ExpandError, ServerFnAttrMacro, ServerFnMethodAttr, UseServerStateFnMacro};
use server_fns::url::{format_url, url_params};

fn param(pattern: &str, ty: &str, is_state: bool) -> TypedParam {
    TypedParam { pattern: pattern.to_string(), ty: ty.to_string(), is_state }
}

fn lit(key: &str, value: &str) -> MetaItem {
    MetaItem { key: key.to_string(), value: MetaValue::Str(value.to_string()) }
}

fn mw(strategy: RoutingStrategy, layer: &str) -> Middleware {
    Middleware { strategy, layer: layer.to_string() }
}

#[test]
fn stateless_handler_has_no_placeholders() {
    let params = vec![param("body", "String", false), param("q", "Query<Q>", false)];
    let c = classify(&params);
    assert!(c.state_params.is_empty());
    assert!(where_predicates(&c.state_params).is_empty());
    assert_eq!(c.forward_args, vec![0, 1]);
    assert_eq!(
        c.handler_args,
        vec![
            HandlerArg::Request { index: 0, ty: "String".to_string() },
            HandlerArg::Request { index: 1, ty: "Query<Q>".to_string() },
        ]
    );
}

#[test]
fn state_params_get_one_placeholder_each() {
    let params = vec![
        param("app", "AppState", true),
        param("body", "String", false),
        param("inner", "InnerState", true),
    ];
    let c = classify(&params);
    assert_eq!(c.state_params.len(), 2);
    assert_eq!(c.state_params[0].index, 0);
    assert_eq!(c.state_params[1].index, 2);
    assert_eq!(c.forward_args, vec![0, 1, 2]);
    assert_eq!(c.handler_args[1], HandlerArg::Request { index: 1, ty: "String".to_string() });
    assert_eq!(c.handler_args[2], HandlerArg::State { index: 2, ty: "InnerState".to_string() });
    assert_eq!(
        where_predicates(&c.state_params),
        vec![
            WherePredicate::FromState { ty: "AppState".to_string(), index: 0 },
            WherePredicate::Shareable { index: 0 },
            WherePredicate::FromState { ty: "InnerState".to_string(), index: 2 },
            WherePredicate::Shareable { index: 2 },
        ]
    );
}

#[test]
fn literal_path_formats_to_itself() {
    assert_eq!(format_url("/api/users", &vec![]), "/api/users");
    assert_eq!(format_url("", &vec![]), "");
    assert_eq!(format_url("/", &vec![]), "/");
    assert!(url_params("/api/users").is_empty());
}

#[test]
fn positional_segment_is_substituted() {
    assert_eq!(format_url("/widgets/:id", &vec!["42".to_string()]), "/widgets/42");
    assert_eq!(url_params("/widgets/:id"), vec!["id".to_string()]);
    let args = vec!["7".to_string(), "x".to_string()];
    assert_eq!(format_url("/a/:first/b/:second/", &args), "/a/7/b/x/");
}

#[test]
fn default_path_is_kebab_case_under_api() {
    assert_eq!(default_path("get_user_profile"), "/api/get-user-profile");
    let meta = RouteMeta::resolve(&ServerFnArgs::empty(), "get_user_profile");
    assert_eq!(meta.http_path, "/api/get-user-profile");
    assert_eq!(meta.http_method, HttpMethod::Post);
}

#[test]
fn layers_split_by_strategy_in_declaration_order() {
    let ms = vec![
        mw(RoutingStrategy::BeforeRouting, "A"),
        mw(RoutingStrategy::AfterRouting, "B"),
        mw(RoutingStrategy::BeforeRouting, "C"),
    ];
    let plan = LayerPlan::new(&ms);
    assert_eq!(plan.router_layers, vec!["A".to_string(), "C".to_string()]);
    assert_eq!(plan.route_layers, vec!["B".to_string()]);
}

fn decl(name: &str, params: Vec<FnParam>, asset_loads: usize) -> HandlerDecl {
    HandlerDecl { name: name.to_string(), params, asset_loads }
}

#[test]
fn server_fn_names_and_units() {
    let args = ServerFnArgs {
        path: Some("/users/:id".to_string()),
        method: Some(HttpMethod::Get),
        embed: None,
        middlewares: vec![mw(RoutingStrategy::AfterRouting, "auth")],
    };
    let d = decl(
        "get_user",
        vec![FnParam::Typed(param("state", "AppState", true)), FnParam::Typed(param("body", "String", false))],
        0,
    );
    let s = ServerFn::try_new(&args, &d, "AppServerState", &None).unwrap();
    assert_eq!(s.route_const, "GET_GET_USER");
    assert_eq!(s.router_mod, "__get_user_router");
    assert_eq!(s.format_url_fn.ident, "get_get_user_url");
    assert_eq!(s.format_url_fn.params, vec!["id".to_string()]);
    assert_eq!(s.format_url_fn.format(&vec!["5".to_string()]), "/users/5");
    assert_eq!(s.router_fn.ident, "get_user_router");
    assert_eq!(s.router_fn.handler_ident, "get_get_user");
    assert_eq!(s.router_fn.path, "/users/:id");
    assert_eq!(s.router_fn.state_params.len(), 1);
    assert_eq!(s.router_fn.layers.route_layers, vec!["auth".to_string()]);
    assert_eq!(s.router_fn.server_state, "AppServerState");
    assert_eq!(s.stateful_handler.ident, "get_get_user");
    assert_eq!(s.stateful_handler.inner_ident, "get_user");
    assert_eq!(s.stateful_handler.forward_args, vec![0, 1]);
    assert_eq!(s.inner_handler.params, vec![param("state", "AppState", false), param("body", "String", false)]);
    assert_eq!(s.inner_handler.asset_load, None);
}

#[test]
fn receiver_is_rejected() {
    let d = decl("h", vec![FnParam::Typed(param("a", "A", false)), FnParam::Receiver], 0);
    let r = ServerFn::try_new(&ServerFnArgs::empty(), &d, "S", &None);
    assert_eq!(r, Err(ServerFnError::ReceiverNotSupported(1)));
}

#[test]
fn asset_load_needs_embed() {
    let d = decl("index", vec![], 1);
    let r = ServerFn::try_new(&ServerFnArgs::empty(), &d, "S", &None);
    assert_eq!(r, Err(ServerFnError::MissingEmbed));
    let args = ServerFnArgs { embed: Some("/srv".to_string()), ..ServerFnArgs::empty() };
    let probe = Some(BaseProbe { canonical: "/srv/site".to_string(), is_file: false });
    let s = ServerFn::try_new(&args, &d, "S", &probe).unwrap();
    let plan = s.inner_handler.asset_load.unwrap();
    assert_eq!(plan.path, AssetPath::Runtime);
    assert_eq!(plan.dev_base, "/srv/site");
    let s = ServerFn::try_new(&args, &d, "S", &None).unwrap();
    assert_eq!(s.inner_handler.asset_load, None);
}

#[test]
fn single_file_base_is_loaded_by_name() {
    let plan = AssetLoadPlan::new(&BaseProbe { canonical: "/srv/site/logo.png".to_string(), is_file: true });
    assert_eq!(plan.path, AssetPath::Literal("logo.png".to_string()));
    assert_eq!(plan.dev_base, "/srv/site");
    assert_eq!(plan.embed_base, "/srv/site/logo.png");
    let plan = AssetLoadPlan::new(&BaseProbe { canonical: "/logo.png".to_string(), is_file: true });
    assert_eq!(plan.dev_base, "/");
}

#[test]
fn server_state_names() {
    assert_eq!(make_server_state("my-app"), "MyAppServerState");
    assert_eq!(UseServerStateFnMacro.expand("server-state"), "ServerStateServerState");
    assert_eq!(make_router("app_state"), "AppStateRouter");
    let names = ServerStateImpl::try_new("AppState", "server-state").names();
    assert_eq!(names.module, "__server_state_app_state");
    assert_eq!(names.state_router, "AppStateRouter");
    assert_eq!(names.package_router, "ServerStateRouter");
    assert_eq!(names.router_fn_type, "AppStateRouterFn");
}

#[test]
fn method_attribute_overrides_method() {
    let d = decl("ping", vec![], 0);
    let s = ServerFnMethodAttr(HttpMethod::Put).expand(&vec![lit("method", "get")], &d, "S", &None).unwrap();
    assert_eq!(s.router_fn.method, HttpMethod::Put);
    assert_eq!(s.router_fn.path, "/api/ping");
    let r = ServerFnAttrMacro.expand(&vec![lit("method", "ping")], &d, "S", &None);
    assert!(matches!(r, Err(ExpandError::Meta(MetaError::UnsupportedMethod(_, _)))));
}

fn attr(ident: &str, args: Vec<MetaItem>) -> AttrSource {
    AttrSource { ident: Some(ident.to_string()), args }
}

#[test]
fn new_middleware() {
    let attrs = vec![attr("doc", vec![]), attr("get", vec![lit("path", "/")])];
    let source = ExprSource { text: "from_fn(f)".to_string(), call_ident: Some("from_fn".to_string()), call_args: "f".to_string() };
    let mi = MiddlewareImpl::try_new(&attrs, &source).unwrap();
    assert_eq!(mi.index, 1);
    assert_eq!(mi.ident, "get");
    assert_eq!(mi.args.path, Some("/".to_string()));
    assert_eq!(mi.args.middlewares, vec![mw(RoutingStrategy::AfterRouting, "from_fn(f)")]);
}

#[test]
fn middleware_attribute_errors() {
    let source = ExprSource { text: "f".to_string(), call_ident: None, call_args: String::new() };
    let r = MiddlewareImpl::try_new(&vec![attr("doc", vec![])], &source);
    assert_eq!(r, Err(MiddlewareError::ServerAttrNotFound));
    let r = MiddlewareImpl::try_new(&vec![attr("server", vec![]), attr("doc", vec![]), attr("post", vec![])], &source);
    assert_eq!(r, Err(MiddlewareError::MultipleServerAttrs(0, 2)));
    let r = MiddlewareImpl::try_new(&vec![attr("server", vec![lit("method", "ping")])], &source);
    assert!(matches!(r, Err(MiddlewareError::InvalidArgs(MetaError::UnsupportedMethod(_, _)))));
    let r = MiddlewareImpl::try_new(&vec![attr("GET", vec![])], &source);
    assert_eq!(r, Err(MiddlewareError::ServerAttrNotFound));
}
