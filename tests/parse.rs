use server_fns::http::HttpMethod;
use server_fns::parse::{ExprSource, MetaError, MetaItem, MetaValue, Middleware, RoutingStrategy, ServerFnArgs};

fn lit(key: &str, value: &str) -> MetaItem {
    MetaItem { key: key.to_string(), value: MetaValue::Str(value.to_string()) }
}

fn call(func: &str, args: &str) -> ExprSource {
    ExprSource {
        text: format!("{}({})", func, args),
        call_ident: Some(func.to_string()),
        call_args: args.to_string(),
    }
}

fn metas_for(method: &str) -> Vec<MetaItem> {
    vec![
        lit("path", "/test"),
        lit("method", method),
        lit("embed", "/test"),
        MetaItem {
            key: "middlewares".to_string(),
            value: MetaValue::Array(vec![call("after_routing", "fn_after"), call("before_routing", "fn_before")]),
        },
    ]
}

fn check_method(name: &str, method: HttpMethod) {
    let metas = metas_for(name);
    let args = ServerFnArgs::parse(&metas).unwrap();
    let expected = ServerFnArgs {
        path: Some("/test".to_string()),
        method: Some(method),
        embed: Some("/test".to_string()),
        middlewares: vec![
            Middleware { strategy: RoutingStrategy::AfterRouting, layer: "fn_after".to_string() },
            Middleware { strategy: RoutingStrategy::BeforeRouting, layer: "fn_before".to_string() },
        ],
    };
    assert_eq!(args, expected);
    assert_eq!(args.to_metas(), metas);
}

#[test]
#[should_panic(expected = "Method not supported")]
fn parse_bad_http_method() {
    let metas = metas_for("ping");
    match ServerFnArgs::parse(&metas) {
        Ok(_) => {}
        Err(e) => panic!("{}", e.message()),
    }
}

#[test]
fn parse_server_fn_args() {
    check_method("any", HttpMethod::Any);
    check_method("delete", HttpMethod::Delete);
    check_method("get", HttpMethod::Get);
    check_method("head", HttpMethod::Head);
    check_method("options", HttpMethod::Options);
    check_method("patch", HttpMethod::Patch);
    check_method("post", HttpMethod::Post);
    check_method("put", HttpMethod::Put);
    check_method("trace", HttpMethod::Trace);
}

#[test]
fn parse_middleware() {
    let source = ExprSource {
        text: "axum::middleware::from_fn(some_fn)".to_string(),
        call_ident: None,
        call_args: "some_fn".to_string(),
    };
    let middleware = Middleware::parse(&source);
    let expected = Middleware {
        strategy: RoutingStrategy::AfterRouting,
        layer: "axum::middleware::from_fn(some_fn)".to_string(),
    };
    assert_eq!(middleware, expected);
    assert_eq!(middleware.to_expr().text, "after_routing(axum::middleware::from_fn(some_fn))");
}

#[test]
fn unsupported_method_names_every_verb() {
    let err = ServerFnArgs::parse(&vec![lit("method", "ping")]).unwrap_err();
    assert_eq!(err, MetaError::UnsupportedMethod("ping".to_string(), HttpMethod::all()));
    assert_eq!(
        err.message(),
        "Method not supported; found (ping), expected one of [any, delete, get, head, options, patch, post, put, trace]"
    );
}

#[test]
fn method_is_case_insensitive_and_normalised() {
    for name in ["get", "GET", "Get", "gEt"] {
        let args = ServerFnArgs::parse(&vec![lit("method", name)]).unwrap();
        assert_eq!(args.method, Some(HttpMethod::Get));
        assert_eq!(args.method.unwrap().as_str(), "get");
    }
    let args = ServerFnArgs::parse(&vec![lit("method", "OPTIONS")]).unwrap();
    assert_eq!(args.to_metas(), vec![lit("method", "options")]);
}

#[test]
fn each_meta_error() {
    let other = |k: &str| MetaItem { key: k.to_string(), value: MetaValue::Other };
    assert_eq!(ServerFnArgs::parse(&vec![other("path")]), Err(MetaError::PathNotLiteral));
    assert_eq!(
        ServerFnArgs::parse(&vec![lit("path", "api/x")]),
        Err(MetaError::PathNotAbsolute("api/x".to_string()))
    );
    assert_eq!(ServerFnArgs::parse(&vec![other("method")]), Err(MetaError::MethodNotLiteral));
    assert_eq!(ServerFnArgs::parse(&vec![other("embed")]), Err(MetaError::EmbedNotLiteral));
    assert_eq!(ServerFnArgs::parse(&vec![lit("middlewares", "x")]), Err(MetaError::MiddlewaresNotArray));
    assert_eq!(
        ServerFnArgs::parse(&vec![lit("route", "/x")]),
        Err(MetaError::UnexpectedArgument("route".to_string()))
    );
    assert_eq!(
        MetaError::UnexpectedArgument("route".to_string()).message(),
        "Unexpected server attribute argument: route"
    );
}

#[test]
fn first_rejected_argument_decides_and_later_ones_override() {
    let metas = vec![lit("route", "/x"), lit("method", "ping")];
    assert_eq!(ServerFnArgs::parse(&metas), Err(MetaError::UnexpectedArgument("route".to_string())));
    let metas = vec![lit("path", "/a"), lit("path", "/b")];
    assert_eq!(ServerFnArgs::parse(&metas).unwrap().path, Some("/b".to_string()));
    assert_eq!(ServerFnArgs::parse(&vec![]).unwrap(), ServerFnArgs::empty());
}

#[test]
fn explicit_routing_calls_keep_their_strategy() {
    let m = Middleware::parse(&call("before_routing", "cors"));
    assert_eq!(m, Middleware { strategy: RoutingStrategy::BeforeRouting, layer: "cors".to_string() });
    let m = Middleware::parse(&call("trace_layer", "x"));
    assert_eq!(m, Middleware { strategy: RoutingStrategy::AfterRouting, layer: "trace_layer(x)".to_string() });
    let back = Middleware::parse(&m.to_expr());
    assert_eq!(back, m);
}
