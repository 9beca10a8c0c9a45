//! Route metadata: the `name = value` arguments attached to a handler.
//!
//! The syntax front end hands each argument over as a [`MetaItem`]; this
//! module validates them into [`ServerFnArgs`] and writes them back.

use vstd::prelude::*;
use crate::http::{HttpMethod, eq_ignore_ascii_case, all_methods, fold_char};
use crate::text::{str_eq, concat_str, copy_str, starts_with_char};

verus! {

/// An expression as the front end saw it: its source text and, when it is a
/// call of a plain identifier, that identifier and the text of its arguments.
#[derive(Debug, Clone, PartialEq, Eq)]
pub struct ExprSource {
    pub text: String,
    pub call_ident: Option<String>,
    pub call_args: String,
}

/// The value on the right of one `name = value` argument.
#[derive(Debug, Clone, PartialEq, Eq)]
pub enum MetaValue {
    /// A string literal, with its contents.
    Str(String),
    /// An array expression, with its elements.
    Array(Vec<ExprSource>),
    /// Any other expression.
    Other,
}

/// One `name = value` argument.
#[derive(Debug, Clone, PartialEq, Eq)]
pub struct MetaItem {
    pub key: String,
    pub value: MetaValue,
}

/// Where a middleware layer is applied.
#[derive(Debug, Clone, Copy, PartialEq, Eq, Structural)]
pub enum RoutingStrategy {
    /// Wraps the whole sub-router, before the route is attached.
    BeforeRouting,
    /// Wraps only the route itself.
    AfterRouting,
}

/// A middleware layer: where it applies and the text of the layer expression.
#[derive(Debug, Clone, PartialEq, Eq)]
pub struct Middleware {
    pub strategy: RoutingStrategy,
    pub layer: String,
}

/// The validated route metadata of one handler.
#[derive(Debug, Clone, PartialEq, Eq)]
pub struct ServerFnArgs {
    pub path: Option<String>,
    pub method: Option<HttpMethod>,
    pub embed: Option<String>,
    pub middlewares: Vec<Middleware>,
}

/// Why route metadata was rejected.
#[derive(Debug, Clone, PartialEq, Eq)]
pub enum MetaError {
    /// `path` was not a string literal.
    PathNotLiteral,
    /// `path` was a literal that does not begin with `/`.
    PathNotAbsolute(String),
    /// `method` was not a string literal.
    MethodNotLiteral,
    /// `method` named no recognised verb: the text found, and every verb accepted.
    UnsupportedMethod(String, Vec<HttpMethod>),
    /// `embed` was not a string literal.
    EmbedNotLiteral,
    /// `middlewares` was not an array expression.
    MiddlewaresNotArray,
    /// An argument with a name that is not recognised.
    UnexpectedArgument(String),
}

// ---- mathematical model ----

pub struct ExprView {
    pub text: Seq<char>,
    pub call_ident: Option<Seq<char>>,
    pub call_args: Seq<char>,
}

pub enum MetaValueView {
    Str(Seq<char>),
    Array(Seq<ExprView>),
    Other,
}

pub struct MetaItemView {
    pub key: Seq<char>,
    pub value: MetaValueView,
}

pub struct MiddlewareView {
    pub strategy: RoutingStrategy,
    pub layer: Seq<char>,
}

pub struct ServerFnArgsView {
    pub path: Option<Seq<char>>,
    pub method: Option<HttpMethod>,
    pub embed: Option<Seq<char>>,
    pub middlewares: Seq<MiddlewareView>,
}

pub enum MetaErrorView {
    PathNotLiteral,
    PathNotAbsolute(Seq<char>),
    MethodNotLiteral,
    UnsupportedMethod(Seq<char>, Seq<HttpMethod>),
    EmbedNotLiteral,
    MiddlewaresNotArray,
    UnexpectedArgument(Seq<char>),
}

pub open spec fn opt_view(o: Option<String>) -> Option<Seq<char>> {
    match o {
        Some(s) => Some(s@),
        None => None,
    }
}

impl View for ExprSource {
    type V = ExprView;

    open spec fn view(&self) -> ExprView {
        ExprView { text: self.text@, call_ident: opt_view(self.call_ident), call_args: self.call_args@ }
    }
}

impl View for MetaValue {
    type V = MetaValueView;

    open spec fn view(&self) -> MetaValueView {
        match self {
            MetaValue::Str(s) => MetaValueView::Str(s@),
            MetaValue::Array(v) => MetaValueView::Array(v@.map_values(|e: ExprSource| e@)),
            MetaValue::Other => MetaValueView::Other,
        }
    }
}

impl View for MetaItem {
    type V = MetaItemView;

    open spec fn view(&self) -> MetaItemView {
        MetaItemView { key: self.key@, value: self.value@ }
    }
}

impl View for Middleware {
    type V = MiddlewareView;

    open spec fn view(&self) -> MiddlewareView {
        MiddlewareView { strategy: self.strategy, layer: self.layer@ }
    }
}

impl View for ServerFnArgs {
    type V = ServerFnArgsView;

    open spec fn view(&self) -> ServerFnArgsView {
        ServerFnArgsView {
            path: opt_view(self.path),
            method: self.method,
            embed: opt_view(self.embed),
            middlewares: self.middlewares@.map_values(|m: Middleware| m@),
        }
    }
}

impl View for MetaError {
    type V = MetaErrorView;

    open spec fn view(&self) -> MetaErrorView {
        match self {
            MetaError::PathNotLiteral => MetaErrorView::PathNotLiteral,
            MetaError::PathNotAbsolute(s) => MetaErrorView::PathNotAbsolute(s@),
            MetaError::MethodNotLiteral => MetaErrorView::MethodNotLiteral,
            MetaError::UnsupportedMethod(s, v) => MetaErrorView::UnsupportedMethod(s@, v@),
            MetaError::EmbedNotLiteral => MetaErrorView::EmbedNotLiteral,
            MetaError::MiddlewaresNotArray => MetaErrorView::MiddlewaresNotArray,
            MetaError::UnexpectedArgument(s) => MetaErrorView::UnexpectedArgument(s@),
        }
    }
}

pub open spec fn after_routing_name() -> Seq<char> {
    seq!['a', 'f', 't', 'e', 'r', '_', 'r', 'o', 'u', 't', 'i', 'n', 'g']
}

pub open spec fn before_routing_name() -> Seq<char> {
    seq!['b', 'e', 'f', 'o', 'r', 'e', '_', 'r', 'o', 'u', 't', 'i', 'n', 'g']
}

pub open spec fn strategy_name(s: RoutingStrategy) -> Seq<char> {
    match s {
        RoutingStrategy::BeforeRouting => before_routing_name(),
        RoutingStrategy::AfterRouting => after_routing_name(),
    }
}

/// A middleware expression read as a layer: an explicit `before_routing(..)` or
/// `after_routing(..)` call gives its strategy and arguments; any other
/// expression is an after-routing layer as a whole.
pub open spec fn middleware_of(e: ExprView) -> MiddlewareView {
    match e.call_ident {
        Some(n) => if n == before_routing_name() {
            MiddlewareView { strategy: RoutingStrategy::BeforeRouting, layer: e.call_args }
        } else if n == after_routing_name() {
            MiddlewareView { strategy: RoutingStrategy::AfterRouting, layer: e.call_args }
        } else {
            MiddlewareView { strategy: RoutingStrategy::AfterRouting, layer: e.text }
        },
        None => MiddlewareView { strategy: RoutingStrategy::AfterRouting, layer: e.text },
    }
}

pub open spec fn path_key() -> Seq<char> {
    seq!['p', 'a', 't', 'h']
}

pub open spec fn method_key() -> Seq<char> {
    seq!['m', 'e', 't', 'h', 'o', 'd']
}

pub open spec fn embed_key() -> Seq<char> {
    seq!['e', 'm', 'b', 'e', 'd']
}

pub open spec fn middlewares_key() -> Seq<char> {
    seq!['m', 'i', 'd', 'd', 'l', 'e', 'w', 'a', 'r', 'e', 's']
}

pub open spec fn empty_args() -> ServerFnArgsView {
    ServerFnArgsView { path: None, method: None, embed: None, middlewares: Seq::empty() }
}

/// The verb a method literal names, up to ASCII case.
pub open spec fn method_named(s: Seq<char>, m: HttpMethod) -> bool {
    eq_ignore_ascii_case(s, m.name())
}

/// The effect of one argument on the metadata read so far; a later argument
/// with the same name replaces an earlier one.
pub open spec fn apply_meta(acc: ServerFnArgsView, item: MetaItemView) -> Result<ServerFnArgsView, MetaErrorView> {
    if item.key == path_key() {
        match item.value {
            MetaValueView::Str(s) => if s.len() > 0 && s[0] == '/' {
                Ok(ServerFnArgsView { path: Some(s), ..acc })
            } else {
                Err(MetaErrorView::PathNotAbsolute(s))
            },
            _ => Err(MetaErrorView::PathNotLiteral),
        }
    } else if item.key == method_key() {
        match item.value {
            MetaValueView::Str(s) => if exists|m: HttpMethod| method_named(s, m) {
                Ok(ServerFnArgsView { method: Some(choose|m: HttpMethod| method_named(s, m)), ..acc })
            } else {
                Err(MetaErrorView::UnsupportedMethod(s, all_methods()))
            },
            _ => Err(MetaErrorView::MethodNotLiteral),
        }
    } else if item.key == embed_key() {
        match item.value {
            MetaValueView::Str(s) => Ok(ServerFnArgsView { embed: Some(s), ..acc }),
            _ => Err(MetaErrorView::EmbedNotLiteral),
        }
    } else if item.key == middlewares_key() {
        match item.value {
            MetaValueView::Array(es) => Ok(
                ServerFnArgsView { middlewares: es.map_values(|e: ExprView| middleware_of(e)), ..acc },
            ),
            _ => Err(MetaErrorView::MiddlewaresNotArray),
        }
    } else {
        Err(MetaErrorView::UnexpectedArgument(item.key))
    }
}

/// The metadata that a list of arguments gives, read left to right; the
/// first rejected argument decides the error.
pub open spec fn parse_args(items: Seq<MetaItemView>) -> Result<ServerFnArgsView, MetaErrorView>
    decreases items.len(),
{
    if items.len() == 0 {
        Ok(empty_args())
    } else {
        match parse_args(items.drop_last()) {
            Ok(acc) => apply_meta(acc, items.last()),
            Err(e) => Err(e),
        }
    }
}

pub open spec fn parse_result_view(r: Result<ServerFnArgs, MetaError>) -> Result<ServerFnArgsView, MetaErrorView> {
    match r {
        Ok(a) => Ok(a@),
        Err(e) => Err(e@),
    }
}

impl Middleware {
    /// Reads a middleware expression; anything but an explicit
    /// `before_routing(..)` / `after_routing(..)` call is an after-routing layer.
    pub fn parse(e: &ExprSource) -> (r: Middleware)
        ensures
            r@ == middleware_of(e@),
    {
        proof {
            reveal_strlit("before_routing");
            reveal_strlit("after_routing");
            assert("before_routing"@ =~= before_routing_name());
            assert("after_routing"@ =~= after_routing_name());
        }
        match &e.call_ident {
            Some(n) => {
                if str_eq(n.as_str(), "before_routing") {
                    Middleware { strategy: RoutingStrategy::BeforeRouting, layer: copy_str(e.call_args.as_str()) }
                } else if str_eq(n.as_str(), "after_routing") {
                    Middleware { strategy: RoutingStrategy::AfterRouting, layer: copy_str(e.call_args.as_str()) }
                } else {
                    Middleware { strategy: RoutingStrategy::AfterRouting, layer: copy_str(e.text.as_str()) }
                }
            },
            None => Middleware { strategy: RoutingStrategy::AfterRouting, layer: copy_str(e.text.as_str()) },
        }
    }

    /// A copy with the same strategy and layer.
    pub fn copy(&self) -> (r: Middleware)
        ensures
            r@ == self@,
    {
        Middleware { strategy: self.strategy, layer: copy_str(self.layer.as_str()) }
    }

    /// The middleware written back as an explicit routing call.
    pub fn to_expr(&self) -> (r: ExprSource)
        ensures
            r@.call_ident == Some(strategy_name(self.strategy)),
            r@.call_args == self.layer@,
            r@.text == strategy_name(self.strategy) + seq!['('] + self.layer@ + seq![')'],
    {
        proof {
            reveal_strlit("before_routing");
            reveal_strlit("after_routing");
            reveal_strlit("(");
            reveal_strlit(")");
        }
        let name = match self.strategy {
            RoutingStrategy::BeforeRouting => "before_routing",
            RoutingStrategy::AfterRouting => "after_routing",
        };
        let open_call = concat_str(name, "(");
        let with_args = concat_str(open_call.as_str(), self.layer.as_str());
        let text = concat_str(with_args.as_str(), ")");
        ExprSource { text, call_ident: Some(copy_str(name)), call_args: copy_str(self.layer.as_str()) }
    }
}

fn parse_middlewares(es: &Vec<ExprSource>) -> (r: Vec<Middleware>)
    ensures
        r@.len() == es@.len(),
        forall|j: int| 0 <= j < es@.len() ==> (#[trigger] r@[j])@ == middleware_of(es@[j]@),
{
    let mut r: Vec<Middleware> = Vec::new();
    let mut i: usize = 0;
    while i < es.len()
        invariant
            i <= es.len(),
            r@.len() == i,
            forall|j: int| 0 <= j < i ==> (#[trigger] r@[j])@ == middleware_of(es@[j]@),
        decreases es.len() - i,
    {
        let m = Middleware::parse(&es[i]);
        r.push(m);
        i = i + 1;
    }
    r
}

impl ServerFnArgs {
    /// Metadata with nothing set.
    pub fn empty() -> (r: ServerFnArgs)
        ensures
            r@ == empty_args(),
    {
        let r = ServerFnArgs { path: None, method: None, embed: None, middlewares: Vec::new() };
        assert(r@.middlewares =~= Seq::<MiddlewareView>::empty());
        r
    }

    /// Validates the arguments left to right into route metadata.
    pub fn parse(items: &Vec<MetaItem>) -> (r: Result<ServerFnArgs, MetaError>)
        ensures
            parse_result_view(r) == parse_args(items@.map_values(|i: MetaItem| i@)),
    {
        let mut acc = ServerFnArgs::empty();
        let mut i: usize = 0;
        while i < items.len()
            invariant
                i <= items.len(),
                parse_args(items@.subrange(0, i as int).map_values(|i: MetaItem| i@)) == Ok::<
                    ServerFnArgsView,
                    MetaErrorView,
                >(acc@),
            decreases items.len() - i,
        {
            proof {
                let q = items@.subrange(0, i as int + 1).map_values(|i: MetaItem| i@);
                assert(q.drop_last() =~= items@.subrange(0, i as int).map_values(|i: MetaItem| i@));
            }
            match apply_item(acc, &items[i]) {
                Ok(next) => {
                    proof {
                        let q = items@.subrange(0, i as int + 1).map_values(|i: MetaItem| i@);
                        assert(q.last() == items@[i as int]@);
                    }
                    acc = next;
                },
                Err(e) => {
                    proof {
                        let q = items@.subrange(0, i as int + 1).map_values(|i: MetaItem| i@);
                        assert(q.last() == items@[i as int]@);
                        assert(parse_args(q) == Err::<ServerFnArgsView, MetaErrorView>(e@));
                        assert(items@.map_values(|i: MetaItem| i@).subrange(0, i as int + 1) =~= q);
                        lemma_parse_err_sticky(items@.map_values(|i: MetaItem| i@), i as int + 1, e@);
                    }
                    return Err(e);
                },
            }
            i = i + 1;
        }
        assert(items@.subrange(0, items.len() as int) =~= items@);
        Ok(acc)
    }
}

proof fn lemma_parse_err_sticky(items: Seq<MetaItemView>, k: int, e: MetaErrorView)
    requires
        0 <= k <= items.len(),
        parse_args(items.subrange(0, k)) == Err::<ServerFnArgsView, MetaErrorView>(e),
    ensures
        parse_args(items) == Err::<ServerFnArgsView, MetaErrorView>(e),
    decreases items.len() - k,
{
    if k < items.len() {
        let q = items.subrange(0, k + 1);
        assert(q.drop_last() =~= items.subrange(0, k));
        lemma_parse_err_sticky(items, k + 1, e);
    } else {
        assert(items.subrange(0, k) =~= items);
    }
}

fn apply_item(acc: ServerFnArgs, item: &MetaItem) -> (r: Result<ServerFnArgs, MetaError>)
    ensures
        parse_result_view(r) == apply_meta(acc@, item@),
{
    proof {
        reveal_strlit("path");
        reveal_strlit("method");
        reveal_strlit("embed");
        reveal_strlit("middlewares");
        assert("path"@ =~= path_key());
        assert("method"@ =~= method_key());
        assert("embed"@ =~= embed_key());
        assert("middlewares"@ =~= middlewares_key());
    }
    let key = item.key.as_str();
    if str_eq(key, "path") {
        match &item.value {
            MetaValue::Str(s) => {
                if starts_with_char(s.as_str(), '/') {
                    Ok(ServerFnArgs { path: Some(copy_str(s.as_str())), ..acc })
                } else {
                    Err(MetaError::PathNotAbsolute(copy_str(s.as_str())))
                }
            },
            _ => Err(MetaError::PathNotLiteral),
        }
    } else if str_eq(key, "method") {
        match &item.value {
            MetaValue::Str(s) => {
                match HttpMethod::from_name(s.as_str()) {
                    Some(m) => {
                        proof {
                            lemma_method_unique(s@, m);
                            assert(method_named(s@, m));
                        }
                        Ok(ServerFnArgs { method: Some(m), ..acc })
                    },
                    None => Err(MetaError::UnsupportedMethod(copy_str(s.as_str()), HttpMethod::all())),
                }
            },
            _ => Err(MetaError::MethodNotLiteral),
        }
    } else if str_eq(key, "embed") {
        match &item.value {
            MetaValue::Str(s) => Ok(ServerFnArgs { embed: Some(copy_str(s.as_str())), ..acc }),
            _ => Err(MetaError::EmbedNotLiteral),
        }
    } else if str_eq(key, "middlewares") {
        match &item.value {
            MetaValue::Array(es) => {
                let mids = parse_middlewares(es);
                let r = ServerFnArgs { middlewares: mids, ..acc };
                assert(r@.middlewares =~= es@.map_values(|e: ExprSource| e@).map_values(
                    |e: ExprView| middleware_of(e),
                ));
                Ok(r)
            },
            _ => Err(MetaError::MiddlewaresNotArray),
        }
    } else {
        Err(MetaError::UnexpectedArgument(copy_str(key)))
    }
}

/// A literal names at most one verb.
pub proof fn lemma_method_unique(s: Seq<char>, m: HttpMethod)
    requires
        method_named(s, m),
    ensures
        forall|n: HttpMethod| #[trigger] method_named(s, n) ==> n == m,
{
    assert forall|n: HttpMethod| #[trigger] method_named(s, n) implies n == m by {
        if n != m {
            lemma_names_differ(n, m);
            let a = n.name();
            let b = m.name();
            if a.len() == b.len() {
                let i = choose|i: int| 0 <= i < a.len() && a[i] != b[i];
                assert(fold_char(s[i]) == fold_char(a[i]));
                assert(fold_char(s[i]) == fold_char(b[i]));
            }
        }
    }
}

proof fn lemma_names_differ(n: HttpMethod, m: HttpMethod)
    requires
        n != m,
    ensures
        n.name().len() == m.name().len() ==> exists|i: int| 0 <= i < n.name().len() && n.name()[i] != m.name()[i],
{
    let a = n.name();
    let b = m.name();
    if a.len() == b.len() {
        if a[0] != b[0] {
            assert(a[0] != b[0]);
        } else if a[1] != b[1] {
            assert(a[1] != b[1]);
        } else {
            assert(a[2] != b[2]);
        }
    }
}

/// A middleware written back as an explicit routing call.
pub open spec fn expr_of(m: MiddlewareView) -> ExprView {
    ExprView {
        text: strategy_name(m.strategy) + seq!['('] + m.layer + seq![')'],
        call_ident: Some(strategy_name(m.strategy)),
        call_args: m.layer,
    }
}

/// Metadata that parsing can give back: a path, when set, is absolute.
pub open spec fn args_well_formed(a: ServerFnArgsView) -> bool {
    a.path matches Some(p) ==> p.len() > 0 && p[0] == '/'
}

/// The arguments that describe `a`: `path`, `method`, `embed`, then
/// `middlewares` (when there is at least one), each only when set.
pub open spec fn metas_of(a: ServerFnArgsView) -> Seq<MetaItemView> {
    let s0 = Seq::<MetaItemView>::empty();
    let s1 = match a.path {
        Some(p) => s0.push(MetaItemView { key: path_key(), value: MetaValueView::Str(p) }),
        None => s0,
    };
    let s2 = match a.method {
        Some(m) => s1.push(MetaItemView { key: method_key(), value: MetaValueView::Str(m.name()) }),
        None => s1,
    };
    let s3 = match a.embed {
        Some(e) => s2.push(MetaItemView { key: embed_key(), value: MetaValueView::Str(e) }),
        None => s2,
    };
    if a.middlewares.len() > 0 {
        s3.push(
            MetaItemView {
                key: middlewares_key(),
                value: MetaValueView::Array(a.middlewares.map_values(|m: MiddlewareView| expr_of(m))),
            },
        )
    } else {
        s3
    }
}

impl ServerFnArgs {
    /// The arguments that describe this metadata, in the order `path`,
    /// `method`, `embed`, `middlewares`.
    pub fn to_metas(&self) -> (r: Vec<MetaItem>)
        ensures
            r@.map_values(|i: MetaItem| i@) == metas_of(self@),
    {
        proof {
            reveal_strlit("path");
            reveal_strlit("method");
            reveal_strlit("embed");
            reveal_strlit("middlewares");
            assert("path"@ =~= path_key());
            assert("method"@ =~= method_key());
            assert("embed"@ =~= embed_key());
            assert("middlewares"@ =~= middlewares_key());
        }
        let mut r: Vec<MetaItem> = Vec::new();
        let ghost a = self@;
        let ghost s0 = Seq::<MetaItemView>::empty();
        assert(r@.map_values(|i: MetaItem| i@) =~= s0);
        if let Some(p) = &self.path {
            r.push(MetaItem { key: copy_str("path"), value: MetaValue::Str(copy_str(p.as_str())) });
        }
        let ghost s1 = r@.map_values(|i: MetaItem| i@);
        assert(s1 =~= match a.path {
            Some(p) => s0.push(MetaItemView { key: path_key(), value: MetaValueView::Str(p) }),
            None => s0,
        });
        if let Some(m) = &self.method {
            r.push(MetaItem { key: copy_str("method"), value: MetaValue::Str(copy_str(m.as_str())) });
        }
        let ghost s2 = r@.map_values(|i: MetaItem| i@);
        assert(s2 =~= match a.method {
            Some(m) => s1.push(MetaItemView { key: method_key(), value: MetaValueView::Str(m.name()) }),
            None => s1,
        });
        if let Some(e) = &self.embed {
            r.push(MetaItem { key: copy_str("embed"), value: MetaValue::Str(copy_str(e.as_str())) });
        }
        let ghost s3 = r@.map_values(|i: MetaItem| i@);
        assert(s3 =~= match a.embed {
            Some(e) => s2.push(MetaItemView { key: embed_key(), value: MetaValueView::Str(e) }),
            None => s2,
        });
        if self.middlewares.len() > 0 {
            let mut es: Vec<ExprSource> = Vec::new();
            let mut i: usize = 0;
            while i < self.middlewares.len()
                invariant
                    i <= self.middlewares.len(),
                    es@.len() == i,
                    forall|j: int| 0 <= j < i ==> (#[trigger] es@[j])@ == expr_of(self.middlewares@[j]@),
                decreases self.middlewares.len() - i,
            {
                let e = self.middlewares[i].to_expr();
                es.push(e);
                i = i + 1;
            }
            assert(es@.map_values(|e: ExprSource| e@) =~= a.middlewares.map_values(
                |m: MiddlewareView| expr_of(m),
            ));
            r.push(MetaItem { key: copy_str("middlewares"), value: MetaValue::Array(es) });
            assert(r@.map_values(|i: MetaItem| i@) =~= metas_of(a));
        }
        r
    }
}

proof fn lemma_parse_push(items: Seq<MetaItemView>, item: MetaItemView, acc: ServerFnArgsView)
    requires
        parse_args(items) == Ok::<ServerFnArgsView, MetaErrorView>(acc),
    ensures
        parse_args(items.push(item)) == apply_meta(acc, item),
{
    assert(items.push(item).drop_last() =~= items);
}

/// Writing metadata back as arguments and parsing those gives the same metadata.
pub proof fn lemma_args_round_trip(a: ServerFnArgsView)
    requires
        args_well_formed(a),
    ensures
        parse_args(metas_of(a)) == Ok::<ServerFnArgsView, MetaErrorView>(a),
{
    let s0 = Seq::<MetaItemView>::empty();
    let acc0 = empty_args();
    let p_item = MetaItemView { key: path_key(), value: MetaValueView::Str(a.path.unwrap()) };
    let s1 = match a.path {
        Some(p) => s0.push(p_item),
        None => s0,
    };
    let acc1 = ServerFnArgsView { path: a.path, ..acc0 };
    if a.path is Some {
        lemma_parse_push(s0, p_item, acc0);
    }
    assert(parse_args(s1) == Ok::<ServerFnArgsView, MetaErrorView>(acc1));
    let m_item = MetaItemView { key: method_key(), value: MetaValueView::Str(a.method.unwrap().name()) };
    let s2 = match a.method {
        Some(m) => s1.push(m_item),
        None => s1,
    };
    let acc2 = ServerFnArgsView { method: a.method, ..acc1 };
    if a.method is Some {
        let m = a.method.unwrap();
        lemma_parse_push(s1, m_item, acc1);
        assert(method_named(m.name(), m));
        lemma_method_unique(m.name(), m);
    }
    assert(parse_args(s2) == Ok::<ServerFnArgsView, MetaErrorView>(acc2));
    let e_item = MetaItemView { key: embed_key(), value: MetaValueView::Str(a.embed.unwrap()) };
    let s3 = match a.embed {
        Some(e) => s2.push(e_item),
        None => s2,
    };
    let acc3 = ServerFnArgsView { embed: a.embed, ..acc2 };
    if a.embed is Some {
        lemma_parse_push(s2, e_item, acc2);
    }
    assert(parse_args(s3) == Ok::<ServerFnArgsView, MetaErrorView>(acc3));
    if a.middlewares.len() > 0 {
        let es = a.middlewares.map_values(|m: MiddlewareView| expr_of(m));
        let w_item = MetaItemView { key: middlewares_key(), value: MetaValueView::Array(es) };
        lemma_parse_push(s3, w_item, acc3);
        assert forall|j: int| 0 <= j < a.middlewares.len() implies middleware_of(#[trigger] es[j]) == a.middlewares[j] by {
            lemma_middleware_round_trip(a.middlewares[j]);
        }
        assert(es.map_values(|e: ExprView| middleware_of(e)) =~= a.middlewares);
    } else {
        assert(acc3.middlewares =~= a.middlewares);
    }
}

/// A middleware written back as a routing call reads as the same middleware.
pub proof fn lemma_middleware_round_trip(m: MiddlewareView)
    ensures
        middleware_of(expr_of(m)) == m,
{
    assert(before_routing_name() != after_routing_name()) by {
        assert(before_routing_name()[0] != after_routing_name()[0]);
    }
}

/// The verbs' names, comma-separated, in brackets.
pub open spec fn method_list(ms: Seq<HttpMethod>) -> Seq<char> {
    "["@ + crate::text::join_with(ms.map_values(|m: HttpMethod| m.name()), ", "@) + "]"@
}

/// The text shown for a rejected argument.
pub open spec fn message_of(e: MetaErrorView) -> Seq<char> {
    match e {
        MetaErrorView::PathNotLiteral => "Path must be a string literal"@,
        MetaErrorView::PathNotAbsolute(p) => "Path must begin with '/'; found ("@ + p + ")"@,
        MetaErrorView::MethodNotLiteral => "Method must be a string literal"@,
        MetaErrorView::UnsupportedMethod(f, ms) => "Method not supported; found ("@ + f + "), expected one of "@ + method_list(ms),
        MetaErrorView::EmbedNotLiteral => "Embed must be a string literal"@,
        MetaErrorView::MiddlewaresNotArray => "Unexpected middlewares array value."@,
        MetaErrorView::UnexpectedArgument(k) => "Unexpected server attribute argument: "@ + k,
    }
}

fn method_list_exec(ms: &Vec<HttpMethod>) -> (r: String)
    ensures
        r@ == method_list(ms@),
{
    let mut names: Vec<String> = Vec::new();
    let mut i: usize = 0;
    while i < ms.len()
        invariant
            i <= ms.len(),
            names.deep_view() == ms@.subrange(0, i as int).map_values(|m: HttpMethod| m.name()),
        decreases ms.len() - i,
    {
        let ghost prev = names.deep_view();
        names.push(copy_str(ms[i].as_str()));
        assert(names.deep_view() =~= prev.push(ms@[i as int].name()));
        assert(names.deep_view() =~= ms@.subrange(0, i as int + 1).map_values(|m: HttpMethod| m.name()));
        i = i + 1;
    }
    assert(ms@.subrange(0, ms.len() as int) =~= ms@);
    let joined = crate::text::join_str(&names, ", ");
    let open_list = concat_str("[", joined.as_str());
    concat_str(open_list.as_str(), "]")
}

impl MetaError {
    /// The text shown for this error.
    pub fn message(&self) -> (r: String)
        ensures
            r@ == message_of(self@),
    {
        match self {
            MetaError::PathNotLiteral => copy_str("Path must be a string literal"),
            MetaError::PathNotAbsolute(p) => {
                let a = concat_str("Path must begin with '/'; found (", p.as_str());
                concat_str(a.as_str(), ")")
            },
            MetaError::MethodNotLiteral => copy_str("Method must be a string literal"),
            MetaError::UnsupportedMethod(f, ms) => {
                let a = concat_str("Method not supported; found (", f.as_str());
                let b = concat_str(a.as_str(), "), expected one of ");
                let l = method_list_exec(ms);
                concat_str(b.as_str(), l.as_str())
            },
            MetaError::EmbedNotLiteral => copy_str("Embed must be a string literal"),
            MetaError::MiddlewaresNotArray => copy_str("Unexpected middlewares array value."),
            MetaError::UnexpectedArgument(k) => concat_str("Unexpected server attribute argument: ", k.as_str()),
        }
    }
}

} // verus!
