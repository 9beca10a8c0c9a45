//! The `middleware` attribute: folds one more middleware into the route
//! metadata of the handler's server attribute.

use vstd::prelude::*;
use crate::http::HttpMethod;
use crate::parse::{
    ExprSource, MetaItem, MetaItemView, MetaError, ServerFnArgs, ServerFnArgsView, Middleware, middleware_of,
    parse_args, parse_result_view,
};
use crate::text::{str_eq, copy_str};

verus! {

/// An attribute on the handler: its name when that is a single identifier,
/// and its `name = value` arguments as the front end read them.
#[derive(Debug, Clone, PartialEq, Eq)]
pub struct AttrSource {
    pub ident: Option<String>,
    pub args: Vec<MetaItem>,
}

/// The rewrite: the server attribute at `index` is removed and written again,
/// last, under the same name with `args`.
#[derive(Debug, Clone, PartialEq, Eq)]
pub struct MiddlewareImpl {
    pub index: usize,
    pub ident: String,
    pub args: ServerFnArgs,
}

/// Why a `middleware` attribute could not be applied.
#[derive(Debug, Clone, PartialEq, Eq)]
pub enum MiddlewareError {
    /// The handler has no server attribute.
    ServerAttrNotFound,
    /// The handler has server attributes at both positions.
    MultipleServerAttrs(usize, usize),
    /// The server attribute's arguments were rejected.
    InvalidArgs(MetaError),
}

pub open spec fn server_word() -> Seq<char> {
    seq!['s', 'e', 'r', 'v', 'e', 'r']
}

/// The name of a server attribute: `server` or a verb (`get`, `post`, ...).
pub open spec fn is_server_ident(n: Seq<char>) -> bool {
    n == server_word() || exists|m: HttpMethod| n == m.name()
}

pub open spec fn is_server_attr(a: AttrSource) -> bool {
    a.ident matches Some(n) && is_server_ident(n@)
}

pub open spec fn metas_view(items: Seq<MetaItem>) -> Seq<MetaItemView> {
    items.map_values(|i: MetaItem| i@)
}

/// The metadata with one more middleware at the end.
pub open spec fn with_middleware(a: ServerFnArgsView, e: crate::parse::ExprView) -> ServerFnArgsView {
    ServerFnArgsView { middlewares: a.middlewares.push(middleware_of(e)), ..a }
}

fn is_server_attr_exec(a: &AttrSource) -> (r: bool)
    ensures
        r == is_server_attr(*a),
{
    match &a.ident {
        Some(n) => {
            proof {
                reveal_strlit("server");
                assert("server"@ =~= server_word());
            }
            if str_eq(n.as_str(), "server") {
                true
            } else {
                match HttpMethod::from_exact_name(n.as_str()) {
                    Some(m) => true,
                    None => false,
                }
            }
        },
        None => false,
    }
}

/// The outcome of folding `middleware` into the server attribute among
/// `attrs`: success exactly when there is one server attribute and its
/// arguments are valid.
pub open spec fn middleware_outcome(
    r: Result<MiddlewareImpl, MiddlewareError>,
    attrs: Seq<AttrSource>,
    middleware: crate::parse::ExprView,
) -> bool {
    match r {
        Ok(mi) => {
            &&& mi.index < attrs.len()
            &&& is_server_attr(attrs[mi.index as int])
            &&& forall|j: int| 0 <= j < attrs.len() && j != mi.index ==> !is_server_attr(#[trigger] attrs[j])
            &&& attrs[mi.index as int].ident matches Some(n) && mi.ident@ == n@
            &&& parse_args(metas_view(attrs[mi.index as int].args@)) matches Ok(a) && mi.args@ == with_middleware(a, middleware)
        },
        Err(MiddlewareError::ServerAttrNotFound) => forall|j: int| 0 <= j < attrs.len() ==> !is_server_attr(#[trigger] attrs[j]),
        Err(MiddlewareError::MultipleServerAttrs(i, k)) => {
            &&& i < k < attrs.len()
            &&& is_server_attr(attrs[i as int])
            &&& is_server_attr(attrs[k as int])
            &&& forall|j: int| 0 <= j < k && j != i ==> !is_server_attr(#[trigger] attrs[j])
        },
        Err(MiddlewareError::InvalidArgs(e)) => exists|i: int| {
            &&& 0 <= i < attrs.len()
            &&& is_server_attr(attrs[i])
            &&& (forall|j: int| 0 <= j < attrs.len() && j != i ==> !is_server_attr(#[trigger] attrs[j]))
            &&& parse_args(metas_view(attrs[i].args@)) == Err::<ServerFnArgsView, crate::parse::MetaErrorView>(e@)
        },
    }
}

impl MiddlewareImpl {
    /// Finds the handler's one server attribute and adds `middleware` (read as
    /// [`Middleware::parse`] reads it) after the middlewares it already lists.
    pub fn try_new(attrs: &Vec<AttrSource>, middleware: &ExprSource) -> (r: Result<MiddlewareImpl, MiddlewareError>)
        ensures
            middleware_outcome(r, attrs@, middleware@),
    {
        let mut found: Option<usize> = None;
        let mut i: usize = 0;
        while i < attrs.len()
            invariant
                i <= attrs.len(),
                match found {
                    Some(f) => f < i && is_server_attr(attrs@[f as int]) && forall|j: int|
                        0 <= j < i && j != f ==> !is_server_attr(#[trigger] attrs@[j]),
                    None => forall|j: int| 0 <= j < i ==> !is_server_attr(#[trigger] attrs@[j]),
                },
            decreases attrs.len() - i,
        {
            if is_server_attr_exec(&attrs[i]) {
                match found {
                    Some(f) => {
                        return Err(MiddlewareError::MultipleServerAttrs(f, i));
                    },
                    None => {
                        found = Some(i);
                    },
                }
            }
            i = i + 1;
        }
        let index = match found {
            Some(f) => f,
            None => {
                return Err(MiddlewareError::ServerAttrNotFound);
            },
        };
        let attr = &attrs[index];
        let ident = match &attr.ident {
            Some(n) => copy_str(n.as_str()),
            None => {
                return Err(MiddlewareError::ServerAttrNotFound);
            },
        };
        let mut args = match ServerFnArgs::parse(&attr.args) {
            Ok(a) => a,
            Err(e) => {
                return Err(MiddlewareError::InvalidArgs(e));
            },
        };
        let ghost before = args@;
        let m = Middleware::parse(middleware);
        args.middlewares.push(m);
        assert(args@.middlewares =~= before.middlewares.push(middleware_of(middleware@)));
        assert(args@ =~= with_middleware(before, middleware@));
        Ok(MiddlewareImpl { index, ident, args })
    }
}

} // verus!
