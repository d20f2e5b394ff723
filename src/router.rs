use vstd::prelude::*;

use crate::context::{Method, RequestHead, ServerContext};
use crate::gateway::GatewayError;
use crate::headers::{first_value, has_name, HeaderSeq};
use crate::providers::{ContextFactory, ContextProviders};
use crate::response::{
    apply_redirect, capture_redirect_hint, location_name, merge_staged, merged_headers,
    merged_status, redirect_fires, RedirectHint, ResponseHead, FOUND,
};

verus! {

/// A registered function: the path it answers and its method.
pub struct FunctionRoute {
    pub path: Vec<u8>,
    pub method: Method,
}

impl FunctionRoute {
    pub open spec fn view(&self) -> (Seq<u8>, Method) {
        (self.path@, self.method)
    }
}

/// Functions can be registered for these methods only.
pub open spec fn is_function_method(m: Method) -> bool {
    m == Method::Get || m == Method::Post || m == Method::Put
}

/// Why a route table cannot be built.
#[derive(Debug, PartialEq, Eq, Structural, Clone, Copy)]
pub enum RouteError {
    /// The function at this position is registered for a method other than GET, POST, PUT.
    UnsupportedMethod(usize),
}

/// Where a request goes.
#[derive(Debug, PartialEq, Eq, Structural, Clone, Copy)]
pub enum RouteTarget {
    /// The function registered at this position.
    Function(usize),
    /// The render fallback.
    Render,
}

/// One route per registered function, plus the render fallback for everything else.
pub struct RouteTable {
    routes: Vec<FunctionRoute>,
}

/// Route `r` answers `path` with `method`.
pub open spec fn answers(r: (Seq<u8>, Method), path: Seq<u8>, method: Method) -> bool {
    r.0 == path && r.1 == method
}

impl RouteTable {
    pub closed spec fn spec_routes(&self) -> Seq<(Seq<u8>, Method)> {
        self.routes@.map_values(|r: FunctionRoute| r.view())
    }

    /// Builds the table from the registered functions, in order. A function registered
    /// for a method other than GET, POST or PUT is a configuration error: the first such
    /// position is reported.
    pub fn build(functions: Vec<FunctionRoute>) -> (r: Result<RouteTable, RouteError>)
        ensures
            match r {
                Ok(t) => {
                    &&& forall|i: int| 0 <= i < functions@.len() ==> is_function_method(#[trigger] functions@[i].method)
                    &&& t.spec_routes() == functions@.map_values(|f: FunctionRoute| f.view())
                },
                Err(RouteError::UnsupportedMethod(i)) => {
                    &&& i < functions@.len()
                    &&& !is_function_method(functions@[i as int].method)
                    &&& forall|j: int| 0 <= j < i ==> is_function_method(#[trigger] functions@[j].method)
                },
            },
    {
        let mut i: usize = 0;
        while i < functions.len()
            invariant
                i <= functions@.len(),
                forall|j: int| 0 <= j < i ==> is_function_method(#[trigger] functions@[j].method),
            decreases functions.len() - i,
        {
            let m = functions[i].method;
            if !(m == Method::Get || m == Method::Post || m == Method::Put) {
                return Err(RouteError::UnsupportedMethod(i));
            }
            i = i + 1;
        }
        Ok(RouteTable { routes: functions })
    }

    pub fn len(&self) -> (r: usize)
        ensures
            r == self.spec_routes().len(),
    {
        self.routes.len()
    }

    /// Picks the route for a request: the first function registered for exactly this
    /// path and method, else the render fallback.
    pub fn route(&self, path: &Vec<u8>, method: Method) -> (r: RouteTarget)
        ensures
            match r {
                RouteTarget::Function(i) => {
                    &&& i < self.spec_routes().len()
                    &&& answers(self.spec_routes()[i as int], path@, method)
                    &&& forall|j: int| 0 <= j < i ==> !answers(#[trigger] self.spec_routes()[j], path@, method)
                },
                RouteTarget::Render => forall|j: int|
                    0 <= j < self.spec_routes().len() ==> !answers(#[trigger] self.spec_routes()[j], path@, method),
            },
    {
        let mut i: usize = 0;
        while i < self.routes.len()
            invariant
                i <= self.routes@.len(),
                self.spec_routes().len() == self.routes@.len(),
                forall|j: int| 0 <= j < i ==> !answers(#[trigger] self.spec_routes()[j], path@, method),
            decreases self.routes.len() - i,
        {
            let r = &self.routes[i];
            if r.method == method && bytes_equal(&r.path, path) {
                return RouteTarget::Function(i);
            }
            i = i + 1;
        }
        RouteTarget::Render
    }

    /// The first function registered under exactly `path`, whatever its method.
    pub fn find_function(&self, path: &Vec<u8>) -> (r: Option<usize>)
        ensures
            match r {
                Some(i) => {
                    &&& i < self.spec_routes().len()
                    &&& self.spec_routes()[i as int].0 == path@
                    &&& forall|j: int| 0 <= j < i ==> (#[trigger] self.spec_routes()[j]).0 != path@
                },
                None => forall|j: int| 0 <= j < self.spec_routes().len() ==> (#[trigger] self.spec_routes()[j]).0 != path@,
            },
    {
        let mut i: usize = 0;
        while i < self.routes.len()
            invariant
                i <= self.routes@.len(),
                self.spec_routes().len() == self.routes@.len(),
                forall|j: int| 0 <= j < i ==> (#[trigger] self.spec_routes()[j]).0 != path@,
            decreases self.routes.len() - i,
        {
            if bytes_equal(&self.routes[i].path, path) {
                return Some(i);
            }
            i = i + 1;
        }
        None
    }
}

/// Byte-for-byte equality.
pub fn bytes_equal(a: &Vec<u8>, b: &Vec<u8>) -> (r: bool)
    ensures
        r == (a@ == b@),
{
    if a.len() != b.len() {
        return false;
    }
    let mut i: usize = 0;
    while i < a.len()
        invariant
            a.len() == b.len(),
            i <= a.len(),
            forall|j: int| 0 <= j < i ==> a@[j] == b@[j],
        decreases a.len() - i,
    {
        if a[i] != b[i] {
            return false;
        }
        i = i + 1;
    }
    assert(a@ =~= b@);
    true
}

/// A function call that is ready to run: the function's position, the request's fresh
/// context, and what the redirect rule needs once the call returns.
pub struct FunctionCall<V> {
    pub handler: usize,
    pub context: ServerContext<V>,
    pub hint: RedirectHint,
}

/// Prepares the call of the function registered under `path`: builds the request's
/// context, injects one value per provider, and reads the redirect hint. Fails with
/// `NoSuchFunction(path)` when no function is registered under `path`.
pub fn begin_function_call<V, F: ContextFactory<V>>(
    table: &RouteTable,
    providers: &ContextProviders<F>,
    path: Vec<u8>,
    req: RequestHead,
) -> (r: Result<FunctionCall<V>, GatewayError>)
    ensures
        match r {
            Ok(call) => {
                &&& call.handler < table.spec_routes().len()
                &&& table.spec_routes()[call.handler as int].0 == path@
                &&& forall|j: int| 0 <= j < call.handler ==> (#[trigger] table.spec_routes()[j]).0 != path@
                &&& call.context.request == req
                &&& call.context.staged.headers@.len() == 0
                &&& call.context.staged.status.is_none()
                &&& forall|j: int| 0 <= j < providers.spec_providers().len()
                    ==> crate::context::kind_pos(call.context.values@, #[trigger] providers.spec_providers()[j].kind).is_some()
                &&& crate::providers::distinct_kinds(providers.spec_providers()) ==> {
                    &&& call.context.values@.len() == providers.spec_providers().len()
                    &&& forall|j: int| 0 <= j < providers.spec_providers().len()
                        ==> (#[trigger] call.context.values@[j]).kind == providers.spec_providers()[j].kind
                }
                &&& call.hint.accepts_html == crate::response::accepts_html_exact(req.headers@)
                &&& match first_value(req.headers@, crate::response::referer_name()) {
                    Some(v) => call.hint.referer.is_some() && call.hint.referer.unwrap()@ == v,
                    None => call.hint.referer.is_none(),
                }
            },
            Err(e) => {
                &&& e == GatewayError::NoSuchFunction(path)
                &&& forall|j: int| 0 <= j < table.spec_routes().len() ==> (#[trigger] table.spec_routes()[j]).0 != path@
            },
        },
{
    match table.find_function(&path) {
        Some(handler) => {
            let hint = capture_redirect_hint(&req);
            let mut context = ServerContext::new(req);
            providers.inject(&mut context);
            Ok(FunctionCall { handler, context, hint })
        },
        None => Err(GatewayError::NoSuchFunction(path)),
    }
}

/// Status and headers after the redirect rule, from the function's own.
pub open spec fn redirected(accepts_html: bool, referer: Option<Seq<u8>>, status: u16, headers: HeaderSeq) -> (u16, HeaderSeq) {
    if redirect_fires(accepts_html, referer, headers) {
        (FOUND, headers.push((location_name(), referer.unwrap())))
    } else {
        (status, headers)
    }
}

/// The referer a hint holds, as bytes.
pub open spec fn referer_view(hint: &RedirectHint) -> Option<Seq<u8>> {
    match hint.referer {
        Some(v) => Some(v@),
        None => None,
    }
}

/// Completes a function call from the response it produced: applies the redirect rule,
/// then drains the context's staged response into it.
pub fn finish_function_call<V>(hint: &RedirectHint, head: ResponseHead, ctx: &mut ServerContext<V>) -> (r: ResponseHead)
    ensures
        ({
            let (s, h) = redirected(hint.accepts_html, referer_view(hint), head.status, head.headers@);
            &&& r.status == merged_status(s, old(ctx).staged.status)
            &&& r.headers@ == merged_headers(h, old(ctx).staged.headers@)
        }),
        final(ctx).staged.headers@.len() == 0,
        final(ctx).request == old(ctx).request,
        final(ctx).values == old(ctx).values,
{
    let mut head = head;
    apply_redirect(hint, &mut head);
    merge_staged(&mut head, ctx);
    head
}

/// Completes a render: drains the context's staged response into the streamed response.
pub fn finish_render<V>(head: ResponseHead, ctx: &mut ServerContext<V>) -> (r: ResponseHead)
    ensures
        r.status == merged_status(head.status, old(ctx).staged.status),
        r.headers@ == merged_headers(head.headers@, old(ctx).staged.headers@),
        final(ctx).staged.headers@.len() == 0,
        final(ctx).request == old(ctx).request,
        final(ctx).values == old(ctx).values,
{
    let mut head = head;
    merge_staged(&mut head, ctx);
    head
}

/// The redirect rule, seen in the final response. When the request asked for HTML and
/// named referer `R`, and nothing staged sets `location` or the status: a function
/// response without `location` ends as a 302 to `R`; one with `location: X` keeps `X` and
/// its status.
pub proof fn redirect_law(referer: Seq<u8>, status: u16, headers: HeaderSeq, staged: HeaderSeq)
    requires
        !has_name(staged, location_name()),
    ensures
        ({
            let (s, h) = redirected(true, Some(referer), status, headers);
            let fs = merged_status(s, None);
            let fh = merged_headers(h, staged);
            &&& !has_name(headers, location_name()) ==> fs == FOUND && first_value(fh, location_name()) == Some(referer)
            &&& has_name(headers, location_name()) ==> fs == status && first_value(fh, location_name()) == first_value(headers, location_name())
        }),
{
    let (s, h) = redirected(true, Some(referer), status, headers);
    crate::response::lemma_first_value_append(h, staged, location_name());
    if !has_name(headers, location_name()) {
        let e = (location_name(), referer);
        crate::headers::lemma_first_value_of_pushed(headers, e, location_name());
    }
}

} // verus!
