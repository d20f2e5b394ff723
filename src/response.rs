use vstd::prelude::*;

use crate::bytes::{contains_bytes, contains_seq, is_visible_text, text_html, text_html_bytes, visible_text};
use crate::context::{RequestHead, ServerContext};
use crate::headers::{first_value, has_name, is_named, HeaderList, HeaderSeq};

verus! {

/// The header name `location`.
pub open spec fn location_name() -> Seq<u8> {
    seq![108u8, 111u8, 99u8, 97u8, 116u8, 105u8, 111u8, 110u8]
}

/// The header name `accept`.
pub open spec fn accept_name() -> Seq<u8> {
    seq![97u8, 99u8, 99u8, 101u8, 112u8, 116u8]
}

/// The header name `referer`.
pub open spec fn referer_name() -> Seq<u8> {
    seq![114u8, 101u8, 102u8, 101u8, 114u8, 101u8, 114u8]
}

/// The header name `location`.
pub fn location_bytes() -> (r: Vec<u8>)
    ensures
        r@ == location_name(),
{
    let r = vec![108u8, 111u8, 99u8, 97u8, 116u8, 105u8, 111u8, 110u8];
    assert(r@ =~= location_name());
    r
}

/// The header name `accept`.
pub fn accept_bytes() -> (r: Vec<u8>)
    ensures
        r@ == accept_name(),
{
    let r = vec![97u8, 99u8, 99u8, 101u8, 112u8, 116u8];
    assert(r@ =~= accept_name());
    r
}

/// The header name `referer`.
pub fn referer_bytes() -> (r: Vec<u8>)
    ensures
        r@ == referer_name(),
{
    let r = vec![114u8, 101u8, 102u8, 101u8, 114u8, 101u8, 114u8];
    assert(r@ =~= referer_name());
    r
}

/// Status 302, Found.
pub const FOUND: u16 = 302;

/// Status and headers of a response under construction; its body travels apart.
pub struct ResponseHead {
    pub status: u16,
    pub headers: HeaderList,
}

/// Headers after merging staged ones: a staged `location` replaces the response's own,
/// every other name accumulates, and all staged lines come last, in order.
pub open spec fn merged_headers(base: HeaderSeq, staged: HeaderSeq) -> HeaderSeq {
    if has_name(staged, location_name()) {
        crate::headers::without_name(base, location_name()) + staged
    } else {
        base + staged
    }
}

/// Status after merging: a staged status overrides.
pub open spec fn merged_status(base: u16, staged: Option<u16>) -> u16 {
    match staged {
        Some(s) => s,
        None => base,
    }
}

/// Drains the context's staged response into `head`.
pub fn merge_staged<V>(head: &mut ResponseHead, ctx: &mut ServerContext<V>)
    ensures
        final(head).headers@ == merged_headers(old(head).headers@, old(ctx).staged.headers@),
        final(head).status == merged_status(old(head).status, old(ctx).staged.status),
        final(ctx).staged.headers@.len() == 0,
        final(ctx).staged.status == old(ctx).staged.status,
        final(ctx).request == old(ctx).request,
        final(ctx).values == old(ctx).values,
{
    let staged = ctx.drain_staged_headers();
    let location = location_bytes();
    if staged.contains_name(&location) {
        head.headers.remove_name(&location);
    }
    head.headers.append_all(staged);
    match ctx.staged.status {
        Some(s) => {
            head.status = s;
        },
        None => {},
    }
}

/// What a function call remembers of its request to decide on a redirect.
pub struct RedirectHint {
    pub accepts_html: bool,
    pub referer: Option<Vec<u8>>,
}

/// The request's first `accept` value reads as text and names HTML (exact case).
pub open spec fn accepts_html_exact(headers: HeaderSeq) -> bool {
    match first_value(headers, accept_name()) {
        Some(v) => is_visible_text(v) && contains_seq(v, text_html()),
        None => false,
    }
}

/// Reads the redirect hint off a request.
pub fn capture_redirect_hint(req: &RequestHead) -> (r: RedirectHint)
    ensures
        r.accepts_html == accepts_html_exact(req.headers@),
        match first_value(req.headers@, referer_name()) {
            Some(v) => r.referer.is_some() && r.referer.unwrap()@ == v,
            None => r.referer.is_none(),
        },
{
    let accept_name = accept_bytes();
    let accepts_html = match req.headers.get(&accept_name) {
        Some(v) => visible_text(v) && contains_bytes(v, &text_html_bytes()),
        None => false,
    };
    let referer_name = referer_bytes();
    let referer = match req.headers.get(&referer_name) {
        Some(v) => Some(crate::headers::copy_bytes(v)),
        None => None,
    };
    RedirectHint { accepts_html, referer }
}

/// Whether the redirect rule fires for this hint and these response headers.
pub open spec fn redirect_fires(accepts_html: bool, referer: Option<Seq<u8>>, headers: HeaderSeq) -> bool {
    accepts_html && referer.is_some() && !has_name(headers, location_name())
}

/// Sends a plain form post back to the page it came from: when the request asked for
/// HTML and named a referer, and the response sets no `location`, the response becomes a
/// 302 to the referer. Otherwise it is left as it is.
pub fn apply_redirect(hint: &RedirectHint, head: &mut ResponseHead)
    ensures
        ({
            let referer = match hint.referer {
                Some(v) => Some(v@),
                None => None,
            };
            if redirect_fires(hint.accepts_html, referer, old(head).headers@) {
                &&& final(head).status == FOUND
                &&& final(head).headers@ == old(head).headers@.push((location_name(), referer.unwrap()))
            } else {
                &&& final(head).status == old(head).status
                &&& final(head).headers@ == old(head).headers@
            }
        }),
{
    if hint.accepts_html {
        match &hint.referer {
            Some(referer) => {
                let location = location_bytes();
                if !head.headers.contains_name(&location) {
                    head.status = FOUND;
                    head.headers.append(location, crate::headers::copy_bytes(referer));
                }
            },
            None => {},
        }
    }
}

/// Lines without `name` appended after `s` do not change its first value.
pub proof fn lemma_first_value_append(s: HeaderSeq, t: HeaderSeq, name: Seq<u8>)
    requires
        !has_name(t, name),
    ensures
        first_value(s + t, name) == first_value(s, name),
    decreases t.len(),
{
    if t.len() == 0 {
        assert(s + t =~= s);
    } else {
        assert(!has_name(t.drop_last(), name)) by {
            if has_name(t.drop_last(), name) {
                let i = choose|i: int| 0 <= i < t.drop_last().len() && is_named(#[trigger] t.drop_last()[i], name);
                assert(is_named(t[i], name));
            }
        }
        lemma_first_value_append(s, t.drop_last(), name);
        assert((s + t).drop_last() =~= s + t.drop_last());
        assert(!is_named(t[t.len() - 1], name));
        crate::headers::lemma_first_value_some(s + t.drop_last(), name);
        crate::headers::lemma_first_value_some(s, name);
    }
}

/// Every staged header line appears in the merged headers.
pub proof fn merge_keeps_staged_headers(base: HeaderSeq, staged: HeaderSeq)
    ensures
        forall|i: int| 0 <= i < staged.len() ==> merged_headers(base, staged).contains(#[trigger] staged[i]),
{
    let m = merged_headers(base, staged);
    assert forall|i: int| 0 <= i < staged.len() implies m.contains(#[trigger] staged[i]) by {
        let k = m.len() - staged.len() + i;
        assert(m[k] == staged[i]);
    }
}

} // verus!
