use vstd::prelude::*;

use crate::headers::{HeaderList, HeaderSeq};

verus! {

/// Request methods.
#[derive(PartialEq, Eq, Structural, Clone, Copy, Debug)]
pub enum Method {
    Get,
    Post,
    Put,
    Delete,
    Patch,
    Head,
    Options,
    Connect,
    Trace,
    Other,
}

/// What the gateway reads of an inbound request.
pub struct RequestHead {
    pub method: Method,
    /// The path of the request target.
    pub path: Vec<u8>,
    /// Path and query of the request target, absent when the target has neither.
    pub path_and_query: Option<Vec<u8>>,
    pub headers: HeaderList,
}

/// Response changes that user code stages while a request is handled.
pub struct StagedResponse {
    pub headers: HeaderList,
    pub status: Option<u16>,
}

impl StagedResponse {
    pub fn new() -> (r: StagedResponse)
        ensures
            r.headers@ == Seq::<(Seq<u8>, Seq<u8>)>::empty(),
            r.status == None::<u16>,
    {
        StagedResponse { headers: HeaderList::new(), status: None }
    }
}

/// A value injected into a context, filed under the kind it belongs to.
pub struct ContextValue<V> {
    pub kind: u64,
    pub value: V,
}

/// Position of the last value of `kind` in `s`.
pub open spec fn kind_pos<V>(s: Seq<ContextValue<V>>, kind: u64) -> Option<int>
    decreases s.len(),
{
    if s.len() == 0 {
        None
    } else if s.last().kind == kind {
        Some(s.len() - 1)
    } else {
        kind_pos(s.drop_last(), kind)
    }
}

/// `s` after storing `value` under `kind`: an earlier value of that kind is replaced.
pub open spec fn with_value<V>(s: Seq<ContextValue<V>>, kind: u64, value: V) -> Seq<ContextValue<V>> {
    match kind_pos(s, kind) {
        Some(i) => s.update(i, ContextValue { kind, value }),
        None => s.push(ContextValue { kind, value }),
    }
}

/// The kind's position, when there is one, holds that kind; there is none exactly when no
/// value has it.
pub proof fn lemma_kind_pos<V>(s: Seq<ContextValue<V>>, kind: u64)
    ensures
        kind_pos(s, kind).is_none() <==> (forall|i: int| 0 <= i < s.len() ==> (#[trigger] s[i]).kind != kind),
        match kind_pos(s, kind) {
            Some(i) => 0 <= i < s.len() && s[i].kind == kind,
            None => true,
        },
    decreases s.len(),
{
    if s.len() > 0 {
        lemma_kind_pos(s.drop_last(), kind);
        if s.last().kind != kind {
            assert forall|i: int| 0 <= i < s.len() - 1 implies (#[trigger] s[i]).kind == s.drop_last()[i].kind by {}
        }
    }
}

/// The per-request shared state: the inbound request, the staged response, and the
/// injected values.
pub struct ServerContext<V> {
    pub request: RequestHead,
    pub staged: StagedResponse,
    pub values: Vec<ContextValue<V>>,
}

impl<V> ServerContext<V> {
    /// A context for one request, with nothing staged and nothing injected.
    pub fn new(request: RequestHead) -> (r: ServerContext<V>)
        ensures
            r.request == request,
            r.staged.headers@ == Seq::<(Seq<u8>, Seq<u8>)>::empty(),
            r.staged.status == None::<u16>,
            r.values@ == Seq::<ContextValue<V>>::empty(),
    {
        ServerContext { request, staged: StagedResponse::new(), values: Vec::new() }
    }

    /// Stores `value` under `kind`; the last value stored under a kind wins.
    pub fn insert_context_value(&mut self, kind: u64, value: V)
        ensures
            final(self).values@ == with_value(old(self).values@, kind, value),
            final(self).request == old(self).request,
            final(self).staged == old(self).staged,
    {
        let pos = self.find_kind(kind);
        match pos {
            Some(i) => {
                self.values.set(i, ContextValue { kind, value });
            },
            None => {
                self.values.push(ContextValue { kind, value });
            },
        }
    }

    /// The value stored under `kind`, if any.
    pub fn get_context_value(&self, kind: u64) -> (r: Option<&V>)
        ensures
            match kind_pos(self.values@, kind) {
                Some(i) => r == Some(&self.values@[i].value),
                None => r.is_none(),
            },
    {
        match self.find_kind(kind) {
            Some(i) => Some(&self.values[i].value),
            None => None,
        }
    }

    fn find_kind(&self, kind: u64) -> (r: Option<usize>)
        ensures
            r.is_some() == kind_pos(self.values@, kind).is_some(),
            r.is_some() ==> r.unwrap() as int == kind_pos(self.values@, kind).unwrap()
                && r.unwrap() < self.values@.len(),
    {
        let mut i: usize = self.values.len();
        assert(self.values@.subrange(0, i as int) =~= self.values@);
        proof {
            lemma_kind_pos(self.values@, kind);
        }
        while i > 0
            invariant
                i <= self.values@.len(),
                kind_pos(self.values@, kind) == kind_pos(self.values@.subrange(0, i as int), kind),
            decreases i,
        {
            assert(self.values@.subrange(0, i as int).drop_last() =~= self.values@.subrange(0, i - 1));
            if self.values[i - 1].kind == kind {
                return Some(i - 1);
            }
            i = i - 1;
        }
        None
    }

    /// The staged response, as it stands.
    pub fn staged_response(&self) -> (r: &StagedResponse)
        ensures
            r == &self.staged,
    {
        &self.staged
    }

    /// Stages one more response header; headers of the same name accumulate.
    pub fn stage_header(&mut self, name: Vec<u8>, value: Vec<u8>)
        ensures
            final(self).staged.headers@ == old(self).staged.headers@.push((name@, value@)),
            final(self).staged.status == old(self).staged.status,
            final(self).request == old(self).request,
            final(self).values == old(self).values,
    {
        self.staged.headers.append(name, value);
    }

    /// Stages a status that overrides the response's own.
    pub fn stage_status(&mut self, status: u16)
        ensures
            final(self).staged.status == Some(status),
            final(self).staged.headers == old(self).staged.headers,
            final(self).request == old(self).request,
            final(self).values == old(self).values,
    {
        self.staged.status = Some(status);
    }

    /// Takes every staged header and leaves none staged.
    pub fn drain_staged_headers(&mut self) -> (r: HeaderList)
        ensures
            r@ == old(self).staged.headers@,
            final(self).staged.headers@ == drained(old(self).staged.headers@),
            final(self).staged.status == old(self).staged.status,
            final(self).request == old(self).request,
            final(self).values == old(self).values,
    {
        self.staged.headers.drain()
    }
}

/// What stays staged after a drain.
pub open spec fn drained(staged: HeaderSeq) -> HeaderSeq {
    Seq::empty()
}

/// Draining consumes: a second drain right after the first hands out nothing.
pub proof fn drain_twice_yields_nothing(staged: HeaderSeq)
    ensures
        drained(drained(staged)).len() == 0,
        drained(staged).len() == 0,
{
}

} // verus!
