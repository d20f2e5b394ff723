use vstd::prelude::*;

use crate::context::{kind_pos, lemma_kind_pos, ServerContext};

verus! {

/// Produces a fresh value to inject into a request's context.
pub trait ContextFactory<V> {
    fn produce(&self) -> V;
}

/// One factory, with the kind its values are filed under.
pub struct ContextProvider<F> {
    pub kind: u64,
    pub factory: F,
}

/// The ordered list of factories whose values every function call receives.
pub struct ContextProviders<F> {
    providers: Vec<ContextProvider<F>>,
}

/// The kinds of `s` are pairwise distinct.
pub open spec fn distinct_kinds<F>(s: Seq<ContextProvider<F>>) -> bool {
    forall|i: int, j: int| 0 <= i < j < s.len() ==> (#[trigger] s[i]).kind != (#[trigger] s[j]).kind
}

impl<F> ContextProviders<F> {
    pub closed spec fn spec_providers(&self) -> Seq<ContextProvider<F>> {
        self.providers@
    }

    /// A registry of the given factories, in order; it does not change afterwards.
    pub fn new(providers: Vec<ContextProvider<F>>) -> (r: ContextProviders<F>)
        ensures
            r.spec_providers() == providers@,
    {
        ContextProviders { providers }
    }

    pub fn len(&self) -> (r: usize)
        ensures
            r == self.spec_providers().len(),
    {
        self.providers.len()
    }

    /// Injects one freshly produced value per factory, in order, into `ctx`.
    pub fn inject<V>(&self, ctx: &mut ServerContext<V>) where F: ContextFactory<V>
        ensures
            final(ctx).request == old(ctx).request,
            final(ctx).staged == old(ctx).staged,
            forall|j: int| 0 <= j < self.spec_providers().len()
                ==> kind_pos(final(ctx).values@, #[trigger] self.spec_providers()[j].kind).is_some(),
            old(ctx).values@.len() == 0 && distinct_kinds(self.spec_providers()) ==> {
                &&& final(ctx).values@.len() == self.spec_providers().len()
                &&& forall|j: int| 0 <= j < self.spec_providers().len()
                    ==> (#[trigger] final(ctx).values@[j]).kind == self.spec_providers()[j].kind
            },
    {
        let ghost fresh = ctx.values@.len() == 0 && distinct_kinds(self.providers@);
        let mut i: usize = 0;
        while i < self.providers.len()
            invariant
                i <= self.providers@.len(),
                ctx.request == old(ctx).request,
                ctx.staged == old(ctx).staged,
                forall|j: int| 0 <= j < i ==> kind_pos(ctx.values@, #[trigger] self.providers@[j].kind).is_some(),
                fresh == (old(ctx).values@.len() == 0 && distinct_kinds(self.providers@)),
                fresh ==> ctx.values@.len() == i,
                fresh ==> forall|j: int| 0 <= j < i ==> (#[trigger] ctx.values@[j]).kind == self.providers@[j].kind,
            decreases self.providers.len() - i,
        {
            let p = &self.providers[i];
            let v = p.factory.produce();
            let ghost before = ctx.values@;
            proof {
                lemma_kind_pos(before, p.kind);
                if fresh {
                    assert forall|m: int| 0 <= m < before.len() implies (#[trigger] before[m]).kind != p.kind by {
                        assert(self.providers@[m].kind != self.providers@[i as int].kind);
                    }
                }
            }
            ctx.insert_context_value(p.kind, v);
            proof {
                let after = ctx.values@;
                assert(kind_pos(after, p.kind).is_some()) by {
                    lemma_kind_pos(after, p.kind);
                    match kind_pos(before, p.kind) {
                        Some(k) => {
                            assert(after[k].kind == p.kind);
                        },
                        None => {
                            assert(after[after.len() - 1].kind == p.kind);
                        },
                    }
                }
                assert forall|j: int| 0 <= j < i implies kind_pos(after, #[trigger] self.providers@[j].kind).is_some() by {
                    let kj = self.providers@[j].kind;
                    lemma_kind_pos(before, kj);
                    lemma_kind_pos(after, kj);
                    let k = kind_pos(before, kj).unwrap();
                    assert(after[k].kind == kj);
                }
            }
            i = i + 1;
        }
    }
}

} // verus!
