use vstd::prelude::*;

use crate::bytes::{bytes_eq_ignore_case, eq_ignore_case};

verus! {

/// One header line: a name and its raw value.
pub struct HeaderEntry {
    pub name: Vec<u8>,
    pub value: Vec<u8>,
}

impl HeaderEntry {
    pub open spec fn view(&self) -> (Seq<u8>, Seq<u8>) {
        (self.name@, self.value@)
    }

    pub fn new(name: Vec<u8>, value: Vec<u8>) -> (r: HeaderEntry)
        ensures
            r.view() == (name@, value@),
    {
        HeaderEntry { name, value }
    }

    /// A copy with the same name and value.
    pub fn duplicate(&self) -> (r: HeaderEntry)
        ensures
            r.view() == self.view(),
    {
        let name = copy_bytes(&self.name);
        let value = copy_bytes(&self.value);
        HeaderEntry { name, value }
    }
}

/// A copy of a byte string.
pub fn copy_bytes(v: &Vec<u8>) -> (r: Vec<u8>)
    ensures
        r@ == v@,
{
    let r = v.clone();
    assert(r@ =~= v@);
    r
}

/// Header lines as (name, value) pairs, in order.
pub type HeaderSeq = Seq<(Seq<u8>, Seq<u8>)>;

/// The entry carries the header `name` (names compare up to ASCII case).
pub open spec fn is_named(e: (Seq<u8>, Seq<u8>), name: Seq<u8>) -> bool {
    eq_ignore_case(e.0, name)
}

/// Some entry of `s` carries the header `name`.
pub open spec fn has_name(s: HeaderSeq, name: Seq<u8>) -> bool {
    exists|i: int| 0 <= i < s.len() && is_named(#[trigger] s[i], name)
}

/// The value of the first entry of `s` that carries `name`, if any.
pub open spec fn first_value(s: HeaderSeq, name: Seq<u8>) -> Option<Seq<u8>>
    decreases s.len(),
{
    if s.len() == 0 {
        None
    } else {
        match first_value(s.drop_last(), name) {
            Some(v) => Some(v),
            None => if is_named(s.last(), name) {
                Some(s.last().1)
            } else {
                None
            },
        }
    }
}

/// `s` without the entries that carry `name`, the others in order.
pub open spec fn without_name(s: HeaderSeq, name: Seq<u8>) -> HeaderSeq
    decreases s.len(),
{
    if s.len() == 0 {
        s
    } else {
        let rest = without_name(s.drop_last(), name);
        if is_named(s.last(), name) {
            rest
        } else {
            rest.push(s.last())
        }
    }
}

/// A first value exists exactly when some entry carries the name.
pub proof fn lemma_first_value_some(s: HeaderSeq, name: Seq<u8>)
    ensures
        first_value(s, name).is_some() == has_name(s, name),
    decreases s.len(),
{
    if s.len() > 0 {
        lemma_first_value_some(s.drop_last(), name);
        if has_name(s.drop_last(), name) {
            let i = choose|i: int| 0 <= i < s.drop_last().len() && is_named(#[trigger] s.drop_last()[i], name);
            assert(is_named(s[i], name));
        }
        if has_name(s, name) && !is_named(s.last(), name) {
            let i = choose|i: int| 0 <= i < s.len() && is_named(#[trigger] s[i], name);
            assert(is_named(s.drop_last()[i], name));
        }
    }
}

/// Removing a name leaves no entry that carries it and keeps every other entry.
pub proof fn lemma_without_name(s: HeaderSeq, name: Seq<u8>)
    ensures
        !has_name(without_name(s, name), name),
        forall|e: (Seq<u8>, Seq<u8>)| #[trigger] without_name(s, name).contains(e) <==> (s.contains(e) && !is_named(e, name)),
    decreases s.len(),
{
    if s.len() > 0 {
        lemma_without_name(s.drop_last(), name);
        let rest = without_name(s.drop_last(), name);
        assert forall|e: (Seq<u8>, Seq<u8>)| #[trigger] s.contains(e) <==> (s.drop_last().contains(e) || e == s.last()) by {
            if s.contains(e) {
                let i = choose|i: int| 0 <= i < s.len() && s[i] == e;
                if i < s.len() - 1 {
                    assert(s.drop_last()[i] == e);
                }
            }
            if s.drop_last().contains(e) {
                let i = choose|i: int| 0 <= i < s.drop_last().len() && s.drop_last()[i] == e;
                assert(s[i] == e);
            }
            if e == s.last() {
                assert(s[s.len() - 1] == e);
            }
        }
        if !is_named(s.last(), name) {
            let r = rest.push(s.last());
            assert forall|e: (Seq<u8>, Seq<u8>)| #[trigger] r.contains(e) <==> (rest.contains(e) || e == s.last()) by {
                if r.contains(e) {
                    let i = choose|i: int| 0 <= i < r.len() && r[i] == e;
                    if i < rest.len() {
                        assert(rest[i] == e);
                    }
                }
                if rest.contains(e) {
                    let i = choose|i: int| 0 <= i < rest.len() && rest[i] == e;
                    assert(r[i] == e);
                }
                if e == s.last() {
                    assert(r[r.len() - 1] == e);
                }
            }
            if has_name(r, name) {
                let i = choose|i: int| 0 <= i < r.len() && is_named(#[trigger] r[i], name);
                if i < rest.len() {
                    assert(is_named(rest[i], name));
                }
            }
        }
    }
}

/// An ordered multimap of header lines, as a message carries them.
pub struct HeaderList {
    pub entries: Vec<HeaderEntry>,
}

impl View for HeaderList {
    type V = HeaderSeq;

    open spec fn view(&self) -> HeaderSeq {
        self.entries@.map_values(|e: HeaderEntry| e.view())
    }
}

impl HeaderList {
    pub fn new() -> (r: HeaderList)
        ensures
            r@ == Seq::<(Seq<u8>, Seq<u8>)>::empty(),
    {
        let r = HeaderList { entries: Vec::new() };
        assert(r@ =~= Seq::<(Seq<u8>, Seq<u8>)>::empty());
        r
    }

    pub fn len(&self) -> (r: usize)
        ensures
            r == self@.len(),
    {
        self.entries.len()
    }

    /// Adds a line after the others; lines of the same name accumulate.
    pub fn append(&mut self, name: Vec<u8>, value: Vec<u8>)
        ensures
            final(self)@ == old(self)@.push((name@, value@)),
    {
        self.entries.push(HeaderEntry { name, value });
        assert(final(self)@ =~= old(self)@.push((name@, value@)));
    }

    /// The value of the first line named `name`.
    pub fn get(&self, name: &Vec<u8>) -> (r: Option<&Vec<u8>>)
        ensures
            match r {
                Some(v) => first_value(self@, name@) == Some(v@),
                None => first_value(self@, name@) == None::<Seq<u8>>,
            },
    {
        let mut i: usize = 0;
        while i < self.entries.len()
            invariant
                i <= self@.len(),
                self@.len() == self.entries@.len(),
                first_value(self@.subrange(0, i as int), name@) == None::<Seq<u8>>,
            decreases self.entries.len() - i,
        {
            let e = &self.entries[i];
            assert(self@.subrange(0, i + 1 as int).drop_last() =~= self@.subrange(0, i as int));
            if bytes_eq_ignore_case(&e.name, name) {
                assert(first_value(self@.subrange(0, i + 1 as int), name@) == Some(e.value@));
                proof {
                    lemma_first_value_prefix(self@, name@, i + 1);
                }
                return Some(&e.value);
            }
            i = i + 1;
        }
        assert(self@.subrange(0, i as int) =~= self@);
        None
    }

    /// There is a line named `name`.
    pub fn contains_name(&self, name: &Vec<u8>) -> (r: bool)
        ensures
            r == has_name(self@, name@),
    {
        proof {
            lemma_first_value_some(self@, name@);
        }
        self.get(name).is_some()
    }

    /// Removes every line named `name`; the others keep their order.
    pub fn remove_name(&mut self, name: &Vec<u8>)
        ensures
            final(self)@ == without_name(old(self)@, name@),
            !has_name(final(self)@, name@),
    {
        let mut kept: Vec<HeaderEntry> = Vec::new();
        let mut i: usize = 0;
        while i < self.entries.len()
            invariant
                i <= self@.len(),
                self@.len() == self.entries@.len(),
                kept@.map_values(|e: HeaderEntry| e.view()) == without_name(self@.subrange(0, i as int), name@),
            decreases self.entries.len() - i,
        {
            let e = &self.entries[i];
            assert(self@.subrange(0, i + 1 as int).drop_last() =~= self@.subrange(0, i as int));
            if !bytes_eq_ignore_case(&e.name, name) {
                let c = e.duplicate();
                let ghost before = kept@;
                kept.push(c);
                assert(kept@.map_values(|e: HeaderEntry| e.view()) =~= before.map_values(|e: HeaderEntry| e.view()).push(c.view()));
            }
            i = i + 1;
        }
        assert(self@.subrange(0, i as int) =~= self@);
        proof {
            lemma_without_name(self@, name@);
        }
        self.entries = kept;
    }

    /// Sets `name` to the single value `value`, dropping its earlier lines.
    pub fn insert(&mut self, name: Vec<u8>, value: Vec<u8>)
        ensures
            final(self)@ == without_name(old(self)@, name@).push((name@, value@)),
            first_value(final(self)@, name@) == Some(value@),
    {
        self.remove_name(&name);
        let ghost before = self@;
        self.append(name, value);
        proof {
            lemma_first_value_of_pushed(before, (name@, value@), name@);
        }
    }

    /// Hands out every line, in order, and leaves the list empty.
    pub fn drain(&mut self) -> (r: HeaderList)
        ensures
            r@ == old(self)@,
            final(self)@ == Seq::<(Seq<u8>, Seq<u8>)>::empty(),
    {
        let mut out = HeaderList::new();
        core::mem::swap(&mut out, self);
        out
    }

    /// Adds every line of `other` after the present ones, in order.
    pub fn append_all(&mut self, other: HeaderList)
        ensures
            final(self)@ == old(self)@ + other@,
    {
        let mut other = other;
        let ghost start = self@;
        let ghost src = other@;
        let mut moved: Vec<HeaderEntry> = Vec::new();
        core::mem::swap(&mut moved, &mut other.entries);
        let mut i: usize = 0;
        let n = moved.len();
        while i < n
            invariant
                n == moved@.len(),
                i <= n,
                src == moved@.map_values(|e: HeaderEntry| e.view()),
                self@ == start + src.subrange(0, i as int),
            decreases n - i,
        {
            let c = moved[i].duplicate();
            let ghost before = self@;
            self.entries.push(c);
            assert(self@ =~= before.push(c.view()));
            assert(src.subrange(0, i + 1 as int) =~= src.subrange(0, i as int).push(src[i as int]));
            i = i + 1;
        }
        assert(src.subrange(0, n as int) =~= src);
    }
}

/// The value of a line named `name` that is the only such line, at the end, is the first value.
pub proof fn lemma_first_value_of_pushed(s: HeaderSeq, e: (Seq<u8>, Seq<u8>), name: Seq<u8>)
    requires
        !has_name(s, name),
        is_named(e, name),
    ensures
        first_value(s.push(e), name) == Some(e.1),
{
    lemma_first_value_some(s, name);
    assert(s.push(e).drop_last() =~= s);
}

/// The first value of a prefix that has one is the first value of the whole.
pub proof fn lemma_first_value_prefix(s: HeaderSeq, name: Seq<u8>, k: int)
    requires
        0 <= k <= s.len(),
        first_value(s.subrange(0, k), name).is_some(),
    ensures
        first_value(s, name) == first_value(s.subrange(0, k), name),
    decreases s.len() - k,
{
    if k < s.len() {
        assert(s.subrange(0, k + 1).drop_last() =~= s.subrange(0, k));
        lemma_first_value_prefix(s, name, k + 1);
    } else {
        assert(s.subrange(0, k) =~= s);
    }
}

} // verus!
