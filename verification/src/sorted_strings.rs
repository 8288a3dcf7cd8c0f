//! A set of strings kept in ascending order, each once: the order in which
//! alias names and completion words are listed.
use crate::text::{chars_of, views};
use vstd::prelude::*;

verus! {

/// `a` sorts before `b`: character by character by code point, a proper
/// prefix first (the order of `String`'s `Ord`, since UTF-8 keeps code
/// point order).
pub open spec fn seq_lt(a: Seq<char>, b: Seq<char>) -> bool
    decreases a.len(),
{
    if a.len() == 0 {
        b.len() > 0
    } else if b.len() == 0 {
        false
    } else if a[0] == b[0] {
        seq_lt(a.drop_first(), b.drop_first())
    } else {
        (a[0] as u32) < (b[0] as u32)
    }
}

/// Each element sorts before the next; so none occurs twice.
pub open spec fn strictly_sorted(s: Seq<Seq<char>>) -> bool {
    forall|i: int, j: int| 0 <= i < j < s.len() ==> seq_lt(#[trigger] s[i], #[trigger] s[j])
}

pub proof fn lemma_lt_irreflexive(a: Seq<char>)
    ensures
        !seq_lt(a, a),
    decreases a.len(),
{
    if a.len() > 0 {
        lemma_lt_irreflexive(a.drop_first());
    }
}

pub proof fn lemma_lt_total(a: Seq<char>, b: Seq<char>)
    ensures
        a == b || seq_lt(a, b) || seq_lt(b, a),
    decreases a.len(),
{
    if a.len() > 0 && b.len() > 0 && a[0] == b[0] {
        lemma_lt_total(a.drop_first(), b.drop_first());
        if a.drop_first() == b.drop_first() {
            assert(a =~= seq![a[0]] + a.drop_first());
            assert(b =~= seq![b[0]] + b.drop_first());
        }
    } else if a.len() == 0 && b.len() == 0 {
        assert(a =~= b);
    } else if a.len() > 0 && b.len() > 0 {
        vstd::utf8::char_u32_cast(a[0], a[0] as u32);
        vstd::utf8::char_u32_cast(b[0], b[0] as u32);
        assert((a[0] as u32) != (b[0] as u32));
    }
}

pub proof fn lemma_lt_asymmetric(a: Seq<char>, b: Seq<char>)
    ensures
        !(seq_lt(a, b) && seq_lt(b, a)),
    decreases a.len(),
{
    if a.len() > 0 && b.len() > 0 && a[0] == b[0] {
        lemma_lt_asymmetric(a.drop_first(), b.drop_first());
    }
}

pub proof fn lemma_lt_transitive(a: Seq<char>, b: Seq<char>, c: Seq<char>)
    requires
        seq_lt(a, b),
        seq_lt(b, c),
    ensures
        seq_lt(a, c),
    decreases a.len(),
{
    if a.len() > 0 && b.len() > 0 && c.len() > 0 && a[0] == b[0] && b[0] == c[0] {
        lemma_lt_transitive(a.drop_first(), b.drop_first(), c.drop_first());
    }
}

/// Whether `a` sorts before `b`.
pub fn str_lt(a: &str, b: &str) -> (r: bool)
    ensures
        r == seq_lt(a@, b@),
{
    let x = chars_of(a);
    let y = chars_of(b);
    let mut i: usize = 0;
    assert(x@.subrange(0, x@.len() as int) =~= x@);
    assert(y@.subrange(0, y@.len() as int) =~= y@);
    while i < x.len() && i < y.len() && x[i] == y[i]
        invariant
            0 <= i <= x.len(),
            i <= y.len(),
            x@ == a@,
            y@ == b@,
            seq_lt(a@, b@) == seq_lt(x@.subrange(i as int, x@.len() as int), y@.subrange(i as int, y@.len() as int)),
        decreases x.len() - i,
    {
        assert(x@.subrange(i as int, x@.len() as int).drop_first() =~= x@.subrange(i + 1, x@.len() as int));
        assert(y@.subrange(i as int, y@.len() as int).drop_first() =~= y@.subrange(i + 1, y@.len() as int));
        i = i + 1;
    }
    if i == x.len() {
        i < y.len()
    } else if i == y.len() {
        false
    } else {
        (x[i] as u32) < (y[i] as u32)
    }
}

/// Strings in ascending order, each once.
#[derive(Debug)]
pub struct SortedStrings {
    items: Vec<String>,
}

impl View for SortedStrings {
    type V = Seq<Seq<char>>;

    closed spec fn view(&self) -> Seq<Seq<char>> {
        views(self.items@)
    }
}

impl SortedStrings {
    #[verifier::type_invariant]
    closed spec fn inv(&self) -> bool {
        strictly_sorted(views(self.items@))
    }

    pub fn new() -> (r: SortedStrings)
        ensures
            r@ == Seq::<Seq<char>>::empty(),
    {
        let r = SortedStrings { items: Vec::new() };
        assert(views(r.items@) =~= Seq::<Seq<char>>::empty());
        r
    }

    /// Adds `s` unless it is already there, keeping the order.
    pub fn insert(&mut self, s: String)
        ensures
            final(self)@.to_set() == old(self)@.to_set().insert(s@),
            strictly_sorted(final(self)@),
    {
        proof {
            use_type_invariant(&*self);
        }
        let ghost old_items = views(self.items@);
        let mut i: usize = 0;
        while i < self.items.len() && str_lt(self.items[i].as_str(), s.as_str())
            invariant
                0 <= i <= self.items.len(),
                old_items == views(self.items@),
                strictly_sorted(old_items),
                forall|j: int| 0 <= j < i ==> seq_lt(#[trigger] old_items[j], s@),
            decreases self.items.len() - i,
        {
            i = i + 1;
        }
        if i < self.items.len() && crate::text::str_eq(self.items[i].as_str(), s.as_str()) {
            assert(old_items.to_set() =~= old_items.to_set().insert(s@)) by {
                assert(old_items[i as int] == s@);
            }
            return;
        }
        proof {
            if i < old_items.len() {
                lemma_lt_total(old_items[i as int], s@);
            }
        }
        let mut items: Vec<String> = Vec::new();
        std::mem::swap(&mut items, &mut self.items);
        let ghost sv = s@;
        items.insert(i, s);
        let ghost new_items = views(items@);
        assert(new_items =~= old_items.insert(i as int, sv));
        proof {
            assert forall|a: int, b: int| 0 <= a < b < new_items.len() implies seq_lt(
                #[trigger] new_items[a],
                #[trigger] new_items[b],
            ) by {
                if b < i {
                } else if b == i {
                } else if a < i {
                    assert(new_items[b] == old_items[b - 1]);
                    if b - 1 > i {
                        assert(seq_lt(old_items[i as int], old_items[b - 1]));
                        lemma_lt_transitive(sv, old_items[i as int], old_items[b - 1]);
                    }
                    lemma_lt_transitive(old_items[a], sv, old_items[b - 1]);
                } else if a == i {
                    assert(new_items[b] == old_items[b - 1]);
                    if b - 1 > i {
                        lemma_lt_transitive(sv, old_items[i as int], old_items[b - 1]);
                    }
                } else {
                    assert(new_items[a] == old_items[a - 1]);
                    assert(new_items[b] == old_items[b - 1]);
                }
            }
            assert(new_items.to_set() =~= old_items.to_set().insert(sv)) by {
                assert forall|x: Seq<char>| new_items.to_set().contains(x) implies old_items.to_set().insert(
                    sv,
                ).contains(x) by {
                    let k = choose|k: int| 0 <= k < new_items.len() && new_items[k] == x;
                    if k < i {
                        assert(old_items[k] == x);
                    } else if k > i {
                        assert(old_items[k - 1] == x);
                    }
                }
                assert forall|x: Seq<char>| old_items.to_set().insert(sv).contains(x) implies new_items.to_set().contains(
                    x,
                ) by {
                    if x == sv {
                        assert(new_items[i as int] == x);
                    } else {
                        let k = choose|k: int| 0 <= k < old_items.len() && old_items[k] == x;
                        if k < i {
                            assert(new_items[k] == x);
                        } else {
                            assert(new_items[k + 1] == x);
                        }
                    }
                }
            }
        }
        self.items = items;
    }

    /// The strings, in ascending order.
    pub fn to_vec(&self) -> (r: Vec<String>)
        ensures
            views(r@) == self@,
            strictly_sorted(self@),
    {
        proof {
            use_type_invariant(self);
        }
        crate::text::clone_strings(&self.items)
    }

    pub fn len(&self) -> (r: usize)
        ensures
            r == self@.len(),
    {
        self.items.len()
    }
}

} // verus!
