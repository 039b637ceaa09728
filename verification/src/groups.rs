//! Group filters: the set of selected groups, how a filter string becomes
//! such a set, and how group names are shown.
use vstd::prelude::*;
use vstd::string::StringExecFns;
use crate::text::{
    chars_of, split, split_chars, starts_with, starts_with_chars, string_of, to_lowercase,
    to_uppercase, trim, trim_chars, unicode_lower, unicode_upper,
};
use crate::html::string_views;
use crate::parser::{active_filters, active_group_filters, single_byte};

verus! {

// ---------------------------------------------------------------------------
// Order of texts
// ---------------------------------------------------------------------------

/// `a` comes before `b` in the order of `str`'s `Ord`: lexicographic by
/// code point.
pub open spec fn text_lt(a: Seq<char>, b: Seq<char>) -> bool
    decreases a.len(),
{
    if a.len() == 0 {
        b.len() > 0
    } else if b.len() == 0 {
        false
    } else if a[0] != b[0] {
        a[0] < b[0]
    } else {
        text_lt(a.drop_first(), b.drop_first())
    }
}

pub proof fn lemma_text_lt_irreflexive(a: Seq<char>)
    ensures
        !text_lt(a, a),
    decreases a.len(),
{
    if a.len() > 0 {
        lemma_text_lt_irreflexive(a.drop_first());
    }
}

pub proof fn lemma_text_lt_total(a: Seq<char>, b: Seq<char>)
    ensures
        a == b || text_lt(a, b) || text_lt(b, a),
    decreases a.len(),
{
    if a.len() > 0 && b.len() > 0 && a[0] == b[0] {
        lemma_text_lt_total(a.drop_first(), b.drop_first());
        if a.drop_first() == b.drop_first() {
            assert(a =~= seq![a[0]] + a.drop_first());
            assert(b =~= seq![b[0]] + b.drop_first());
        }
    } else if a.len() == 0 && b.len() == 0 {
        assert(a =~= b);
    }
}

pub proof fn lemma_text_lt_asymmetric(a: Seq<char>, b: Seq<char>)
    requires
        text_lt(a, b),
    ensures
        !text_lt(b, a),
    decreases a.len(),
{
    if a.len() > 0 && b.len() > 0 && a[0] == b[0] {
        lemma_text_lt_asymmetric(a.drop_first(), b.drop_first());
    }
}

pub proof fn lemma_text_lt_transitive(a: Seq<char>, b: Seq<char>, c: Seq<char>)
    requires
        text_lt(a, b),
        text_lt(b, c),
    ensures
        text_lt(a, c),
    decreases a.len(),
{
    if a.len() > 0 && b.len() > 0 && c.len() > 0 && a[0] == b[0] && b[0] == c[0] {
        lemma_text_lt_transitive(a.drop_first(), b.drop_first(), c.drop_first());
    }
}

/// Compares two texts in `str` order.
pub(crate) fn text_less(a: &[char], b: &[char]) -> (r: bool)
    ensures
        r == text_lt(a@, b@),
{
    let mut k: usize = 0;
    assert(a@.skip(0) =~= a@);
    assert(b@.skip(0) =~= b@);
    while k < a.len() && k < b.len() && a[k] == b[k]
        invariant
            k <= a@.len(),
            k <= b@.len(),
            text_lt(a@.skip(k as int), b@.skip(k as int)) == text_lt(a@, b@),
        decreases a@.len() - k,
    {
        assert(a@.skip(k as int).drop_first() =~= a@.skip(k + 1));
        assert(b@.skip(k as int).drop_first() =~= b@.skip(k + 1));
        k = k + 1;
    }
    if k == a.len() {
        k < b.len()
    } else if k == b.len() {
        false
    } else {
        assert(a@.skip(k as int)[0] == a@[k as int]);
        assert(b@.skip(k as int)[0] == b@[k as int]);
        a[k] < b[k]
    }
}

/// Whether two texts are equal.
pub(crate) fn same_text(a: &[char], b: &[char]) -> (r: bool)
    ensures
        r == (a@ == b@),
{
    if a.len() != b.len() {
        return false;
    }
    let mut k: usize = 0;
    while k < a.len()
        invariant
            k <= a@.len(),
            a@.len() == b@.len(),
            forall|m: int| 0 <= m < k ==> a@[m] == b@[m],
        decreases a@.len() - k,
    {
        if a[k] != b[k] {
            return false;
        }
        k = k + 1;
    }
    assert(a@ =~= b@);
    true
}

// ---------------------------------------------------------------------------
// Sets of groups
// ---------------------------------------------------------------------------

/// The texts are in strictly increasing `str` order.
pub open spec fn strictly_sorted(s: Seq<Seq<char>>) -> bool {
    forall|i: int, j: int| 0 <= i < j < s.len() ==> text_lt(#[trigger] s[i], #[trigger] s[j])
}

/// The increasing sequence of the members of a finite set of texts.
pub open spec fn sorted_set(m: Set<Seq<char>>) -> Seq<Seq<char>> {
    choose|q: Seq<Seq<char>>| strictly_sorted(q) && q.to_set() == m
}

/// Two increasing sequences with the same members are equal.
pub proof fn lemma_sorted_unique(a: Seq<Seq<char>>, b: Seq<Seq<char>>)
    requires
        strictly_sorted(a),
        strictly_sorted(b),
        a.to_set() == b.to_set(),
    ensures
        a == b,
    decreases a.len(),
{
    if a.len() == 0 {
        if b.len() > 0 {
            assert(b.to_set().contains(b[0]));
        }
        assert(a =~= b);
    } else {
        assert(a.to_set().contains(a[0]));
        assert(b.contains(a[0]));
        assert(b.len() > 0);
        assert(b.to_set().contains(b[0]));
        assert(a.contains(b[0]));
        let i = choose|i: int| 0 <= i < b.len() && b[i] == a[0];
        let j = choose|j: int| 0 <= j < a.len() && a[j] == b[0];
        if a[0] != b[0] {
            assert(i > 0 && j > 0);
            assert(text_lt(b[0], b[i]));
            assert(text_lt(a[0], a[j]));
            lemma_text_lt_asymmetric(a[0], b[0]);
        }
        let a1 = a.drop_first();
        let b1 = b.drop_first();
        assert forall|x: Seq<char>| a1.to_set().contains(x) <==> b1.to_set().contains(x) by {
            if a1.contains(x) {
                let k = choose|k: int| 0 <= k < a1.len() && a1[k] == x;
                assert(a[k + 1] == x);
                assert(text_lt(a[0], a[k + 1]));
                assert(b.to_set().contains(x));
                let m = choose|m: int| 0 <= m < b.len() && b[m] == x;
                if m == 0 {
                    lemma_text_lt_irreflexive(x);
                }
                assert(b1[m - 1] == x);
            }
            if b1.contains(x) {
                let k = choose|k: int| 0 <= k < b1.len() && b1[k] == x;
                assert(b[k + 1] == x);
                assert(text_lt(b[0], b[k + 1]));
                assert(a.to_set().contains(x));
                let m = choose|m: int| 0 <= m < a.len() && a[m] == x;
                if m == 0 {
                    lemma_text_lt_irreflexive(x);
                }
                assert(a1[m - 1] == x);
            }
        }
        assert(a1.to_set() =~= b1.to_set());
        lemma_sorted_unique(a1, b1);
        assert(a =~= seq![a[0]] + a1);
        assert(b =~= seq![b[0]] + b1);
    }
}

/// An increasing sequence is the increasing sequence of its members.
pub proof fn lemma_sorted_set_of(a: Seq<Seq<char>>)
    requires
        strictly_sorted(a),
    ensures
        sorted_set(a.to_set()) == a,
{
    let q = sorted_set(a.to_set());
    assert(strictly_sorted(q) && q.to_set() == a.to_set());
    lemma_sorted_unique(q, a);
}

/// The increasing sequence of a finite set of texts exists: `sorted_set(m)`
/// is strictly increasing and has exactly the members of `m`.
pub proof fn lemma_sorted_set_exists(m: Set<Seq<char>>)
    requires
        m.finite(),
    ensures
        strictly_sorted(sorted_set(m)),
        sorted_set(m).to_set() == m,
    decreases m.len(),
{
    let q = lemma_sorted_witness(m);
    assert(strictly_sorted(q) && q.to_set() == m);
}

proof fn lemma_sorted_witness(m: Set<Seq<char>>) -> (q: Seq<Seq<char>>)
    requires
        m.finite(),
    ensures
        strictly_sorted(q),
        q.to_set() == m,
    decreases m.len(),
{
    if m.len() == 0 {
        assert(m =~= Set::empty());
        let q = Seq::<Seq<char>>::empty();
        assert(q.to_set() =~= m);
        q
    } else {
        let x = m.choose();
        let rest = m.remove(x);
        let r = lemma_sorted_witness(rest);
        let p = insert_position(r, x);
        let q = r.insert(p, x);
        assert(strictly_sorted(q)) by {
            assert forall|i: int, j: int| 0 <= i < j < q.len() implies text_lt(
                #[trigger] q[i],
                #[trigger] q[j],
            ) by {
                if j < p {
                    assert(q[i] == r[i] && q[j] == r[j]);
                } else if j == p {
                    assert(q[i] == r[i]);
                } else if i == p {
                    assert(q[j] == r[j - 1]);
                    if j - 1 > p {
                        assert(text_lt(r[p], r[j - 1]));
                        lemma_text_lt_transitive(x, r[p], r[j - 1]);
                    }
                } else if i < p {
                    assert(q[i] == r[i] && q[j] == r[j - 1]);
                    if j - 1 > p {
                        assert(text_lt(r[p], r[j - 1]));
                        lemma_text_lt_transitive(x, r[p], r[j - 1]);
                    }
                    lemma_text_lt_transitive(r[i], x, r[j - 1]);
                } else {
                    assert(q[i] == r[i - 1] && q[j] == r[j - 1]);
                }
            }
        }
        assert(q.to_set() =~= m) by {
            assert forall|y: Seq<char>| q.to_set().contains(y) <==> m.contains(y) by {
                if q.contains(y) {
                    let k = choose|k: int| 0 <= k < q.len() && q[k] == y;
                    if k < p {
                        assert(r[k] == y);
                        assert(r.to_set().contains(y));
                    } else if k > p {
                        assert(r[k - 1] == y);
                        assert(r.to_set().contains(y));
                    }
                }
                if m.contains(y) {
                    if y == x {
                        assert(q[p] == y);
                    } else {
                        assert(rest.contains(y));
                        assert(r.to_set().contains(y));
                        let k = choose|k: int| 0 <= k < r.len() && r[k] == y;
                        if k < p {
                            assert(q[k] == y);
                        } else {
                            assert(q[k + 1] == y);
                        }
                    }
                }
            }
        }
        q
    }
}

/// Where `x` (not a member) goes in the increasing sequence `r`.
proof fn insert_position(r: Seq<Seq<char>>, x: Seq<char>) -> (p: int)
    requires
        strictly_sorted(r),
        !r.contains(x),
    ensures
        0 <= p <= r.len(),
        forall|i: int| 0 <= i < p ==> text_lt(#[trigger] r[i], x),
        forall|i: int| p <= i < r.len() ==> text_lt(x, #[trigger] r[i]),
    decreases r.len(),
{
    if r.len() == 0 {
        0
    } else {
        let last = r.last();
        lemma_text_lt_total(last, x);
        assert(last != x);
        if text_lt(last, x) {
            assert forall|i: int| 0 <= i < r.len() implies text_lt(#[trigger] r[i], x) by {
                if i < r.len() - 1 {
                    lemma_text_lt_transitive(r[i], last, x);
                }
            }
            r.len() as int
        } else {
            let init = r.drop_last();
            assert(strictly_sorted(init));
            assert(!init.contains(x)) by {
                if init.contains(x) {
                    let k = choose|k: int| 0 <= k < init.len() && init[k] == x;
                    assert(r[k] == x);
                }
            }
            let p = insert_position(init, x);
            assert forall|i: int| 0 <= i < p implies text_lt(#[trigger] r[i], x) by {
                assert(r[i] == init[i]);
            }
            assert forall|i: int| p <= i < r.len() implies text_lt(x, #[trigger] r[i]) by {
                if i < r.len() - 1 {
                    assert(r[i] == init[i]);
                }
            }
            p
        }
    }
}

/// A set of group names, kept in increasing order as `BTreeSet<String>` is.
#[derive(Debug, Clone)]
pub struct GroupSet {
    items: Vec<String>,
}

impl View for GroupSet {
    type V = Seq<Seq<char>>;

    closed spec fn view(&self) -> Seq<Seq<char>> {
        string_views(self.items@)
    }
}

impl GroupSet {
    /// The set's members are distinct and in increasing order.
    pub closed spec fn wf(&self) -> bool {
        strictly_sorted(self@)
    }

    /// The members as a set.
    pub open spec fn members(&self) -> Set<Seq<char>> {
        self@.to_set()
    }

    /// The members in order are the increasing sequence of the members.
    pub proof fn lemma_view_is_sorted_set(&self)
        requires
            self.wf(),
        ensures
            sorted_set(self.members()) == self@,
            self@.no_duplicates(),
    {
        lemma_sorted_set_of(self@);
        assert forall|i: int, j: int| 0 <= i < self@.len() && 0 <= j < self@.len() && i != j implies self@[i]
            != self@[j] by {
            if i < j {
                assert(text_lt(self@[i], self@[j]));
                if self@[i] == self@[j] {
                    lemma_text_lt_irreflexive(self@[i]);
                }
            } else {
                assert(text_lt(self@[j], self@[i]));
                if self@[i] == self@[j] {
                    lemma_text_lt_irreflexive(self@[i]);
                }
            }
        }
    }

    /// The empty set.
    pub fn new() -> (s: GroupSet)
        ensures
            s.wf(),
            s@ == Seq::<Seq<char>>::empty(),
    {
        let s = GroupSet { items: Vec::new() };
        assert(s@ =~= Seq::<Seq<char>>::empty());
        s
    }

    /// The members in increasing order.
    pub fn items(&self) -> (r: &Vec<String>)
        ensures
            string_views(r@) == self@,
    {
        &self.items
    }

    /// The number of members.
    pub fn len(&self) -> (n: usize)
        ensures
            n == self@.len(),
    {
        self.items.len()
    }

    /// Whether the set has no member.
    pub fn is_empty(&self) -> (b: bool)
        ensures
            b == (self@.len() == 0),
    {
        self.items.len() == 0
    }

    /// The position at which `x` stands or would stand.
    fn position(&self, x: &[char]) -> (p: usize)
        requires
            self.wf(),
        ensures
            p <= self@.len(),
            forall|i: int| 0 <= i < p ==> text_lt(#[trigger] self@[i], x@),
            p < self@.len() ==> !text_lt(self@[p as int], x@),
    {
        let mut p: usize = 0;
        while p < self.items.len()
            invariant
                p <= self@.len(),
                self@ == string_views(self.items@),
                forall|i: int| 0 <= i < p ==> text_lt(#[trigger] self@[i], x@),
            decreases self@.len() - p,
        {
            let c = chars_of(self.items[p].as_str());
            if !text_less(c.as_slice(), x) {
                return p;
            }
            p = p + 1;
        }
        p
    }

    /// Whether `x` is a member.
    pub fn contains(&self, x: &str) -> (b: bool)
        requires
            self.wf(),
        ensures
            b == self@.contains(x@),
    {
        let xc = chars_of(x);
        let p = self.position(xc.as_slice());
        if p < self.items.len() {
            let pc = chars_of(self.items[p].as_str());
            assert(pc@ == self@[p as int]);
            let found = same_text(pc.as_slice(), xc.as_slice());
            if !found {
                proof {
                    assert forall|i: int| 0 <= i < self@.len() implies self@[i] != x@ by {
                        if i > p {
                            assert(text_lt(self@[p as int], self@[i]));
                            lemma_text_lt_total(self@[p as int], x@);
                            if self@[i] == x@ {
                                lemma_text_lt_asymmetric(self@[p as int], x@);
                            }
                        } else if i < p {
                            if self@[i] == x@ {
                                lemma_text_lt_irreflexive(x@);
                            }
                        }
                    }
                }
            } else {
                assert(self@[p as int] == x@);
            }
            found
        } else {
            proof {
                assert forall|i: int| 0 <= i < self@.len() implies self@[i] != x@ by {
                    if self@[i] == x@ {
                        lemma_text_lt_irreflexive(x@);
                    }
                }
            }
            false
        }
    }

    /// Adds `x`; returns whether it was not a member.
    pub fn insert(&mut self, x: String) -> (added: bool)
        requires
            old(self).wf(),
        ensures
            final(self).wf(),
            final(self).members() == old(self).members().insert(x@),
            final(self)@ == sorted_set(old(self).members().insert(x@)),
            added == !old(self)@.contains(x@),
    {
        let ghost old_v = self@;
        let xc = chars_of(x.as_str());
        let p = self.position(xc.as_slice());
        let found = if p < self.items.len() {
            let pc = chars_of(self.items[p].as_str());
            assert(pc@ == old_v[p as int]);
            same_text(pc.as_slice(), xc.as_slice())
        } else {
            false
        };
        if found {
            assert(old_v[p as int] == x@);
            assert(old_v.to_set().insert(x@) =~= old_v.to_set());
            proof {
                lemma_sorted_set_of(self@);
            }
            return false;
        }
        proof {
            assert forall|i: int| 0 <= i < old_v.len() implies old_v[i] != x@ by {
                if i < p {
                    if old_v[i] == x@ {
                        lemma_text_lt_irreflexive(x@);
                    }
                } else if i > p {
                    assert(text_lt(old_v[p as int], old_v[i]));
                    lemma_text_lt_total(old_v[p as int], x@);
                    if old_v[i] == x@ {
                        lemma_text_lt_asymmetric(old_v[p as int], x@);
                    }
                }
            }
            if p < old_v.len() {
                lemma_text_lt_total(old_v[p as int], x@);
            }
        }
        self.items.insert(p, x);
        let ghost nv = self@;
        assert(nv =~= old_v.insert(p as int, x@));
        proof {
            assert forall|i: int, j: int| 0 <= i < j < nv.len() implies text_lt(
                #[trigger] nv[i],
                #[trigger] nv[j],
            ) by {
                if j < p {
                    assert(nv[i] == old_v[i] && nv[j] == old_v[j]);
                } else if j == p {
                    assert(nv[i] == old_v[i]);
                } else if i == p {
                    assert(nv[j] == old_v[j - 1]);
                    if j - 1 > p {
                        assert(text_lt(old_v[p as int], old_v[j - 1]));
                        lemma_text_lt_transitive(x@, old_v[p as int], old_v[j - 1]);
                    }
                } else if i < p {
                    assert(nv[i] == old_v[i] && nv[j] == old_v[j - 1]);
                    assert(text_lt(old_v[i], x@));
                    if j - 1 >= p {
                        if j - 1 > p {
                            assert(text_lt(old_v[p as int], old_v[j - 1]));
                            lemma_text_lt_transitive(x@, old_v[p as int], old_v[j - 1]);
                        }
                        lemma_text_lt_transitive(old_v[i], x@, old_v[j - 1]);
                    }
                } else {
                    assert(nv[i] == old_v[i - 1] && nv[j] == old_v[j - 1]);
                }
            }
            assert(nv.to_set() =~= old_v.to_set().insert(x@)) by {
                assert forall|y: Seq<char>| nv.to_set().contains(y) <==> old_v.to_set().insert(
                    x@,
                ).contains(y) by {
                    if nv.contains(y) {
                        let k = choose|k: int| 0 <= k < nv.len() && nv[k] == y;
                        if k < p {
                            assert(old_v[k] == y);
                        } else if k > p {
                            assert(old_v[k - 1] == y);
                        }
                    }
                    if old_v.contains(y) {
                        let k = choose|k: int| 0 <= k < old_v.len() && old_v[k] == y;
                        if k < p {
                            assert(nv[k] == y);
                        } else {
                            assert(nv[k + 1] == y);
                        }
                    }
                    if y == x@ {
                        assert(nv[p as int] == y);
                    }
                }
            }
            lemma_sorted_set_of(self@);
        }
        true
    }

    /// Removes `x`; returns whether it was a member.
    pub fn remove(&mut self, x: &str) -> (removed: bool)
        requires
            old(self).wf(),
        ensures
            final(self).wf(),
            final(self).members() == old(self).members().remove(x@),
            final(self)@ == sorted_set(old(self).members().remove(x@)),
            removed == old(self)@.contains(x@),
    {
        let ghost old_v = self@;
        let xc = chars_of(x);
        let p = self.position(xc.as_slice());
        let found = if p < self.items.len() {
            let pc = chars_of(self.items[p].as_str());
            assert(pc@ == old_v[p as int]);
            same_text(pc.as_slice(), xc.as_slice())
        } else {
            false
        };
        if found {
            proof {
                assert forall|i: int| 0 <= i < old_v.len() && i != p implies old_v[i] != x@ by {
                    if i < p {
                        if old_v[i] == x@ {
                            lemma_text_lt_irreflexive(x@);
                        }
                    } else {
                        assert(text_lt(old_v[p as int], old_v[i]));
                        if old_v[i] == x@ {
                            lemma_text_lt_irreflexive(x@);
                        }
                    }
                }
            }
            self.items.remove(p);
            let ghost nv = self@;
            assert(nv =~= old_v.remove(p as int));
            assert(nv.to_set() =~= old_v.to_set().remove(x@)) by {
                assert forall|y: Seq<char>| nv.to_set().contains(y) <==> old_v.to_set().remove(
                    x@,
                ).contains(y) by {
                    if nv.contains(y) {
                        let k = choose|k: int| 0 <= k < nv.len() && nv[k] == y;
                        if k < p {
                            assert(old_v[k] == y);
                        } else {
                            assert(old_v[k + 1] == y);
                        }
                    }
                    if old_v.contains(y) && y != x@ {
                        let k = choose|k: int| 0 <= k < old_v.len() && old_v[k] == y;
                        assert(k != p);
                        if k < p {
                            assert(nv[k] == y);
                        } else {
                            assert(nv[k - 1] == y);
                        }
                    }
                }
            }
            assert forall|i: int, j: int| 0 <= i < j < nv.len() implies text_lt(
                #[trigger] nv[i],
                #[trigger] nv[j],
            ) by {
                if j < p {
                    assert(nv[i] == old_v[i] && nv[j] == old_v[j]);
                } else if i < p {
                    assert(nv[i] == old_v[i] && nv[j] == old_v[j + 1]);
                } else {
                    assert(nv[i] == old_v[i + 1] && nv[j] == old_v[j + 1]);
                }
            }
            proof {
                lemma_sorted_set_of(self@);
            }
            true
        } else {
            proof {
                assert forall|i: int| 0 <= i < old_v.len() implies old_v[i] != x@ by {
                    if i < p {
                        if old_v[i] == x@ {
                            lemma_text_lt_irreflexive(x@);
                        }
                    } else if i > p {
                        assert(text_lt(old_v[p as int], old_v[i]));
                        lemma_text_lt_total(old_v[p as int], x@);
                        if old_v[i] == x@ {
                            lemma_text_lt_asymmetric(old_v[p as int], x@);
                        }
                    }
                }
                assert(old_v.to_set().remove(x@) =~= old_v.to_set());
                lemma_sorted_set_of(self@);
            }
            false
        }
    }

    /// Removes every member.
    pub fn clear(&mut self)
        ensures
            final(self).wf(),
            final(self)@ == Seq::<Seq<char>>::empty(),
    {
        self.items.clear();
        assert(self@ =~= Seq::<Seq<char>>::empty());
    }
}

/// The selected groups that a filter string such as "grupp 1, grupp a" names:
/// its comma-separated parts, trimmed and in lower case, without the
/// wildcards "", "alla", "all" and "*".
pub fn parse_group_filter_string(s: &str) -> (set: GroupSet)
    ensures
        set.wf(),
        set.members() == active_filters(split(s@, ',')).to_set(),
        set@ == sorted_set(active_filters(split(s@, ',')).to_set()),
{
    let c = chars_of(s);
    let parts = split_chars(c.as_slice(), ',');
    let ghost pv = parts@.map_values(|v: Vec<char>| v@);
    let mut strs: Vec<String> = Vec::new();
    let mut i: usize = 0;
    while i < parts.len()
        invariant
            i <= parts@.len(),
            pv == parts@.map_values(|v: Vec<char>| v@),
            string_views(strs@) == pv.take(i as int),
        decreases parts@.len() - i,
    {
        let ghost before = string_views(strs@);
        strs.push(string_of(parts[i].as_slice()));
        assert(string_views(strs@) =~= before.push(pv[i as int]));
        assert(pv.take(i + 1) =~= pv.take(i as int).push(pv[i as int]));
        i = i + 1;
    }
    assert(pv.take(parts@.len() as int) =~= pv);
    let active = active_group_filters(&strs);
    let ghost av = string_views(active@);
    let mut set = GroupSet::new();
    let mut k: usize = 0;
    while k < active.len()
        invariant
            k <= active@.len(),
            av == string_views(active@),
            set.wf(),
            set.members() == av.take(k as int).to_set(),
        decreases active@.len() - k,
    {
        set.insert(active[k].clone());
        assert(av.take(k + 1) =~= av.take(k as int) + seq![av[k as int]]);
        assert(av.take(k + 1).to_set() =~= av.take(k as int).to_set().insert(av[k as int])) by {
            Seq::lemma_to_set_insert_commutes(av.take(k as int), av[k as int]);
        }
        k = k + 1;
    }
    assert(av.take(active@.len() as int) =~= av);
    proof {
        lemma_sorted_set_of(set@);
    }
    set
}

// ---------------------------------------------------------------------------
// Group names
// ---------------------------------------------------------------------------

pub open spec fn is_ascii_alpha(c: char) -> bool {
    ('a' <= c && c <= 'z') || ('A' <= c && c <= 'Z')
}

/// How a group name is shown, given it trimmed and in lower case: "grupp x"
/// becomes "Grupp X" for a single letter and "Grupp x" otherwise; any other
/// name gets its first character in upper case.
pub open spec fn capitalized(lower: Seq<char>) -> Seq<char> {
    if starts_with(lower, "grupp "@) {
        let rest = lower.skip(6);
        if single_byte(rest) && is_ascii_alpha(rest[0]) {
            "Grupp "@ + unicode_upper(rest)
        } else {
            "Grupp "@ + rest
        }
    } else if lower.len() == 0 {
        Seq::empty()
    } else {
        unicode_upper(seq![lower[0]]) + lower.skip(1)
    }
}

/// A group name as shown: "grupp a" becomes "Grupp A", "grupp 1" becomes
/// "Grupp 1", "pgrp1" becomes "Pgrp1".
pub fn capitalize_group_name(g: &str) -> (res: String)
    ensures
        res@ == capitalized(unicode_lower(trim(g@))),
{
    proof {
        reveal_strlit("grupp ");
    }
    let gc = chars_of(g);
    let t = trim_chars(gc.as_slice());
    let ts = string_of(t.as_slice());
    let lower = to_lowercase(ts.as_str());
    let l = chars_of(lower.as_str());
    let prefix = chars_of("grupp ");
    if starts_with_chars(l.as_slice(), prefix.as_slice()) {
        let rest_c = crate::text::slice_chars(l.as_slice(), 6, l.len());
        assert(rest_c@ =~= l@.skip(6));
        let rest = string_of(rest_c.as_slice());
        if rest_c.len() == 1 && (rest_c[0] as u32) < 128 && (('a' <= rest_c[0] && rest_c[0] <= 'z')
            || ('A' <= rest_c[0] && rest_c[0] <= 'Z')) {
            let up = to_uppercase(rest.as_str());
            String::from_str("Grupp ").concat(up.as_str())
        } else {
            String::from_str("Grupp ").concat(rest.as_str())
        }
    } else if l.len() == 0 {
        String::new()
    } else {
        let first = crate::text::slice_chars(l.as_slice(), 0, 1);
        assert(first@ =~= seq![l@[0]]);
        let fs = string_of(first.as_slice());
        let up = to_uppercase(fs.as_str());
        let rest_c = crate::text::slice_chars(l.as_slice(), 1, l.len());
        assert(rest_c@ =~= l@.skip(1));
        let rest = string_of(rest_c.as_slice());
        up.concat(rest.as_str())
    }
}

} // verus!
