//! Relative directory entries (a path as the list of its names) kept as
//! sorted sets, with the set operations that the directory checks need.

use vstd::prelude::*;
use crate::order::{compare_entries, entry_lt, lemma_lex_irreflexive, lemma_lex_transitive, lemma_orders_strict, name_lt, Order};

verus! {

/// A relative path, as the names of its components.
pub type Entry = Vec<String>;

/// The model of an entry: the text of each name.
pub type EntryView = Seq<Seq<char>>;

pub open spec fn name_order() -> spec_fn(Seq<char>, Seq<char>) -> bool {
    |x: Seq<char>, y: Seq<char>| name_lt(x, y)
}

/// Strictly increasing in path order (hence without duplicates).
pub open spec fn sorted_entries(s: Seq<EntryView>) -> bool {
    forall|i: int, j: int| 0 <= i < j < s.len() ==> entry_lt(#[trigger] s[i], #[trigger] s[j])
}

/// The model of a list of entries.
pub open spec fn entries_view(v: Seq<Entry>) -> Seq<EntryView> {
    Seq::new(v.len(), |i: int| v[i].deep_view())
}

/// Copies an entry name by name.
pub fn clone_entry(e: &Entry) -> (r: Entry)
    ensures
        r.deep_view() == e.deep_view(),
{
    let mut r: Vec<String> = Vec::new();
    let n = e.len();
    let mut i: usize = 0;
    while i < n
        invariant
            n == e.len(),
            i <= n,
            r.len() == i,
            forall|j: int| 0 <= j < i ==> #[trigger] r@[j]@ == e@[j]@,
        decreases n - i,
    {
        r.push(e[i].clone());
        i = i + 1;
    }
    assert(r.deep_view() =~= e.deep_view());
    r
}

/// Whether `x` is one of the entries of `v`.
pub fn contains_entry(v: &Vec<Entry>, x: &Entry) -> (r: bool)
    ensures
        r == entries_view(v@).contains(x.deep_view()),
{
    let ghost vs = entries_view(v@);
    let n = v.len();
    let mut i: usize = 0;
    while i < n
        invariant
            n == v.len(),
            vs == entries_view(v@),
            i <= n,
            forall|j: int| 0 <= j < i ==> vs[j] != x.deep_view(),
        decreases n - i,
    {
        if let Order::Equal = compare_entries(&v[i], x) {
            assert(vs[i as int] == x.deep_view());
            return true;
        }
        i = i + 1;
    }
    false
}

/// Where `x` belongs in the sorted list `v`: every entry before the returned
/// position is smaller, and the entry at it, if any, is `x` itself exactly
/// when the flag is set, and larger otherwise.
fn find_position(v: &Vec<Entry>, x: &Entry) -> (r: (usize, bool))
    requires
        sorted_entries(entries_view(v@)),
    ensures
        r.0 <= v.len(),
        forall|j: int| 0 <= j < r.0 ==> entry_lt(#[trigger] entries_view(v@)[j], x.deep_view()),
        r.1 ==> r.0 < v.len() && entries_view(v@)[r.0 as int] == x.deep_view(),
        !r.1 && r.0 < v.len() ==> entry_lt(x.deep_view(), entries_view(v@)[r.0 as int]),
{
    let ghost vs = entries_view(v@);
    let n = v.len();
    let mut p: usize = 0;
    while p < n
        invariant
            n == v.len(),
            vs == entries_view(v@),
            p <= n,
            forall|j: int| 0 <= j < p ==> entry_lt(#[trigger] vs[j], x.deep_view()),
        decreases n - p,
    {
        match compare_entries(&v[p], x) {
            Order::Less => {
                p = p + 1;
            },
            Order::Equal => {
                return (p, true);
            },
            Order::Greater => {
                return (p, false);
            },
        }
    }
    (p, false)
}

/// Adds `x` to the sorted set `v`, keeping it sorted.
pub fn insert_entry(v: &mut Vec<Entry>, x: Entry)
    requires
        sorted_entries(entries_view(old(v)@)),
    ensures
        sorted_entries(entries_view(final(v)@)),
        forall|e: EntryView| #[trigger] entries_view(final(v)@).contains(e) <==> (entries_view(old(v)@).contains(e) || e == x.deep_view()),
{
    let ghost old_s = entries_view(v@);
    let ghost xv = x.deep_view();
    let (p, found) = find_position(v, &x);
    if found {
        assert(old_s.contains(xv));
        return;
    }
    v.insert(p, x);
    let ghost new_s = entries_view(v@);
    assert(new_s =~= old_s.insert(p as int, xv));
    proof {
        lemma_orders_strict();
        assert forall|i: int, j: int| 0 <= i < j < new_s.len() implies entry_lt(#[trigger] new_s[i], #[trigger] new_s[j]) by {
            if j < p {
            } else if j == p {
            } else if i == p {
                if j - 1 > p {
                    lemma_lex_transitive(xv, old_s[p as int], old_s[j - 1], name_order());
                }
            } else if i < p {
                assert(entry_lt(old_s[i], xv));
                if j - 1 > p {
                    lemma_lex_transitive(xv, old_s[p as int], old_s[j - 1], name_order());
                }
                assert(entry_lt(xv, old_s[j - 1]));
                lemma_lex_transitive(old_s[i], xv, old_s[j - 1], name_order());
            } else {
                assert(new_s[i] == old_s[i - 1]);
                assert(new_s[j] == old_s[j - 1]);
            }
        }
        assert forall|e: EntryView| #[trigger] new_s.contains(e) <==> (old_s.contains(e) || e == xv) by {
            if new_s.contains(e) {
                let k = choose|k: int| 0 <= k < new_s.len() && new_s[k] == e;
                if k < p {
                    assert(old_s[k] == e);
                } else if k > p {
                    assert(old_s[k - 1] == e);
                }
            }
            if old_s.contains(e) {
                let k = choose|k: int| 0 <= k < old_s.len() && old_s[k] == e;
                if k < p {
                    assert(new_s[k] == e);
                } else {
                    assert(new_s[k + 1] == e);
                }
            }
            if e == xv {
                assert(new_s[p as int] == e);
            }
        }
    }
}

/// The entries of `client` that `server` lacks, sorted.
pub fn missing_entries(server: &Vec<Entry>, client: &Vec<Entry>) -> (r: Vec<Entry>)
    ensures
        sorted_entries(entries_view(r@)),
        forall|e: EntryView| #[trigger] entries_view(r@).contains(e) <==> (entries_view(client@).contains(e) && !entries_view(server@).contains(e)),
{
    let ghost cs = entries_view(client@);
    let ghost ss = entries_view(server@);
    let mut r: Vec<Entry> = Vec::new();
    assert(entries_view(r@) =~= Seq::<EntryView>::empty());
    let n = client.len();
    let mut i: usize = 0;
    while i < n
        invariant
            n == client.len(),
            cs == entries_view(client@),
            ss == entries_view(server@),
            i <= n,
            sorted_entries(entries_view(r@)),
            forall|e: EntryView| #[trigger] entries_view(r@).contains(e) <==> (cs.take(i as int).contains(e) && !ss.contains(e)),
        decreases n - i,
    {
        let ghost before = entries_view(r@);
        let ghost t = cs.take(i + 1);
        assert(t =~= cs.take(i as int).push(cs[i as int]));
        assert(cs[i as int] == client@[i as int].deep_view());
        let present = contains_entry(server, &client[i]);
        if !present {
            let e = clone_entry(&client[i]);
            insert_entry(&mut r, e);
        }
        proof {
            assert forall|e: EntryView| #[trigger] entries_view(r@).contains(e) <==> (t.contains(e) && !ss.contains(e)) by {
                if e == cs[i as int] {
                    assert(t[i as int] == e);
                }
                if t.contains(e) && e != cs[i as int] {
                    let k = choose|k: int| 0 <= k < t.len() && #[trigger] t[k] == e;
                    assert(cs.take(i as int)[k] == e);
                }
                if cs.take(i as int).contains(e) {
                    let k = choose|k: int| 0 <= k < i && #[trigger] cs.take(i as int)[k] == e;
                    assert(t[k] == e);
                }
            }
        }
        i = i + 1;
    }
    assert(cs.take(n as int) =~= cs);
    r
}

/// The entries that are in exactly one of `a` and `b`, sorted.
pub fn symmetric_difference(a: &Vec<Entry>, b: &Vec<Entry>) -> (r: Vec<Entry>)
    ensures
        sorted_entries(entries_view(r@)),
        forall|e: EntryView| #[trigger] entries_view(r@).contains(e) <==> (entries_view(a@).contains(e) != entries_view(b@).contains(e)),
{
    let mut r = missing_entries(b, a);
    let others = missing_entries(a, b);
    let n = others.len();
    let mut i: usize = 0;
    let ghost os = entries_view(others@);
    let ghost first = entries_view(r@);
    while i < n
        invariant
            n == others.len(),
            os == entries_view(others@),
            i <= n,
            sorted_entries(entries_view(r@)),
            forall|e: EntryView| #[trigger] entries_view(r@).contains(e) <==> (first.contains(e) || os.take(i as int).contains(e)),
        decreases n - i,
    {
        let ghost t = os.take(i + 1);
        assert(t =~= os.take(i as int).push(os[i as int]));
        assert(os[i as int] == others@[i as int].deep_view());
        let e = clone_entry(&others[i]);
        insert_entry(&mut r, e);
        proof {
            assert forall|e: EntryView| #[trigger] entries_view(r@).contains(e) <==> (first.contains(e) || t.contains(e)) by {
                if e == os[i as int] {
                    assert(t[i as int] == e);
                }
                if t.contains(e) && e != os[i as int] {
                    let k = choose|k: int| 0 <= k < t.len() && #[trigger] t[k] == e;
                    assert(os.take(i as int)[k] == e);
                }
                if os.take(i as int).contains(e) {
                    let k = choose|k: int| 0 <= k < i && #[trigger] os.take(i as int)[k] == e;
                    assert(t[k] == e);
                }
            }
        }
        i = i + 1;
    }
    assert(os.take(n as int) =~= os);
    r
}


/// `s` lists exactly the members of `members`, in increasing path order.
pub open spec fn is_sorted_listing(s: Seq<EntryView>, members: Set<EntryView>) -> bool {
    &&& sorted_entries(s)
    &&& forall|e: EntryView| #[trigger] s.contains(e) <==> members.contains(e)
}

/// A set of entries has at most one sorted listing: sorting the entries of a
/// directory gives a single answer, whatever order they were found in.
pub proof fn lemma_sorted_listing_unique(s: Seq<EntryView>, t: Seq<EntryView>, members: Set<EntryView>)
    requires
        is_sorted_listing(s, members),
        is_sorted_listing(t, members),
    ensures
        s == t,
    decreases s.len(),
{
    lemma_orders_strict();
    if s.len() == 0 {
        if t.len() > 0 {
            assert(t.contains(t[0]));
            assert(members.contains(t[0]));
            assert(s.contains(t[0]));
        }
        assert(s =~= t);
    } else {
        assert(s.contains(s[0]));
        assert(members.contains(s[0]));
        assert(t.contains(s[0]));
        assert(t.len() > 0);
        assert(t.contains(t[0]));
        assert(members.contains(t[0]));
        assert(s.contains(t[0]));
        let k = choose|k: int| 0 <= k < t.len() && t[k] == s[0];
        let m = choose|m: int| 0 <= m < s.len() && s[m] == t[0];
        if s[0] != t[0] {
            assert(k > 0 && m > 0);
            assert(entry_lt(t[0], t[k]));
            assert(entry_lt(s[0], s[m]));
            lemma_lex_transitive(s[0], t[0], s[0], name_order());
            lemma_lex_irreflexive(s[0], name_order());
        }
        let rest = members.remove(s[0]);
        let s1 = s.drop_first();
        let t1 = t.drop_first();
        assert forall|i: int, j: int| 0 <= i < j < s1.len() implies entry_lt(#[trigger] s1[i], #[trigger] s1[j]) by {
            assert(s1[i] == s[i + 1] && s1[j] == s[j + 1]);
        }
        assert forall|i: int, j: int| 0 <= i < j < t1.len() implies entry_lt(#[trigger] t1[i], #[trigger] t1[j]) by {
            assert(t1[i] == t[i + 1] && t1[j] == t[j + 1]);
        }
        assert forall|e: EntryView| #[trigger] s1.contains(e) <==> rest.contains(e) by {
            if s1.contains(e) {
                let i = choose|i: int| 0 <= i < s1.len() && s1[i] == e;
                assert(s[i + 1] == e);
                assert(s.contains(e));
                assert(entry_lt(s[0], s[i + 1]));
                lemma_lex_irreflexive(s[0], name_order());
            }
            if rest.contains(e) {
                assert(s.contains(e));
                let i = choose|i: int| 0 <= i < s.len() && s[i] == e;
                assert(s1[i - 1] == e);
            }
        }
        assert forall|e: EntryView| #[trigger] t1.contains(e) <==> rest.contains(e) by {
            if t1.contains(e) {
                let i = choose|i: int| 0 <= i < t1.len() && t1[i] == e;
                assert(t[i + 1] == e);
                assert(t.contains(e));
                assert(entry_lt(t[0], t[i + 1]));
                lemma_lex_irreflexive(t[0], name_order());
            }
            if rest.contains(e) {
                assert(t.contains(e));
                let i = choose|i: int| 0 <= i < t.len() && t[i] == e;
                assert(t1[i - 1] == e);
            }
        }
        lemma_sorted_listing_unique(s1, t1, rest);
        assert(s =~= t1.insert(0, s[0]));
        assert(t =~= t1.insert(0, t[0]));
    }
}

} // verus!
