//! Lexicographic orders on sequences, used to sort relative paths the way a
//! path type orders its components.

use vstd::prelude::*;
use vstd::string::*;

verus! {

/// `k` is the first position at which `a` and `b` differ, and at that
/// position `a` is the smaller (or `a` has ended while `b` has not).
pub open spec fn lex_lt_at<T>(a: Seq<T>, b: Seq<T>, k: int, less: spec_fn(T, T) -> bool) -> bool {
    &&& 0 <= k <= a.len()
    &&& k <= b.len()
    &&& forall|i: int| 0 <= i < k ==> a[i] == b[i]
    &&& if k == a.len() {
        k < b.len()
    } else {
        k < b.len() && less(a[k], b[k])
    }
}

/// Strict lexicographic order induced by an element order `less`.
pub open spec fn lex_lt<T>(a: Seq<T>, b: Seq<T>, less: spec_fn(T, T) -> bool) -> bool {
    exists|k: int| lex_lt_at(a, b, k, less)
}

/// `less` is an irreflexive, transitive relation.
pub open spec fn strict_order<T>(less: spec_fn(T, T) -> bool) -> bool {
    &&& forall|x: T| !#[trigger] less(x, x)
    &&& forall|x: T, y: T, z: T| #[trigger] less(x, y) && #[trigger] less(y, z) ==> less(x, z)
}

/// Order on characters by code point.
pub open spec fn char_less() -> spec_fn(char, char) -> bool {
    |x: char, y: char| (x as u32) < (y as u32)
}

/// Order on file names: lexicographic by code point, which for UTF-8 text is
/// also the lexicographic order of the encoded bytes.
pub open spec fn name_lt(a: Seq<char>, b: Seq<char>) -> bool {
    lex_lt(a, b, char_less())
}

/// Order on relative paths made of file names: lexicographic by name.
pub open spec fn entry_lt(a: Seq<Seq<char>>, b: Seq<Seq<char>>) -> bool {
    lex_lt(a, b, |x: Seq<char>, y: Seq<char>| name_lt(x, y))
}

pub proof fn lemma_lex_irreflexive<T>(a: Seq<T>, less: spec_fn(T, T) -> bool)
    requires
        strict_order(less),
    ensures
        !lex_lt(a, a, less),
{
    if lex_lt(a, a, less) {
        let k = choose|k: int| lex_lt_at(a, a, k, less);
        if k < a.len() {
            assert(less(a[k], a[k]));
        }
    }
}

pub proof fn lemma_lex_transitive<T>(a: Seq<T>, b: Seq<T>, c: Seq<T>, less: spec_fn(T, T) -> bool)
    requires
        strict_order(less),
        lex_lt(a, b, less),
        lex_lt(b, c, less),
    ensures
        lex_lt(a, c, less),
{
    let k1 = choose|k: int| lex_lt_at(a, b, k, less);
    let k2 = choose|k: int| lex_lt_at(b, c, k, less);
    if k1 < k2 {
        assert(lex_lt_at(a, c, k1, less));
    } else if k2 < k1 {
        assert(a[k2] == b[k2]);
        assert(lex_lt_at(a, c, k2, less));
    } else {
        if k1 < a.len() {
            assert(less(a[k1], b[k1]) && less(b[k1], c[k1]));
        }
        assert(lex_lt_at(a, c, k1, less));
    }
}

/// Both orders used for paths are strict orders.
pub proof fn lemma_orders_strict()
    ensures
        strict_order(char_less()),
        strict_order(|x: Seq<char>, y: Seq<char>| name_lt(x, y)),
{
    let nl = |x: Seq<char>, y: Seq<char>| name_lt(x, y);
    assert forall|x: Seq<char>| !#[trigger] nl(x, x) by {
        lemma_lex_irreflexive(x, char_less());
    }
    assert forall|x: Seq<char>, y: Seq<char>, z: Seq<char>| #[trigger] nl(x, y) && #[trigger] nl(y, z) implies nl(x, z) by {
        lemma_lex_transitive(x, y, z, char_less());
    }
}


/// Outcome of a three-way comparison.
#[derive(Clone, Copy, Debug, PartialEq, Eq)]
pub enum Order {
    Less,
    Equal,
    Greater,
}

/// What a three-way comparison owes: exactly one of the three cases holds,
/// and it is the one reported.
pub open spec fn compares_as<T>(r: Order, a: Seq<T>, b: Seq<T>, less: spec_fn(T, T) -> bool) -> bool {
    &&& (r is Less <==> lex_lt(a, b, less))
    &&& (r is Equal <==> a == b)
    &&& (r is Greater <==> lex_lt(b, a, less))
}

proof fn lemma_lex_exclusive<T>(a: Seq<T>, b: Seq<T>, less: spec_fn(T, T) -> bool)
    requires
        strict_order(less),
    ensures
        lex_lt(a, b, less) ==> !lex_lt(b, a, less) && a != b,
{
    lemma_lex_irreflexive(a, less);
    if lex_lt(a, b, less) && lex_lt(b, a, less) {
        lemma_lex_transitive(a, b, a, less);
    }
}

/// Compares two file names character by character.
pub fn compare_names(a: &str, b: &str) -> (r: Order)
    ensures
        compares_as(r, a@, b@, char_less()),
{
    proof {
        lemma_orders_strict();
        lemma_lex_exclusive(a@, b@, char_less());
        lemma_lex_exclusive(b@, a@, char_less());
    }
    let la = a.unicode_len();
    let lb = b.unicode_len();
    let mut i: usize = 0;
    while i < la && i < lb
        invariant
            la == a@.len(),
            lb == b@.len(),
            i <= la,
            i <= lb,
            forall|j: int| 0 <= j < i ==> a@[j] == b@[j],
        decreases la - i,
    {
        let ca = a.get_char(i);
        let cb = b.get_char(i);
        if (ca as u32) < (cb as u32) {
            assert(lex_lt_at(a@, b@, i as int, char_less()));
            return Order::Less;
        }
        if (cb as u32) < (ca as u32) {
            assert(lex_lt_at(b@, a@, i as int, char_less()));
            return Order::Greater;
        }
        assert((ca as u32) == (cb as u32));
        assert(ca == cb);
        i = i + 1;
    }
    if la == lb {
        assert(a@ =~= b@);
        proof { lemma_lex_irreflexive(a@, char_less()); }
        Order::Equal
    } else if la < lb {
        assert(lex_lt_at(a@, b@, la as int, char_less()));
        Order::Less
    } else {
        assert(lex_lt_at(b@, a@, lb as int, char_less()));
        Order::Greater
    }
}

/// Compares two relative paths name by name.
pub fn compare_entries(a: &Vec<String>, b: &Vec<String>) -> (r: Order)
    ensures
        compares_as(r, a.deep_view(), b.deep_view(), |x: Seq<char>, y: Seq<char>| name_lt(x, y)),
{
    let ghost nl = |x: Seq<char>, y: Seq<char>| name_lt(x, y);
    let ghost av = a.deep_view();
    let ghost bv = b.deep_view();
    proof {
        lemma_orders_strict();
        lemma_lex_exclusive(av, bv, nl);
        lemma_lex_exclusive(bv, av, nl);
    }
    let la = a.len();
    let lb = b.len();
    let mut i: usize = 0;
    while i < la && i < lb
        invariant
            la == a.len(),
            lb == b.len(),
            av == a.deep_view(),
            bv == b.deep_view(),
            nl == (|x: Seq<char>, y: Seq<char>| name_lt(x, y)),
            i <= la,
            i <= lb,
            forall|j: int| 0 <= j < i ==> av[j] == bv[j],
        decreases la - i,
    {
        match compare_names(a[i].as_str(), b[i].as_str()) {
            Order::Less => {
                assert(lex_lt_at(av, bv, i as int, nl));
                return Order::Less;
            },
            Order::Greater => {
                assert(lex_lt_at(bv, av, i as int, nl));
                return Order::Greater;
            },
            Order::Equal => {},
        }
        i = i + 1;
    }
    if la == lb {
        assert(av =~= bv);
        proof { lemma_lex_irreflexive(av, nl); }
        Order::Equal
    } else if la < lb {
        assert(lex_lt_at(av, bv, la as int, nl));
        Order::Less
    } else {
        assert(lex_lt_at(bv, av, lb as int, nl));
        Order::Greater
    }
}

} // verus!
