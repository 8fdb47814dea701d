use vstd::prelude::*;
use vstd::multiset::Multiset;
use vstd::relations::{sorted_by, total_ordering};

use crate::listing::{entries_view, DirEntry};
use crate::segments::str_is;

verus! {

/// Lexicographic order on names, character by character.
pub open spec fn name_le(a: Seq<char>, b: Seq<char>) -> bool
    decreases a.len(),
{
    if a.len() == 0 {
        true
    } else if b.len() == 0 {
        false
    } else if a[0] != b[0] {
        a[0] < b[0]
    } else {
        name_le(a.drop_first(), b.drop_first())
    }
}

/// The order of a listing: by name, and for one name a directory before a file.
pub open spec fn entry_le(x: (Seq<char>, bool), y: (Seq<char>, bool)) -> bool {
    if x.0 != y.0 {
        name_le(x.0, y.0)
    } else {
        !x.1 || y.1
    }
}

pub open spec fn entry_order() -> spec_fn((Seq<char>, bool), (Seq<char>, bool)) -> bool {
    |x: (Seq<char>, bool), y: (Seq<char>, bool)| entry_le(x, y)
}

proof fn lemma_name_le_reflexive(a: Seq<char>)
    ensures
        name_le(a, a),
    decreases a.len(),
{
    if a.len() > 0 {
        lemma_name_le_reflexive(a.drop_first());
    }
}

proof fn lemma_name_le_antisymmetric(a: Seq<char>, b: Seq<char>)
    requires
        name_le(a, b),
        name_le(b, a),
    ensures
        a == b,
    decreases a.len(),
{
    if a.len() == 0 || b.len() == 0 {
        assert(a.len() == 0 && b.len() == 0);
        assert(a =~= b);
    } else {
        assert(a[0] == b[0]);
        lemma_name_le_antisymmetric(a.drop_first(), b.drop_first());
        assert(a =~= seq![a[0]] + a.drop_first());
        assert(b =~= seq![b[0]] + b.drop_first());
    }
}

proof fn lemma_name_le_transitive(a: Seq<char>, b: Seq<char>, c: Seq<char>)
    requires
        name_le(a, b),
        name_le(b, c),
    ensures
        name_le(a, c),
    decreases a.len(),
{
    if a.len() > 0 && b.len() > 0 && c.len() > 0 && a[0] == b[0] && b[0] == c[0] {
        lemma_name_le_transitive(a.drop_first(), b.drop_first(), c.drop_first());
    }
}

proof fn lemma_name_le_total(a: Seq<char>, b: Seq<char>)
    ensures
        name_le(a, b) || name_le(b, a),
    decreases a.len(),
{
    if a.len() > 0 && b.len() > 0 && a[0] == b[0] {
        lemma_name_le_total(a.drop_first(), b.drop_first());
    }
}

/// The listing order is a total order.
pub proof fn lemma_entry_order_total()
    ensures
        total_ordering(entry_order()),
{
    assert forall|x: (Seq<char>, bool)| #[trigger] entry_order()(x, x) by {
        lemma_name_le_reflexive(x.0);
    }
    assert forall|x: (Seq<char>, bool), y: (Seq<char>, bool)|
        #[trigger] entry_order()(x, y) && #[trigger] entry_order()(y, x) implies x == y by {
        if x.0 != y.0 {
            lemma_name_le_antisymmetric(x.0, y.0);
        }
    }
    assert forall|x: (Seq<char>, bool), y: (Seq<char>, bool), z: (Seq<char>, bool)|
        #[trigger] entry_order()(x, y) && #[trigger] entry_order()(y, z) implies entry_order()(
        x,
        z,
    ) by {
        if x.0 != y.0 && y.0 != z.0 {
            lemma_name_le_transitive(x.0, y.0, z.0);
            if x.0 == z.0 {
                lemma_name_le_antisymmetric(x.0, y.0);
            }
        }
    }
    assert forall|x: (Seq<char>, bool), y: (Seq<char>, bool)|
        #[trigger] entry_order()(x, y) || #[trigger] entry_order()(y, x) by {
        lemma_name_le_total(x.0, y.0);
    }
}

/// Whether `a` comes before `b` or equals it in the name order.
pub fn name_le_exec(a: &str, b: &str) -> (r: bool)
    ensures
        r == name_le(a@, b@),
{
    let n = a.unicode_len();
    let m = b.unicode_len();
    let mut i: usize = 0;
    assert(a@.skip(0) =~= a@);
    assert(b@.skip(0) =~= b@);
    while i < n && i < m
        invariant
            n == a@.len(),
            m == b@.len(),
            i <= n,
            i <= m,
            name_le(a@, b@) == name_le(a@.skip(i as int), b@.skip(i as int)),
        decreases n - i,
    {
        let ca = a.get_char(i);
        let cb = b.get_char(i);
        proof {
            assert(a@.skip(i as int)[0] == ca);
            assert(b@.skip(i as int)[0] == cb);
            assert(a@.skip(i as int).drop_first() =~= a@.skip(i as int + 1));
            assert(b@.skip(i as int).drop_first() =~= b@.skip(i as int + 1));
        }
        if ca != cb {
            return ca < cb;
        }
        i = i + 1;
    }
    i == n
}

/// Whether entry `x` comes before `y` or equals it in the listing order.
pub fn entry_le_exec(x: &DirEntry, y: &DirEntry) -> (r: bool)
    ensures
        r == entry_le(x@, y@),
{
    if str_is(x.name.as_str(), y.name.as_str()) {
        !x.is_file || y.is_file
    } else {
        name_le_exec(x.name.as_str(), y.name.as_str())
    }
}

fn insert_sorted(out: &mut Vec<DirEntry>, e: DirEntry)
    requires
        sorted_by(entries_view(old(out)@), entry_order()),
    ensures
        sorted_by(entries_view(final(out)@), entry_order()),
        entries_view(final(out)@).to_multiset() == entries_view(old(out)@).to_multiset().insert(
            e@,
        ),
{
    proof {
        lemma_entry_order_total();
    }
    let ghost s = entries_view(out@);
    let mut p: usize = 0;
    while p < out.len() && entry_le_exec(&out[p], &e)
        invariant
            p <= out@.len(),
            s == entries_view(out@),
            forall|j: int| 0 <= j < p ==> entry_le(#[trigger] s[j], e@),
        decreases out@.len() - p,
    {
        p = p + 1;
    }
    let ghost x = e@;
    proof {
        if p < s.len() {
            assert(!entry_order()(s[p as int], x));
            assert(entry_order()(x, s[p as int]));
            assert forall|j: int| p <= j < s.len() implies entry_le(x, #[trigger] s[j]) by {
                if j > p {
                    assert(entry_order()(s[p as int], s[j]));
                    assert(entry_order()(x, s[p as int]) && entry_order()(s[p as int], s[j]));
                }
            }
        }
    }
    out.insert(p, e);
    let ghost t = entries_view(out@);
    proof {
        assert(t =~= s.insert(p as int, x));
        assert forall|i: int, j: int| 0 <= i < j < t.len() implies #[trigger] entry_order()(
            t[i],
            t[j],
        ) by {
            if j < p {
                assert(entry_order()(s[i], s[j]));
            } else if j == p {
                assert(entry_le(s[i], x));
            } else if i < p {
                assert(entry_le(s[i], x));
                assert(entry_le(x, s[j - 1]));
                assert(entry_order()(s[i], x) && entry_order()(x, s[j - 1]));
            } else if i == p {
                assert(entry_le(x, s[j - 1]));
            } else {
                assert(entry_order()(s[i - 1], s[j - 1]));
            }
        }
        broadcast use vstd::seq_lib::group_to_multiset_ensures;
        broadcast use vstd::multiset::group_multiset_axioms;

        assert(t.remove(p as int) =~= s);
        assert(t.remove(p as int).to_multiset() =~= t.to_multiset().remove(t[p as int]));
        assert(t.contains(x)) by {
            assert(t[p as int] == x);
        }
        assert(t.to_multiset() =~= s.to_multiset().insert(x));
    }
}

/// The entries of `v` in listing order.
pub fn sort_entries(v: Vec<DirEntry>) -> (r: Vec<DirEntry>)
    ensures
        entries_view(r@) == entries_view(v@).sort_by(entry_order()),
        sorted_by(entries_view(r@), entry_order()),
{
    let ghost all = entries_view(v@);
    let mut rest = v;
    let mut out: Vec<DirEntry> = Vec::new();
    proof {
        broadcast use vstd::seq_lib::group_to_multiset_ensures;

        assert(entries_view(rest@) =~= all);
        assert(entries_view(out@) =~= Seq::<(Seq<char>, bool)>::empty());
        assert(entries_view(out@).to_multiset() =~= Multiset::empty());
    }
    while rest.len() > 0
        invariant
            entries_view(rest@).len() <= all.len(),
            entries_view(rest@) == all.take(entries_view(rest@).len() as int),
            sorted_by(entries_view(out@), entry_order()),
            entries_view(out@).to_multiset() == all.skip(entries_view(rest@).len() as int).to_multiset(),
        decreases rest@.len(),
    {
        let ghost before = entries_view(rest@);
        let e = rest.pop().unwrap();
        let ghost k = before.len() - 1;
        proof {
            assert(entries_view(rest@) =~= before.drop_last());
            assert(before[k] == e@);
            assert(entries_view(rest@) =~= all.take(k));
            assert(all.skip(k) =~= seq![e@] + all.skip(k + 1));
        }
        let ghost prev = entries_view(out@);
        insert_sorted(&mut out, e);
        proof {
            broadcast use vstd::seq_lib::group_to_multiset_ensures;
            broadcast use vstd::multiset::group_multiset_axioms;

            vstd::seq_lib::lemma_multiset_commutative(seq![e@], all.skip(k + 1));
            assert(seq![e@] =~= Seq::<(Seq<char>, bool)>::empty().push(e@));
            assert(seq![e@].to_multiset() =~= Multiset::empty().insert(e@));
            assert(all.skip(k).to_multiset() =~= all.skip(k + 1).to_multiset().insert(e@));
        }
    }
    proof {
        assert(all.skip(0) =~= all);
        lemma_entry_order_total();
        all.lemma_sort_by_ensures(entry_order());
        vstd::seq_lib::lemma_sorted_unique(entries_view(out@), all.sort_by(entry_order()), entry_order());
    }
    out
}

} // verus!
