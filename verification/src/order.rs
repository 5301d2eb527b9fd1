//! The order in which the type index is visited: each location once, the
//! locations compared key by key and each key character by character, with
//! the definition recorded last for it.
use vstd::prelude::*;
use crate::gen_types::lookup_get;
use crate::names::TypePath;
use crate::text::{chars_of, views};
use crate::types::{EntryV, entries_view, ref_view, RefOrV, TypeEntry, TypeLookup, TypeV};

verus! {

/// `a` comes before `b`, comparing characters from the start; a proper
/// prefix comes first.
pub open spec fn str_lt(a: Seq<char>, b: Seq<char>) -> bool
    decreases a.len(),
{
    if b.len() == 0 {
        false
    } else if a.len() == 0 {
        true
    } else if a[0] != b[0] {
        a[0] < b[0]
    } else {
        str_lt(a.skip(1), b.skip(1))
    }
}

/// The location `a` comes before `b`, comparing keys from the start; a
/// proper prefix comes first.
pub open spec fn path_lt(a: Seq<Seq<char>>, b: Seq<Seq<char>>) -> bool
    decreases a.len(),
{
    if b.len() == 0 {
        false
    } else if a.len() == 0 {
        true
    } else if a[0] != b[0] {
        str_lt(a[0], b[0])
    } else {
        path_lt(a.skip(1), b.skip(1))
    }
}

/// Puts the entry `e` into the ordered entries `sorted`: in place of the
/// entry for the same location, or before the first one after it.
pub open spec fn insert_entry(sorted: Seq<EntryV>, e: EntryV) -> Seq<EntryV>
    decreases sorted.len(),
{
    if sorted.len() == 0 {
        seq![e]
    } else if sorted[0].0 == e.0 {
        seq![e] + sorted.skip(1)
    } else if path_lt(e.0, sorted[0].0) {
        seq![e] + sorted
    } else {
        seq![sorted[0]] + insert_entry(sorted.skip(1), e)
    }
}

/// The entries of the index in the order it is visited.
pub open spec fn index_order(es: Seq<EntryV>) -> Seq<EntryV>
    decreases es.len(),
{
    if es.len() == 0 {
        Seq::empty()
    } else {
        insert_entry(index_order(es.drop_last()), es.last())
    }
}

/// Decides `str_lt`.
pub fn str_less(a: &str, b: &str) -> (r: bool)
    ensures
        r == str_lt(a@, b@),
{
    let ac = chars_of(a);
    let bc = chars_of(b);
    let mut i: usize = 0;
    assert(ac@.skip(0) =~= ac@);
    assert(bc@.skip(0) =~= bc@);
    while i < ac.len() && i < bc.len()
        invariant
            i <= ac@.len(),
            i <= bc@.len(),
            ac@.take(i as int) == bc@.take(i as int),
            str_lt(a@, b@) == str_lt(ac@.skip(i as int), bc@.skip(i as int)),
        decreases ac@.len() - i,
    {
        let ghost x = ac@.skip(i as int);
        let ghost y = bc@.skip(i as int);
        assert(x[0] == ac@[i as int]);
        assert(y[0] == bc@[i as int]);
        if ac[i] != bc[i] {
            return ac[i] < bc[i];
        }
        assert(x.skip(1) =~= ac@.skip(i + 1));
        assert(y.skip(1) =~= bc@.skip(i + 1));
        assert(ac@.take(i + 1) =~= ac@.take(i as int).push(ac@[i as int]));
        assert(bc@.take(i + 1) =~= bc@.take(i as int).push(bc@[i as int]));
        i = i + 1;
    }
    i < bc.len()
}

/// Decides `path_lt`.
pub fn path_less(a: &TypePath, b: &TypePath) -> (r: bool)
    ensures
        r == path_lt(a@, b@),
{
    let ak = a.keys();
    let bk = b.keys();
    let mut i: usize = 0;
    assert(a@.skip(0) =~= a@);
    assert(b@.skip(0) =~= b@);
    while i < ak.len() && i < bk.len()
        invariant
            i <= ak@.len(),
            i <= bk@.len(),
            views(ak@) == a@,
            views(bk@) == b@,
            path_lt(a@, b@) == path_lt(a@.skip(i as int), b@.skip(i as int)),
        decreases ak@.len() - i,
    {
        let ghost x = a@.skip(i as int);
        let ghost y = b@.skip(i as int);
        assert(x[0] == ak@[i as int]@);
        assert(y[0] == bk@[i as int]@);
        if !(ak[i] == bk[i]) {
            return str_less(ak[i].as_str(), bk[i].as_str());
        }
        assert(x.skip(1) =~= a@.skip(i + 1));
        assert(y.skip(1) =~= b@.skip(i + 1));
        i = i + 1;
    }
    i < bk.len()
}

pub open spec fn entry_views(v: Seq<&TypeEntry>) -> Seq<EntryV> {
    v.map_values(|e: &TypeEntry| (e.path@, ref_view(e.typ)))
}

/// Where the entry for `p` goes among the ordered entries `out`: past
/// every entry before it.
fn insert_position(out: &Vec<&TypeEntry>, p: &TypePath, Ghost(t): Ghost<RefOrV<TypeV>>) -> (k:
    usize)
    ensures
        k <= out@.len(),
        insert_entry(entry_views(out@), (p@, t)) == entry_views(out@).take(k as int)
            + insert_entry(entry_views(out@).skip(k as int), (p@, t)),
        k < out@.len() ==> (entry_views(out@)[k as int].0 == p@ || path_lt(
            p@,
            entry_views(out@)[k as int].0,
        )),
{
    let ghost ov = entry_views(out@);
    let ghost e = (p@, t);
    let mut k: usize = 0;
    assert(ov.take(0) + ov.skip(0) =~= ov);
    assert(ov.skip(0) =~= ov);
    while k < out.len()
        invariant
            k <= out@.len(),
            ov == entry_views(out@),
            e == (p@, t),
            insert_entry(ov, e) == ov.take(k as int) + insert_entry(ov.skip(k as int), e),
        decreases out@.len() - k,
    {
        assert(ov[k as int] == (out@[k as int].path@, ref_view(out@[k as int].typ)));
        if out[k].path.same(p) || path_less(p, &out[k].path) {
            return k;
        }
        let ghost rest = ov.skip(k as int);
        assert(rest[0] == ov[k as int]);
        assert(rest.skip(1) =~= ov.skip(k + 1));
        assert(ov.take(k + 1) =~= ov.take(k as int) + seq![ov[k as int]]);
        assert(insert_entry(rest, e) == seq![rest[0]] + insert_entry(rest.skip(1), e));
        assert(ov.take(k as int) + insert_entry(rest, e) =~= ov.take(k + 1) + insert_entry(
            ov.skip(k + 1),
            e,
        ));
        k = k + 1;
    }
    k
}

/// The entries of the index in the order they are visited.
pub fn index_order_of<'a>(lookup: &'a TypeLookup) -> (r: Vec<&'a TypeEntry>)
    ensures
        entry_views(r@) == index_order(lookup@),
{
    let mut out: Vec<&TypeEntry> = Vec::new();
    let mut i: usize = 0;
    assert(entry_views(out@) =~= index_order(lookup@.take(0)));
    while i < lookup.entries.len()
        invariant
            i <= lookup.entries@.len(),
            lookup@ == entries_view(lookup.entries@),
            entry_views(out@) == index_order(lookup@.take(i as int)),
        decreases lookup.entries@.len() - i,
    {
        let e = &lookup.entries[i];
        let ghost ev = (e.path@, ref_view(e.typ));
        let ghost ov = entry_views(out@);
        assert(lookup@.take(i + 1).drop_last() =~= lookup@.take(i as int));
        assert(lookup@.take(i + 1).last() == ev);
        let k = insert_position(&out, &e.path, Ghost(ref_view(e.typ)));
        if k < out.len() && out[k].path.same(&e.path) {
            let ghost rest = ov.skip(k as int);
            assert(rest[0] == ov[k as int]);
            assert(rest.skip(1) =~= ov.skip(k + 1));
            out.set(k, e);
            assert(entry_views(out@) =~= ov.take(k as int) + (seq![ev] + rest.skip(1)));
        } else {
            if k < out.len() {
                let ghost rest = ov.skip(k as int);
                assert(rest[0] == ov[k as int]);
                assert(rest[0].0 != ev.0);
            } else {
                assert(ov.skip(k as int) =~= Seq::<EntryV>::empty());
            }
            out.insert(k, e);
            assert(entry_views(out@) =~= ov.take(k as int) + (seq![ev] + ov.skip(k as int)));
        }
        i = i + 1;
    }
    assert(lookup@.take(i as int) =~= lookup@);
    out
}

/// `str_lt` is a strict order: never `a < a`.
pub proof fn lemma_str_lt_irreflexive(a: Seq<char>)
    ensures
        !str_lt(a, a),
    decreases a.len(),
{
    if a.len() > 0 {
        lemma_str_lt_irreflexive(a.skip(1));
    }
}

/// `str_lt` is transitive.
pub proof fn lemma_str_lt_transitive(a: Seq<char>, b: Seq<char>, c: Seq<char>)
    requires
        str_lt(a, b),
        str_lt(b, c),
    ensures
        str_lt(a, c),
    decreases a.len(),
{
    if a.len() > 0 && a[0] == b[0] && b[0] == c[0] {
        lemma_str_lt_transitive(a.skip(1), b.skip(1), c.skip(1));
    }
}

/// `str_lt` is total: of two different strings, one comes first.
pub proof fn lemma_str_lt_total(a: Seq<char>, b: Seq<char>)
    requires
        a != b,
    ensures
        str_lt(a, b) || str_lt(b, a),
    decreases a.len(),
{
    if a.len() > 0 && b.len() > 0 && a[0] == b[0] {
        if a.skip(1) == b.skip(1) {
            assert(a =~= seq![a[0]] + a.skip(1));
            assert(b =~= seq![b[0]] + b.skip(1));
        }
        lemma_str_lt_total(a.skip(1), b.skip(1));
    } else if a.len() == 0 && b.len() == 0 {
        assert(a =~= b);
    }
}

/// `path_lt` is a strict order: never `a < a`.
pub proof fn lemma_path_lt_irreflexive(a: Seq<Seq<char>>)
    ensures
        !path_lt(a, a),
    decreases a.len(),
{
    if a.len() > 0 {
        lemma_path_lt_irreflexive(a.skip(1));
    }
}

/// `path_lt` is transitive.
pub proof fn lemma_path_lt_transitive(a: Seq<Seq<char>>, b: Seq<Seq<char>>, c: Seq<Seq<char>>)
    requires
        path_lt(a, b),
        path_lt(b, c),
    ensures
        path_lt(a, c),
    decreases a.len(),
{
    if a.len() > 0 && b.len() > 0 && c.len() > 0 {
        if a[0] == b[0] && b[0] == c[0] {
            lemma_path_lt_transitive(a.skip(1), b.skip(1), c.skip(1));
        } else if a[0] != b[0] && b[0] != c[0] {
            lemma_str_lt_transitive(a[0], b[0], c[0]);
            if a[0] == c[0] {
                lemma_str_lt_irreflexive(a[0]);
                lemma_str_lt_transitive(b[0], c[0], b[0]);
                lemma_str_lt_irreflexive(b[0]);
            }
        }
    }
}

/// `path_lt` is total: of two different locations, one comes first.
pub proof fn lemma_path_lt_total(a: Seq<Seq<char>>, b: Seq<Seq<char>>)
    requires
        a != b,
    ensures
        path_lt(a, b) || path_lt(b, a),
    decreases a.len(),
{
    if a.len() > 0 && b.len() > 0 {
        if a[0] == b[0] {
            if a.skip(1) == b.skip(1) {
                assert(a =~= seq![a[0]] + a.skip(1));
                assert(b =~= seq![b[0]] + b.skip(1));
            }
            lemma_path_lt_total(a.skip(1), b.skip(1));
        } else {
            lemma_str_lt_total(a[0], b[0]);
        }
    } else if a.len() == 0 && b.len() == 0 {
        assert(a =~= b);
    }
}

/// The locations of `s` are in strictly increasing order.
pub open spec fn strictly_ordered(s: Seq<EntryV>) -> bool {
    forall|i: int, j: int| 0 <= i < j < s.len() ==> path_lt(#[trigger] s[i].0, #[trigger] s[j].0)
}

/// Putting an entry into ordered entries keeps them ordered; the result
/// holds the entry and every entry for another location, and nothing else.
pub proof fn lemma_insert_entry(s: Seq<EntryV>, e: EntryV)
    requires
        strictly_ordered(s),
    ensures
        strictly_ordered(insert_entry(s, e)),
        insert_entry(s, e).contains(e),
        forall|x: EntryV| #[trigger]
            insert_entry(s, e).contains(x) ==> x == e || (s.contains(x) && x.0 != e.0),
        forall|x: EntryV| s.contains(x) && x.0 != e.0 ==> #[trigger] insert_entry(s, e).contains(x),
    decreases s.len(),
{
    let r = insert_entry(s, e);
    if s.len() == 0 {
        assert(r[0] == e);
    } else if s[0].0 == e.0 {
        let t = s.skip(1);
        assert(r =~= seq![e] + t);
        assert(r[0] == e);
        assert forall|i: int, j: int| 0 <= i < j < r.len() implies path_lt(
            #[trigger] r[i].0,
            #[trigger] r[j].0,
        ) by {
            assert(r[j] == s[j]);
            if i > 0 {
                assert(r[i] == s[i]);
            }
        }
        assert forall|x: EntryV| #[trigger] r.contains(x) implies x == e || (s.contains(x) && x.0
            != e.0) by {
            let k = choose|k: int| 0 <= k < r.len() && r[k] == x;
            if k > 0 {
                assert(r[k] == s[k]);
                lemma_path_lt_irreflexive(e.0);
            }
        }
        assert forall|x: EntryV| s.contains(x) && x.0 != e.0 implies #[trigger] r.contains(x) by {
            let k = choose|k: int| 0 <= k < s.len() && s[k] == x;
            assert(k != 0);
            assert(r[k] == s[k]);
        }
    } else if path_lt(e.0, s[0].0) {
        assert(r =~= seq![e] + s);
        assert(r[0] == e);
        assert forall|i: int, j: int| 0 <= i < j < r.len() implies path_lt(
            #[trigger] r[i].0,
            #[trigger] r[j].0,
        ) by {
            assert(r[j] == s[j - 1]);
            if i > 0 {
                assert(r[i] == s[i - 1]);
            } else if j > 1 {
                lemma_path_lt_transitive(e.0, s[0].0, s[j - 1].0);
            }
        }
        assert forall|x: EntryV| #[trigger] r.contains(x) implies x == e || (s.contains(x) && x.0
            != e.0) by {
            let k = choose|k: int| 0 <= k < r.len() && r[k] == x;
            if k > 0 {
                assert(r[k] == s[k - 1]);
                if k > 1 {
                    lemma_path_lt_transitive(e.0, s[0].0, s[k - 1].0);
                }
                lemma_path_lt_irreflexive(e.0);
            }
        }
        assert forall|x: EntryV| s.contains(x) && x.0 != e.0 implies #[trigger] r.contains(x) by {
            let k = choose|k: int| 0 <= k < s.len() && s[k] == x;
            assert(r[k + 1] == s[k]);
        }
    } else {
        let t = s.skip(1);
        assert forall|i: int, j: int| 0 <= i < j < t.len() implies path_lt(
            #[trigger] t[i].0,
            #[trigger] t[j].0,
        ) by {
            assert(t[i] == s[i + 1]);
            assert(t[j] == s[j + 1]);
        }
        lemma_insert_entry(t, e);
        let rt = insert_entry(t, e);
        assert(r =~= seq![s[0]] + rt);
        lemma_path_lt_total(s[0].0, e.0);
        assert(path_lt(s[0].0, e.0));
        assert forall|j: int| 0 <= j < rt.len() implies path_lt(s[0].0, #[trigger] rt[j].0) by {
            assert(rt.contains(rt[j]));
            if rt[j] != e {
                assert(t.contains(rt[j]));
                let k = choose|k: int| 0 <= k < t.len() && t[k] == rt[j];
                assert(t[k] == s[k + 1]);
            }
        }
        assert forall|i: int, j: int| 0 <= i < j < r.len() implies path_lt(
            #[trigger] r[i].0,
            #[trigger] r[j].0,
        ) by {
            assert(r[j] == rt[j - 1]);
            if i > 0 {
                assert(r[i] == rt[i - 1]);
            }
        }
        assert(r[1 + rt.len() - 1] == rt[rt.len() - 1]);
        let ke = choose|k: int| 0 <= k < rt.len() && rt[k] == e;
        assert(r[ke + 1] == e);
        assert forall|x: EntryV| #[trigger] r.contains(x) implies x == e || (s.contains(x) && x.0
            != e.0) by {
            let k = choose|k: int| 0 <= k < r.len() && r[k] == x;
            if k == 0 {
                assert(x == s[0]);
                lemma_path_lt_irreflexive(e.0);
            } else {
                assert(r[k] == rt[k - 1]);
                assert(rt.contains(x));
                if x != e {
                    let m = choose|m: int| 0 <= m < t.len() && t[m] == x;
                    assert(s[m + 1] == x);
                }
            }
        }
        assert forall|x: EntryV| s.contains(x) && x.0 != e.0 implies #[trigger] r.contains(x) by {
            let k = choose|k: int| 0 <= k < s.len() && s[k] == x;
            if k == 0 {
                assert(r[0] == x);
            } else {
                assert(t[k - 1] == x);
                assert(t.contains(x));
                assert(rt.contains(x));
                let m = choose|m: int| 0 <= m < rt.len() && rt[m] == x;
                assert(r[m + 1] == x);
            }
        }
    }
}

/// The index is visited in strictly increasing order of location; each
/// recorded location is visited, once, and with the definition recorded
/// last there; and nothing else is visited.
pub proof fn law_index_order(es: Seq<EntryV>)
    ensures
        strictly_ordered(index_order(es)),
        forall|x: EntryV| #[trigger]
            index_order(es).contains(x) ==> lookup_get(es, x.0) == Some(x.1),
        forall|i: int| #![trigger es[i]]
            0 <= i < es.len() ==> exists|j: int|
                0 <= j < index_order(es).len() && #[trigger] index_order(es)[j].0 == es[i].0,
    decreases es.len(),
{
    if es.len() > 0 {
        let pre = es.drop_last();
        let e = es.last();
        law_index_order(pre);
        let o0 = index_order(pre);
        lemma_insert_entry(o0, e);
        let o = index_order(es);
        assert(o == insert_entry(o0, e));
        assert forall|x: EntryV| #[trigger] o.contains(x) implies lookup_get(es, x.0) == Some(x.1) by {
            if x != e {
                assert(o0.contains(x));
            }
        }
        assert forall|i: int| #![trigger es[i]] 0 <= i < es.len() implies exists|j: int|
            0 <= j < o.len() && #[trigger] o[j].0 == es[i].0 by {
            if es[i].0 == e.0 {
                let k = choose|k: int| 0 <= k < o.len() && o[k] == e;
                assert(o[k].0 == es[i].0);
            } else {
                assert(pre[i] == es[i]);
                let j0 = choose|j: int| 0 <= j < o0.len() && #[trigger] o0[j].0 == pre[i].0;
                assert(o0.contains(o0[j0]));
                assert(o.contains(o0[j0]));
                let k = choose|k: int| 0 <= k < o.len() && o[k] == o0[j0];
                assert(o[k].0 == es[i].0);
            }
        }
    }
}

} // verus!
