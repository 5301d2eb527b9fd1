//! Walking a description records each location in the type index once:
//! the index never has to replace a definition.
use vstd::prelude::*;
use crate::model::{
    named_keys, no_repeats, OperationObject, OpenApi, PathEntry, RefOr, ResponseEntry, StatusCode,
};
use crate::routes::{api_spec, ops_spec, paths_spec, PathRoutesV, schemas_spec, slots, slots_spec};
use crate::method::{raw_method_name, RawMethod};
use crate::text::{decimal, is_digit, lemma_decimal_injective};
use crate::typebuild::{
    distinct_locations, field_names, law_build_records_below, lemma_below_trans,
    lemma_under_child, lemma_under_child_own, lemma_with_own_entry, strictly_below, under_keys,
};
use crate::types::{EntryV, RefOrV, TypeV};
use crate::walk::{
    body_spec, coded_spec, contents_spec, deref_spec, op_spec, ParamState, params_spec,
    param_step, response_spec, responses_spec, RespV, schema_lookup,
};

verus! {

/// Entries under disjoint keys below `p`, put together, stay apart.
pub proof fn lemma_join_disjoint(
    old: Seq<EntryV>,
    new: Seq<EntryV>,
    p: Seq<Seq<char>>,
    ks1: Seq<Seq<char>>,
    ks2: Seq<Seq<char>>,
)
    requires
        under_keys(old, p, ks1),
        under_keys(new, p, ks2),
        distinct_locations(old),
        distinct_locations(new),
        forall|k: Seq<char>| ks1.contains(k) ==> !ks2.contains(k),
    ensures
        under_keys(old + new, p, ks1 + ks2),
        distinct_locations(old + new),
{
    let all = old + new;
    let ks = ks1 + ks2;
    assert forall|i: int| 0 <= i < all.len() implies strictly_below(p, #[trigger] all[i].0)
        && ks.contains(all[i].0[p.len() as int]) by {
        if i < old.len() {
            assert(all[i] == old[i]);
            let j = choose|j: int| 0 <= j < ks1.len() && ks1[j] == old[i].0[p.len() as int];
            assert(ks[j] == ks1[j]);
        } else {
            let m = i - old.len();
            assert(all[i] == new[m]);
            let j = choose|j: int| 0 <= j < ks2.len() && ks2[j] == new[m].0[p.len() as int];
            assert(ks[ks1.len() + j] == ks2[j]);
        }
    }
    assert forall|i: int, j: int|
        0 <= i < all.len() && 0 <= j < all.len() && i != j implies #[trigger] all[i].0
        != #[trigger] all[j].0 by {
        if i < old.len() && j < old.len() {
            assert(all[i] == old[i] && all[j] == old[j]);
        } else if i >= old.len() && j >= old.len() {
            assert(all[i] == new[i - old.len()] && all[j] == new[j - old.len()]);
        } else {
            let (a, b) = if i < old.len() {
                (i, j - old.len())
            } else {
                (j, i - old.len())
            };
            assert(all[a] == old[a]);
            assert(all[old.len() + b] == new[b]);
            if old[a].0 == new[b].0 {
                assert(ks1.contains(old[a].0[p.len() as int]));
                assert(ks2.contains(new[b].0[p.len() as int]));
            }
        }
    }
}

/// Nothing is under no key.
pub proof fn lemma_empty_under(p: Seq<Seq<char>>)
    ensures
        under_keys(Seq::<EntryV>::empty(), p, Seq::empty()),
        distinct_locations(Seq::<EntryV>::empty()),
{
}

/// The body type of a `content` map at `base.k`, and what it holds, lie
/// under the key `k`.
pub proof fn lemma_contents_under(
    content: Seq<crate::model::ContentEntry>,
    base: Seq<Seq<char>>,
    k: Seq<char>,
)
    requires
        contents_spec(content, base.push(k)) is Ok,
    ensures
        under_keys(contents_spec(content, base.push(k))->Ok_0.1, base, seq![k]),
        distinct_locations(contents_spec(content, base.push(k))->Ok_0.1),
{
    let p = base.push(k);
    let es = contents_spec(content, p)->Ok_0.1;
    if content.len() == 1 && content[0].media.schema is Some {
        let s = content[0].media.schema->Some_0;
        law_build_records_below(s, p);
        let (t, inner) = crate::typebuild::build_spec(s, p)->Ok_0;
        lemma_with_own_entry(inner, p, t);
        lemma_under_child_own(inner, base, k, t);
        assert(es == inner.push((p, t)));
        assert forall|i: int| 0 <= i < es.len() implies strictly_below(base, #[trigger] es[i].0)
            && seq![k].contains(es[i].0[base.len() as int]) by {
            assert(seq![k][0] == k);
        }
    }
}

/// A key of a response: a status code's digits, or `default`.
pub open spec fn response_key(k: Seq<char>) -> bool {
    k == "default"@ || (k.len() > 0 && is_digit(k[0]))
}

pub open spec fn code_keys(acc: Seq<(u16, RespV)>) -> Seq<Seq<char>> {
    acc.map_values(|c: (u16, RespV)| decimal(c.0 as nat))
}

/// No status code is given twice among the responses of an operation.
pub open spec fn codes_once(op: OperationObject) -> bool {
    forall|i: int, j: int|
        0 <= i < op.responses.responses@.len() && 0 <= j < op.responses.responses@.len() && i != j
            ==> #[trigger] op.responses.responses@[i].code != #[trigger] op.responses.responses@[j].code
}

proof fn lemma_coded_under(
    rs: Seq<ResponseEntry>,
    path: Seq<Seq<char>>,
    lookup: Seq<crate::model::Named<crate::model::ResponseObject>>,
    acc: Seq<(u16, RespV)>,
    es: Seq<EntryV>,
)
    requires
        coded_spec(rs, path, lookup, acc, es) is Ok,
        under_keys(es, path, code_keys(acc)),
        distinct_locations(es),
        forall|i: int, j: int|
            0 <= i < rs.len() && 0 <= j < rs.len() && i != j ==> #[trigger] rs[i].code
                != #[trigger] rs[j].code,
        forall|i: int, j: int|
            0 <= i < rs.len() && 0 <= j < acc.len() ==> #[trigger] rs[i].code != StatusCode::Code(
                #[trigger] acc[j].0,
            ),
    ensures
        under_keys(
            coded_spec(rs, path, lookup, acc, es)->Ok_0.1,
            path,
            code_keys(coded_spec(rs, path, lookup, acc, es)->Ok_0.0),
        ),
        distinct_locations(coded_spec(rs, path, lookup, acc, es)->Ok_0.1),
    decreases rs.len(),
{
    if rs.len() > 0 {
        let v = rs[0].code->Code_0;
        let resp = deref_spec(rs[0].response, lookup, lookup.len())->Ok_0;
        let k = decimal(v as nat);
        let (rv, inner) = response_spec(resp, path.push(k))->Ok_0;
        lemma_contents_under(resp.content@, path, k);
        assert(!code_keys(acc).contains(k)) by {
            if code_keys(acc).contains(k) {
                let j = choose|j: int| 0 <= j < code_keys(acc).len() && code_keys(acc)[j] == k;
                lemma_decimal_injective(acc[j].0 as nat, v as nat);
                assert(rs[0].code == StatusCode::Code(acc[j].0));
            }
        }
        lemma_join_disjoint(es, inner, path, code_keys(acc), seq![k]);
        let acc2 = acc.push((v, rv));
        assert(code_keys(acc2) =~= code_keys(acc) + seq![k]);
        let rest = rs.subrange(1, rs.len() as int);
        assert forall|i: int, j: int| 0 <= i < rest.len() && 0 <= j < rest.len() && i != j implies
            #[trigger] rest[i].code != #[trigger] rest[j].code by {
            assert(rest[i] == rs[i + 1] && rest[j] == rs[j + 1]);
        }
        assert forall|i: int, j: int| 0 <= i < rest.len() && 0 <= j < acc2.len() implies
            #[trigger] rest[i].code != StatusCode::Code(#[trigger] acc2[j].0) by {
            assert(rest[i] == rs[i + 1]);
            if j < acc.len() {
                assert(acc2[j] == acc[j]);
            } else {
                assert(acc2[j].0 == v);
                assert(rs[i + 1].code != rs[0].code);
            }
        }
        lemma_coded_under(rest, path, lookup, acc2, es + inner);
    }
}

/// The types recorded for the responses of an operation at `path` lie
/// under the keys of the responses, apart from each other.
pub proof fn lemma_responses_under(
    op: OperationObject,
    path: Seq<Seq<char>>,
    lookup: Seq<crate::model::Named<crate::model::ResponseObject>>,
) -> (ks: Seq<Seq<char>>)
    requires
        responses_spec(op.responses, path, lookup) is Ok,
        codes_once(op),
    ensures
        under_keys(responses_spec(op.responses, path, lookup)->Ok_0.1, path, ks),
        distinct_locations(responses_spec(op.responses, path, lookup)->Ok_0.1),
        forall|j: int| 0 <= j < ks.len() ==> response_key(#[trigger] ks[j]),
{
    let rs = op.responses.responses@;
    lemma_empty_under(path);
    assert(code_keys(Seq::<(u16, RespV)>::empty()) =~= Seq::<Seq<char>>::empty());
    assert forall|i: int, j: int| 0 <= i < rs.len() && 0 <= j < rs.len() && i != j implies
        #[trigger] rs[i].code != #[trigger] rs[j].code by {
        assert(op.responses.responses@[i].code != op.responses.responses@[j].code);
    }
    lemma_coded_under(rs, path, lookup, Seq::empty(), Seq::empty());
    let (coded, es) = coded_spec(rs, path, lookup, Seq::empty(), Seq::empty())->Ok_0;
    let ck = code_keys(coded);
    assert forall|j: int| 0 <= j < ck.len() implies (#[trigger] ck[j]).len() > 0 && is_digit(
        ck[j][0],
    ) by {
        crate::gen_types::lemma_decimal_digits(coded[j].0 as nat);
        assert(is_digit(decimal(coded[j].0 as nat)[0]));
    }
    match op.responses.default {
        None => ck,
        Some(d) => {
            let resp = deref_spec(d, lookup, lookup.len())->Ok_0;
            lemma_contents_under(resp.content@, path, "default"@);
            let inner = response_spec(resp, path.push("default"@))->Ok_0.1;
            assert(!ck.contains("default"@)) by {
                reveal_strlit("default");
                if ck.contains("default"@) {
                    let j = choose|j: int| 0 <= j < ck.len() && ck[j] == "default"@;
                    assert(is_digit(ck[j][0]));
                    assert("default"@[0] == 'd');
                }
            }
            lemma_join_disjoint(es, inner, path, ck, seq!["default"@]);
            let ks = ck + seq!["default"@];
            assert forall|j: int| 0 <= j < ks.len() implies response_key(#[trigger] ks[j]) by {
                if j < ck.len() {
                    assert(ks[j] == ck[j]);
                }
            }
            ks
        },
    }
}

/// `q` is at or below `op_path.<path|query>.<name>` for a declared
/// parameter `name`.
pub open spec fn param_located(q: Seq<Seq<char>>, op_path: Seq<Seq<char>>, seen: Seq<Seq<char>>) -> bool {
    &&& q.len() >= op_path.len() + 2
    &&& q.take(op_path.len() as int) == op_path
    &&& (q[op_path.len() as int] == "path"@ || q[op_path.len() as int] == "query"@)
    &&& seen.contains(q[op_path.len() + 1int])
}

pub open spec fn param_entries_ok(es: Seq<EntryV>, op_path: Seq<Seq<char>>, seen: Seq<Seq<char>>) -> bool {
    &&& distinct_locations(es)
    &&& forall|i: int| 0 <= i < es.len() ==> param_located(#[trigger] es[i].0, op_path, seen)
}

proof fn lemma_add_param_entries(
    p: crate::model::ParameterObject,
    op_path: Seq<Seq<char>>,
    loc: Seq<char>,
    st: ParamState,
    in_path: bool,
)
    requires
        crate::walk::add_param(p, op_path, loc, st, in_path) is Ok,
        param_entries_ok(st.entries, op_path, st.seen),
        loc == "path"@ || loc == "query"@,
    ensures
        ({
            let st2 = crate::walk::add_param(p, op_path, loc, st, in_path)->Ok_0;
            param_entries_ok(st2.entries, op_path, st2.seen)
        }),
{
    let name = p.name@;
    let p2 = op_path.push(loc).push(name);
    let s = p.format->Schema_0;
    law_build_records_below(s, p2);
    let (t, inner) = crate::typebuild::build_spec(s, p2)->Ok_0;
    lemma_with_own_entry(inner, p2, t);
    let new = inner.push((p2, t));
    let seen2 = st.seen.push(name);
    let n: int = op_path.len() as int;
    assert(p2.take(n as int) =~= op_path);
    assert forall|i: int| 0 <= i < new.len() implies param_located(#[trigger] new[i].0, op_path, seen2)
        && new[i].0.take(p2.len() as int) == p2 by {
        let q = new[i].0;
        if i < inner.len() {
            assert(new[i] == inner[i]);
            assert(strictly_below(p2, q));
        } else {
            assert(q == p2);
            assert(q.take(p2.len() as int) =~= p2);
        }
        assert(q.take(n) =~= q.take(p2.len() as int).take(n as int));
        assert(q[n] == q.take(p2.len() as int)[n as int]);
        assert(q[n + 1int] == q.take(p2.len() as int)[n + 1int]);
        assert(seen2[st.seen.len() as int] == name);
    }
    let all = st.entries + new;
    assert forall|i: int| 0 <= i < all.len() implies param_located(#[trigger] all[i].0, op_path, seen2) by {
        if i < st.entries.len() {
            assert(all[i] == st.entries[i]);
            assert(param_located(st.entries[i].0, op_path, st.seen));
            let j = choose|j: int| 0 <= j < st.seen.len() && st.seen[j] == st.entries[i].0[n + 1int];
            assert(seen2[j] == st.seen[j]);
        } else {
            assert(all[i] == new[i - st.entries.len()]);
        }
    }
    assert forall|i: int, j: int|
        0 <= i < all.len() && 0 <= j < all.len() && i != j implies #[trigger] all[i].0
        != #[trigger] all[j].0 by {
        if i < st.entries.len() && j < st.entries.len() {
            assert(all[i] == st.entries[i] && all[j] == st.entries[j]);
        } else if i >= st.entries.len() && j >= st.entries.len() {
            assert(all[i] == new[i - st.entries.len()] && all[j] == new[j - st.entries.len()]);
        } else {
            let (a, b) = if i < st.entries.len() {
                (i, j - st.entries.len())
            } else {
                (j, i - st.entries.len())
            };
            assert(all[a] == st.entries[a]);
            assert(all[st.entries.len() + b] == new[b]);
            assert(param_located(st.entries[a].0, op_path, st.seen));
            if st.entries[a].0 == new[b].0 {
                assert(new[b].0[n + 1int] == name);
                assert(st.seen.contains(name));
            }
        }
    }
}

proof fn lemma_params_entries(
    ps: Seq<RefOr<crate::model::ParameterObject>>,
    lookup: Seq<crate::model::Named<crate::model::ParameterObject>>,
    op_path: Seq<Seq<char>>,
    st: ParamState,
)
    requires
        params_spec(ps, lookup, op_path, st) is Ok,
        param_entries_ok(st.entries, op_path, st.seen),
    ensures
        ({
            let r = params_spec(ps, lookup, op_path, st)->Ok_0;
            param_entries_ok(r.entries, op_path, r.seen)
        }),
    decreases ps.len(),
{
    if ps.len() > 0 {
        let p = deref_spec(ps[0], lookup, lookup.len())->Ok_0;
        let st2 = param_step(p, op_path, st)->Ok_0;
        match p.location {
            crate::model::ParameterLocation::Path => {
                let k = crate::walk::first_index(st.expected, p.name@)->Some_0;
                let st1 = ParamState { expected: crate::walk::swap_remove(st.expected, k), ..st };
                lemma_add_param_entries(p, op_path, "path"@, st1, true);
            },
            crate::model::ParameterLocation::Query => {
                lemma_add_param_entries(p, op_path, "query"@, st, false);
            },
            _ => {},
        }
        lemma_params_entries(ps.subrange(1, ps.len() as int), lookup, op_path, st2);
    }
}

proof fn lemma_body_under(
    rb: Option<RefOr<crate::model::RequestBodyObject>>,
    op_path: Seq<Seq<char>>,
    lookup: Seq<crate::model::Named<crate::model::RequestBodyObject>>,
)
    requires
        body_spec(rb, op_path.push("request_body"@), lookup) is Ok,
    ensures
        under_keys(body_spec(rb, op_path.push("request_body"@), lookup)->Ok_0.1, op_path, seq!["request_body"@]),
        distinct_locations(body_spec(rb, op_path.push("request_body"@), lookup)->Ok_0.1),
{
    match rb {
        None => {},
        Some(r) => {
            let b = deref_spec(r, lookup, lookup.len())->Ok_0;
            lemma_contents_under(b.content@, op_path, "request_body"@);
        },
    }
}

/// The literal keys under an operation are not keys of responses, and
/// differ from each other.
proof fn lemma_op_keys()
    ensures
        !response_key("path"@),
        !response_key("query"@),
        !response_key("request_body"@),
        "path"@ != "query"@,
        "path"@ != "request_body"@,
        "query"@ != "request_body"@,
{
    reveal_strlit("path");
    reveal_strlit("query");
    reveal_strlit("request_body");
    reveal_strlit("default");
    assert("path"@[0] == 'p');
    assert("query"@[0] == 'q');
    assert("request_body"@[0] == 'r');
    assert("default"@[0] == 'd');
}

/// The types recorded while walking an operation at `path` lie strictly
/// below `path`, apart from each other.
pub proof fn lemma_op_under(
    op: OperationObject,
    method: RawMethod,
    path: Seq<Seq<char>>,
    route: Seq<crate::route_path::SegmentView>,
    comps: Option<crate::model::ComponentsObject>,
)
    requires
        op_spec(op, method, path, route, comps) is Ok,
        codes_once(op),
    ensures
        forall|i: int|
            0 <= i < op_spec(op, method, path, route, comps)->Ok_0.1.len() ==> strictly_below(
                path,
                #[trigger] op_spec(op, method, path, route, comps)->Ok_0.1[i].0,
            ),
        distinct_locations(op_spec(op, method, path, route, comps)->Ok_0.1),
{
    let id = op.operation_id->Some_0;
    let op_path = path.push(id@);
    let n: int = op_path.len() as int;
    let st0 = ParamState {
        expected: crate::route_path::params_in(route),
        seen: Seq::empty(),
        path_fields: Seq::empty(),
        query_fields: Seq::empty(),
        entries: Seq::empty(),
    };
    lemma_params_entries(op.parameters@, crate::walk::param_lookup(comps), op_path, st0);
    let st = params_spec(op.parameters@, crate::walk::param_lookup(comps), op_path, st0)->Ok_0;
    let pg = crate::walk::group_spec(st.path_fields, op_path, "path"@);
    let qg = crate::walk::group_spec(st.query_fields, op_path, "query"@);
    lemma_op_keys();
    // The parameters and their structs, under `path` and `query`.
    let pk = seq!["path"@, "query"@];
    let block = st.entries + pg.1 + qg.1;
    assert forall|i: int| 0 <= i < block.len() implies strictly_below(op_path, #[trigger] block[i].0)
        && pk.contains(block[i].0[n]) by {
        let q = block[i].0;
        if i < st.entries.len() {
            assert(block[i] == st.entries[i]);
            assert(param_located(st.entries[i].0, op_path, st.seen));
            if q[n] == "path"@ {
                assert(pk[0] == q[n]);
            } else {
                assert(pk[1] == q[n]);
            }
        } else if i < st.entries.len() + pg.1.len() {
            assert(block[i] == pg.1[i - st.entries.len()]);
            assert(q == op_path.push("path"@));
            assert(q.take(n) =~= op_path);
            assert(pk[0] == q[n]);
        } else {
            assert(block[i] == qg.1[i - st.entries.len() - pg.1.len()]);
            assert(q == op_path.push("query"@));
            assert(q.take(n) =~= op_path);
            assert(pk[1] == q[n]);
        }
    }
    assert forall|i: int, j: int|
        0 <= i < block.len() && 0 <= j < block.len() && i != j implies #[trigger] block[i].0
        != #[trigger] block[j].0 by {
        let e = st.entries.len();
        let g = pg.1.len();
        if i < e && j < e {
            assert(block[i] == st.entries[i] && block[j] == st.entries[j]);
        } else if i < e || j < e {
            let a = if i < e {
                i
            } else {
                j
            };
            let b = if i < e {
                j
            } else {
                i
            };
            assert(block[a] == st.entries[a]);
            assert(param_located(st.entries[a].0, op_path, st.seen));
            assert(block[b].0.len() == n + 1);
        } else if i < e + g && j < e + g {
        } else if i >= e + g && j >= e + g {
        } else {
            let a = if i < e + g {
                i
            } else {
                j
            };
            let b = if i < e + g {
                j
            } else {
                i
            };
            assert(block[a].0 == op_path.push("path"@));
            assert(block[b].0 == op_path.push("query"@));
            assert(block[a].0[n] != block[b].0[n]);
        }
    }
    // The body, under `request_body`.
    lemma_body_under(op.request_body, op_path, crate::walk::body_lookup(comps));
    let be = body_spec(op.request_body, op_path.push("request_body"@), crate::walk::body_lookup(comps))->Ok_0.1;
    let bk = seq!["request_body"@];
    assert forall|k: Seq<char>| pk.contains(k) implies !bk.contains(k) by {
        if bk.contains(k) {
            assert(k == bk[0]);
        }
    }
    lemma_join_disjoint(block, be, op_path, pk, bk);
    // The responses, under their own keys.
    let rk = lemma_responses_under(op, op_path, crate::walk::response_lookup(comps));
    let re = responses_spec(op.responses, op_path, crate::walk::response_lookup(comps))->Ok_0.1;
    assert forall|k: Seq<char>| (pk + bk).contains(k) implies !rk.contains(k) by {
        let j = choose|j: int| 0 <= j < (pk + bk).len() && (pk + bk)[j] == k;
        assert(!response_key(k)) by {
            if j == 0 {
                assert(k == "path"@);
            } else if j == 1 {
                assert(k == "query"@);
            } else {
                assert(k == "request_body"@);
            }
        }
        if rk.contains(k) {
            let m = choose|m: int| 0 <= m < rk.len() && rk[m] == k;
            assert(response_key(rk[m]));
        }
    }
    lemma_join_disjoint(block + be, re, op_path, pk + bk, rk);
    let all = op_spec(op, method, path, route, comps)->Ok_0.1;
    assert(all =~= block + be + re);
    assert(op_path.take(path.len() as int) =~= path);
    assert forall|i: int| 0 <= i < all.len() implies strictly_below(path, #[trigger] all[i].0) by {
        lemma_below_trans(path, op_path, all[i].0);
    }
}

proof fn lemma_method_names_distinct(a: RawMethod, b: RawMethod)
    requires
        a != b,
    ensures
        raw_method_name(a) != raw_method_name(b),
{
    reveal_strlit("Get");
    reveal_strlit("Post");
    reveal_strlit("Delete");
    reveal_strlit("Put");
    reveal_strlit("Patch");
    reveal_strlit("Options");
    reveal_strlit("Head");
    reveal_strlit("Trace");
    let x = raw_method_name(a);
    let y = raw_method_name(b);
    if x == y {
        assert(x.len() == y.len() && x[0] == y[0]);
    }
}

/// Every operation of a path item gives each status code once.
pub open spec fn item_codes_once(item: RefOr<crate::model::PathItemObject>) -> bool {
    match item {
        RefOr::Item(pi) => forall|j: int|
            0 <= j < slots(pi).len() ==> ((#[trigger] slots(pi)[j]).1 matches Some(o) ==> codes_once(
                o,
            )),
        RefOr::Reference(_) => true,
    }
}

proof fn lemma_slots_under(
    ss: Seq<(RawMethod, Option<OperationObject>)>,
    path: Seq<Seq<char>>,
    segs: Seq<crate::route_path::SegmentView>,
    comps: Option<crate::model::ComponentsObject>,
    rs: Seq<crate::walk::RouteV>,
    es: Seq<EntryV>,
    used: Seq<Seq<char>>,
) -> (ks: Seq<Seq<char>>)
    requires
        slots_spec(ss, path, segs, comps, rs, es) is Ok,
        under_keys(es, path, used),
        distinct_locations(es),
        forall|i: int, j: int| 0 <= i < ss.len() && 0 <= j < ss.len() && i != j ==> #[trigger] ss[i].0 != #[trigger] ss[j].0,
        forall|i: int| 0 <= i < ss.len() ==> !used.contains(raw_method_name(#[trigger] ss[i].0)),
        forall|i: int| 0 <= i < ss.len() ==> ((#[trigger] ss[i]).1 matches Some(o) ==> codes_once(o)),
    ensures
        under_keys(slots_spec(ss, path, segs, comps, rs, es)->Ok_0.1, path, ks),
        distinct_locations(slots_spec(ss, path, segs, comps, rs, es)->Ok_0.1),
    decreases ss.len(),
{
    if ss.len() == 0 {
        used
    } else {
        let m = ss[0].0;
        let name = raw_method_name(m);
        let rest = ss.subrange(1, ss.len() as int);
        let (r1, e1) = crate::routes::slot_spec(ss[0].1, m, path, segs, comps)->Ok_0;
        let k1: Seq<Seq<char>> = match ss[0].1 {
            None => Seq::empty(),
            Some(o) => {
                lemma_op_under(o, m, path.push(name), segs, comps);
                lemma_under_child(e1, path, name);
                seq![name]
            },
        };
        assert(under_keys(e1, path, k1)) by {
            if ss[0].1 is Some {
                assert forall|i: int| 0 <= i < e1.len() implies strictly_below(path, #[trigger] e1[i].0)
                    && k1.contains(e1[i].0[path.len() as int]) by {
                    assert(k1[0] == name);
                }
            }
        }
        assert forall|k: Seq<char>| used.contains(k) implies !k1.contains(k) by {
            if k1.contains(k) {
                assert(k == name);
            }
        }
        lemma_join_disjoint(es, e1, path, used, k1);
        let used2 = used + k1;
        assert forall|i: int| 0 <= i < rest.len() implies !used2.contains(
            raw_method_name(#[trigger] rest[i].0),
        ) by {
            assert(rest[i] == ss[i + 1]);
            if used2.contains(raw_method_name(rest[i].0)) {
                let j = choose|j: int| 0 <= j < used2.len() && used2[j] == raw_method_name(rest[i].0);
                if j < used.len() {
                    assert(used[j] == used2[j]);
                } else {
                    assert(k1[j - used.len()] == name);
                    assert(ss[i + 1].0 != ss[0].0);
                    lemma_method_names_distinct(ss[i + 1].0, ss[0].0);
                }
            }
        }
        assert forall|i: int, j: int| 0 <= i < rest.len() && 0 <= j < rest.len() && i != j implies
            #[trigger] rest[i].0 != #[trigger] rest[j].0 by {
            assert(rest[i] == ss[i + 1] && rest[j] == ss[j + 1]);
        }
        assert forall|i: int| 0 <= i < rest.len() implies ((#[trigger] rest[i]).1 matches Some(o)
            ==> codes_once(o)) by {
            assert(rest[i] == ss[i + 1]);
        }
        lemma_slots_under(rest, path, segs, comps, rs + r1, es + e1, used2)
    }
}

proof fn lemma_paths_under(
    paths: Seq<PathEntry>,
    comps: Option<crate::model::ComponentsObject>,
    acc: Seq<PathRoutesV>,
    es: Seq<EntryV>,
    used: Seq<Seq<char>>,
) -> (ks: Seq<Seq<char>>)
    requires
        paths_spec(paths, comps, acc, es) is Ok,
        under_keys(es, seq!["paths"@], used),
        distinct_locations(es),
        forall|i: int, j: int| 0 <= i < paths.len() && 0 <= j < paths.len() && i != j ==> #[trigger] paths[i].path@ != #[trigger] paths[j].path@,
        forall|i: int| 0 <= i < paths.len() ==> !used.contains(#[trigger] paths[i].path@),
        forall|i: int| 0 <= i < paths.len() ==> item_codes_once(#[trigger] paths[i].item),
    ensures
        under_keys(paths_spec(paths, comps, acc, es)->Ok_0.1, seq!["paths"@], ks),
        distinct_locations(paths_spec(paths, comps, acc, es)->Ok_0.1),
    decreases paths.len(),
{
    if paths.len() == 0 {
        used
    } else {
        let pe = paths[0];
        let key = pe.path@;
        let root = seq!["paths"@];
        let api_path = seq!["paths"@, key];
        assert(root.push(key) =~= api_path);
        let segs = crate::route_path::analyse_result(key)->Ok_0;
        let item = pe.item->Item_0;
        let ss = slots(item);
        lemma_empty_under(api_path);
        assert forall|i: int, j: int| 0 <= i < ss.len() && 0 <= j < ss.len() && i != j implies
            #[trigger] ss[i].0 != #[trigger] ss[j].0 by {}
        assert(item_codes_once(pe.item));
        let ks0 = lemma_slots_under(ss, api_path, segs, comps, Seq::empty(), Seq::empty(), Seq::empty());
        let (rs, inner) = ops_spec(item, api_path, segs, comps)->Ok_0;
        assert forall|i: int| 0 <= i < inner.len() implies strictly_below(
            root.push(key),
            #[trigger] inner[i].0,
        ) by {}
        lemma_under_child(inner, root, key);
        let k1 = seq![key];
        assert forall|i: int| 0 <= i < inner.len() implies strictly_below(root, #[trigger] inner[i].0)
            && k1.contains(inner[i].0[root.len() as int]) by {
            assert(k1[0] == key);
        }
        assert forall|k: Seq<char>| used.contains(k) implies !k1.contains(k) by {
            if k1.contains(k) {
                assert(k == key);
            }
        }
        lemma_join_disjoint(es, inner, root, used, k1);
        let used2 = used + k1;
        let rest = paths.subrange(1, paths.len() as int);
        assert forall|i: int| 0 <= i < rest.len() implies !used2.contains(#[trigger] rest[i].path@) by {
            assert(rest[i] == paths[i + 1]);
            if used2.contains(rest[i].path@) {
                let j = choose|j: int| 0 <= j < used2.len() && used2[j] == rest[i].path@;
                if j < used.len() {
                    assert(used[j] == used2[j]);
                } else {
                    assert(k1[j - used.len()] == key);
                    assert(paths[i + 1].path@ != paths[0].path@);
                }
            }
        }
        assert forall|i: int, j: int| 0 <= i < rest.len() && 0 <= j < rest.len() && i != j implies
            #[trigger] rest[i].path@ != #[trigger] rest[j].path@ by {
            assert(rest[i] == paths[i + 1] && rest[j] == paths[j + 1]);
        }
        assert forall|i: int| 0 <= i < rest.len() implies item_codes_once(#[trigger] rest[i].item) by {
            assert(rest[i] == paths[i + 1]);
        }
        let acc2 = if rs.len() > 0 {
            acc.push((pe.path@, rs))
        } else {
            acc
        };
        lemma_paths_under(rest, comps, acc2, es + inner, used2)
    }
}

proof fn lemma_schemas_under(
    schemas: Seq<crate::model::Named<crate::model::SchemaObject>>,
    es: Seq<EntryV>,
    used: Seq<Seq<char>>,
) -> (ks: Seq<Seq<char>>)
    requires
        schemas_spec(schemas, es) is Ok,
        under_keys(es, seq!["components"@, "schemas"@], used),
        distinct_locations(es),
        forall|i: int, j: int| 0 <= i < schemas.len() && 0 <= j < schemas.len() && i != j ==> #[trigger] schemas[i].name@ != #[trigger] schemas[j].name@,
        forall|i: int| 0 <= i < schemas.len() ==> !used.contains(#[trigger] schemas[i].name@),
    ensures
        under_keys(schemas_spec(schemas, es)->Ok_0, seq!["components"@, "schemas"@], ks),
        distinct_locations(schemas_spec(schemas, es)->Ok_0),
    decreases schemas.len(),
{
    if schemas.len() == 0 {
        used
    } else {
        let root = seq!["components"@, "schemas"@];
        let name = schemas[0].name@;
        let p = seq!["components"@, "schemas"@, name];
        assert(root.push(name) =~= p);
        law_build_records_below(schemas[0].value, p);
        let (t, inner) = crate::typebuild::build_spec(schemas[0].value, p)->Ok_0;
        lemma_with_own_entry(inner, p, t);
        lemma_under_child_own(inner, root, name, t);
        let new = inner.push((p, t));
        let k1 = seq![name];
        assert forall|i: int| 0 <= i < new.len() implies strictly_below(root, #[trigger] new[i].0)
            && k1.contains(new[i].0[root.len() as int]) by {
            assert(k1[0] == name);
        }
        assert forall|k: Seq<char>| used.contains(k) implies !k1.contains(k) by {
            if k1.contains(k) {
                assert(k == name);
            }
        }
        lemma_join_disjoint(es, new, root, used, k1);
        let used2 = used + k1;
        let rest = schemas.subrange(1, schemas.len() as int);
        assert forall|i: int| 0 <= i < rest.len() implies !used2.contains(#[trigger] rest[i].name@) by {
            assert(rest[i] == schemas[i + 1]);
            if used2.contains(rest[i].name@) {
                let j = choose|j: int| 0 <= j < used2.len() && used2[j] == rest[i].name@;
                if j < used.len() {
                    assert(used[j] == used2[j]);
                } else {
                    assert(k1[j - used.len()] == name);
                    assert(schemas[i + 1].name@ != schemas[0].name@);
                }
            }
        }
        assert forall|i: int, j: int| 0 <= i < rest.len() && 0 <= j < rest.len() && i != j implies
            #[trigger] rest[i].name@ != #[trigger] rest[j].name@ by {
            assert(rest[i] == schemas[i + 1] && rest[j] == schemas[j + 1]);
        }
        lemma_schemas_under(rest, es + new, used2)
    }
}

/// The component schemas and the paths of the description are named once
/// each, and no operation gives a status code twice (as in any YAML
/// description, whose maps hold each key once).
pub open spec fn keys_once(api: OpenApi) -> bool {
    &&& no_repeats(named_keys(schema_lookup(api.components)))
    &&& no_repeats(api.paths@.map_values(|p: PathEntry| p.path@))
    &&& forall|i: int| 0 <= i < api.paths@.len() ==> item_codes_once(#[trigger] api.paths@[i].item)
}

/// Walking a description records each location in the type index once:
/// no definition ever replaces another.
pub proof fn law_index_locations_unique(api: OpenApi)
    requires
        api_spec(api) is Ok,
        keys_once(api),
    ensures
        distinct_locations(api_spec(api)->Ok_0.0),
{
    let schemas = schema_lookup(api.components);
    let croot = seq!["components"@, "schemas"@];
    lemma_empty_under(croot);
    assert forall|i: int, j: int| 0 <= i < schemas.len() && 0 <= j < schemas.len() && i != j implies
        #[trigger] schemas[i].name@ != #[trigger] schemas[j].name@ by {
        assert(named_keys(schemas)[i] == schemas[i].name@);
        assert(named_keys(schemas)[j] == schemas[j].name@);
    }
    let ks1 = lemma_schemas_under(schemas, Seq::empty(), Seq::empty());
    let es1 = schemas_spec(schemas, Seq::empty())->Ok_0;
    let proot = seq!["paths"@];
    lemma_empty_under(proot);
    let paths = api.paths@;
    assert forall|i: int, j: int| 0 <= i < paths.len() && 0 <= j < paths.len() && i != j implies
        #[trigger] paths[i].path@ != #[trigger] paths[j].path@ by {
        assert(paths.map_values(|p: PathEntry| p.path@)[i] == paths[i].path@);
        assert(paths.map_values(|p: PathEntry| p.path@)[j] == paths[j].path@);
    }
    let ks2 = lemma_paths_under(paths, api.components, Seq::empty(), Seq::empty(), Seq::empty());
    let es2 = paths_spec(paths, api.components, Seq::empty(), Seq::empty())->Ok_0.1;
    let top = Seq::<Seq<char>>::empty();
    let c1 = seq!["components"@];
    let c2 = seq!["paths"@];
    assert forall|i: int| 0 <= i < es1.len() implies strictly_below(top, #[trigger] es1[i].0)
        && c1.contains(es1[i].0[0]) by {
        let q = es1[i].0;
        assert(q.take(2) == croot);
        assert(q[0] == q.take(2)[0]);
        assert(c1[0] == "components"@);
        assert(q.take(0) =~= top);
    }
    assert forall|i: int| 0 <= i < es2.len() implies strictly_below(top, #[trigger] es2[i].0)
        && c2.contains(es2[i].0[0]) by {
        let q = es2[i].0;
        assert(q.take(1) == proot);
        assert(q[0] == q.take(1)[0]);
        assert(c2[0] == "paths"@);
        assert(q.take(0) =~= top);
    }
    assert forall|k: Seq<char>| c1.contains(k) implies !c2.contains(k) by {
        reveal_strlit("components");
        reveal_strlit("paths");
        if c1.contains(k) && c2.contains(k) {
            assert(k == "components"@ && k == "paths"@);
            assert("components"@.len() != "paths"@.len());
        }
    }
    lemma_join_disjoint(es1, es2, top, c1, c2);
}

} // verus!
