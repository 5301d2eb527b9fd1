//! Walking the whole description: the component schemas, every path and
//! its operations, and the checks that span all routes.
use vstd::prelude::*;
use crate::types::extends;
use crate::error::{Error, ErrorV, unsupported_msg};
use crate::method::{RawMethod, raw_method_name};
use crate::model::{ComponentsObject, Named, no_repeats, OpenApi, OperationObject, PathEntry, PathItemObject, SchemaObject};
use crate::names::{ApiPath, Ident};
use crate::route_path::{analyse_result, RoutePath, SegmentView};
use crate::typebuild::{build_spec, build_type_recursive};
use crate::types::{EntryV, TypeLookup};
use crate::walk::{
    op_spec, Route, RouteV, schema_lookup, unwrap_ref, unwrap_ref_spec, walk_operation,
};

verus! {

/// What building the component schemas `schemas` gives, after the
/// definitions `es`: each is recorded under `components.schemas.<name>`.
pub open spec fn schemas_spec(schemas: Seq<Named<SchemaObject>>, es: Seq<EntryV>) -> Result<
    Seq<EntryV>,
    ErrorV,
>
    decreases schemas.len(),
{
    if schemas.len() == 0 {
        Ok(es)
    } else {
        let p = seq!["components"@, "schemas"@, schemas[0].name@];
        match build_spec(schemas[0].value, p) {
            Err(e) => Err(e),
            Ok((t, inner)) => schemas_spec(
                schemas.subrange(1, schemas.len() as int),
                es + inner.push((p, t)),
            ),
        }
    }
}

/// Builds and records the types defined in the components.
pub fn walk_component_schemas(schemas: &Vec<Named<SchemaObject>>, type_index: &mut TypeLookup) -> (r:
    Result<(), Error>)
    ensures
        extends(old(type_index)@, final(type_index)@),
        match schemas_spec(schemas@, Seq::empty()) {
            Ok(es) => r is Ok && final(type_index)@ == old(type_index)@ + es,
            Err(e) => r matches Err(x) && x@ == e,
        },
{
    let ghost start = type_index@;
    let ghost whole = schemas_spec(schemas@, Seq::empty());
    let path = ApiPath::root().push("components").push("schemas");
    let mut i: usize = 0;
    assert(schemas@.skip(0) =~= schemas@);
    assert(type_index@.subrange(start.len() as int, type_index@.len() as int) =~= Seq::<
        EntryV,
    >::empty());
    while i < schemas.len()
        invariant
            extends(old(type_index)@, type_index@),
            i <= schemas@.len(),
            path@ == seq!["components"@, "schemas"@],
            whole == schemas_spec(schemas@, Seq::empty()),
            start.len() <= type_index@.len(),
            type_index@.subrange(0, start.len() as int) == start,
            schemas_spec(
                schemas@.skip(i as int),
                type_index@.subrange(start.len() as int, type_index@.len() as int),
            ) == whole,
        decreases schemas@.len() - i,
    {
        let ghost rest = schemas@.skip(i as int);
        let ghost es0 = type_index@.subrange(start.len() as int, type_index@.len() as int);
        let ghost mid = type_index@;
        assert(rest[0] == schemas@[i as int]);
        assert(rest.subrange(1, rest.len() as int) =~= schemas@.skip(i + 1));
        let entry = &schemas[i];
        let p = path.duplicate().push(entry.name.as_str());
        assert(p@ =~= seq!["components"@, "schemas"@, entry.name@]);
        let typ = build_type_recursive(&entry.value, &p, type_index)?;
        let ghost after_build = type_index@;
        let ghost tv = crate::types::ref_view(typ);
        type_index.insert(p.into_type_path(), typ);
        proof {
            let bs = build_spec(entry.value, seq!["components"@, "schemas"@, entry.name@]);
            assert(bs is Ok);
            let inner = bs->Ok_0.1;
            assert(after_build =~= mid + inner);
            assert(type_index@.subrange(0, start.len() as int) =~= start);
            assert(type_index@.subrange(start.len() as int, type_index@.len() as int) =~= es0
                + inner.push((seq!["components"@, "schemas"@, entry.name@], tv)));
        }
        i = i + 1;
    }
    assert(schemas@.skip(i as int) =~= Seq::<Named<SchemaObject>>::empty());
    assert(type_index@ =~= start + type_index@.subrange(
        start.len() as int,
        type_index@.len() as int,
    ));
    Ok(())
}

/// What one method slot of a path item gives: no route where the slot is
/// empty, else the route of its operation, walked at `path.<Method>`.
pub open spec fn slot_spec(
    op: Option<OperationObject>,
    m: RawMethod,
    path: Seq<Seq<char>>,
    segs: Seq<SegmentView>,
    comps: Option<ComponentsObject>,
) -> Result<(Seq<RouteV>, Seq<EntryV>), ErrorV> {
    match op {
        None => Ok((Seq::empty(), Seq::empty())),
        Some(o) => match op_spec(o, m, path.push(raw_method_name(m)), segs, comps) {
            Err(e) => Err(e),
            Ok((rv, es)) => Ok((seq![rv], es)),
        },
    }
}

/// The method slots of a path item, in the order they are walked:
/// GET, OPTIONS, HEAD, TRACE, POST, PUT, PATCH, DELETE.
pub open spec fn slots(item: PathItemObject) -> Seq<(RawMethod, Option<OperationObject>)> {
    seq![
        (RawMethod::Get, item.get),
        (RawMethod::Options, item.options),
        (RawMethod::Head, item.head),
        (RawMethod::Trace, item.trace),
        (RawMethod::Post, item.post),
        (RawMethod::Put, item.put),
        (RawMethod::Patch, item.patch),
        (RawMethod::Delete, item.delete),
    ]
}

/// Walks the slots `ss` in order, after the routes `rs` and definitions
/// `es` already found.
pub open spec fn slots_spec(
    ss: Seq<(RawMethod, Option<OperationObject>)>,
    path: Seq<Seq<char>>,
    segs: Seq<SegmentView>,
    comps: Option<ComponentsObject>,
    rs: Seq<RouteV>,
    es: Seq<EntryV>,
) -> Result<(Seq<RouteV>, Seq<EntryV>), ErrorV>
    decreases ss.len(),
{
    if ss.len() == 0 {
        Ok((rs, es))
    } else {
        match slot_spec(ss[0].1, ss[0].0, path, segs, comps) {
            Err(e) => Err(e),
            Ok((r1, e1)) => slots_spec(
                ss.subrange(1, ss.len() as int),
                path,
                segs,
                comps,
                rs + r1,
                es + e1,
            ),
        }
    }
}

/// The operations of a path item, walked in slot order.
pub open spec fn ops_spec(
    item: PathItemObject,
    path: Seq<Seq<char>>,
    segs: Seq<SegmentView>,
    comps: Option<ComponentsObject>,
) -> Result<(Seq<RouteV>, Seq<EntryV>), ErrorV> {
    slots_spec(slots(item), path, segs, comps, Seq::empty(), Seq::empty())
}

pub open spec fn routes_view(v: Seq<Route>) -> Seq<RouteV> {
    v.map_values(|r: Route| r@)
}

fn walk_slot(
    op: &Option<OperationObject>,
    m: RawMethod,
    path: &ApiPath,
    route_path: &RoutePath,
    type_index: &mut TypeLookup,
    comps: &Option<ComponentsObject>,
    routes: &mut Vec<Route>,
) -> (r: Result<(), Error>)
    ensures
        extends(old(type_index)@, final(type_index)@),
        match slot_spec(*op, m, path@, route_path@, *comps) {
            Ok((rs, es)) => r is Ok && final(type_index)@ == old(type_index)@ + es && routes_view(
                final(routes)@,
            ) == routes_view(old(routes)@) + rs,
            Err(e) => r matches Err(x) && x@ == e,
        },
{
    match op {
        None => {
            assert(type_index@ =~= type_index@ + Seq::<EntryV>::empty());
            assert(routes_view(routes@) =~= routes_view(routes@) + Seq::<RouteV>::empty());
            Ok(())
        },
        Some(o) => {
            let p = path.duplicate().push(m.name());
            let route = walk_operation(o, m, p, route_path, type_index, comps)?;
            let ghost before = routes_view(routes@);
            routes.push(route);
            assert(routes_view(routes@) =~= before + seq![routes@.last()@]);
            Ok(())
        },
    }
}

/// Walks the operations of a path item in order, adding their routes.
fn walk_operations(
    item: &PathItemObject,
    path: &ApiPath,
    route_path: &RoutePath,
    type_index: &mut TypeLookup,
    comps: &Option<ComponentsObject>,
) -> (r: Result<Vec<Route>, Error>)
    ensures
        extends(old(type_index)@, final(type_index)@),
        match ops_spec(*item, path@, route_path@, *comps) {
            Ok((rs, es)) => r matches Ok(v) && routes_view(v@) == rs && final(type_index)@ == old(
                type_index,
            )@ + es,
            Err(e) => r matches Err(x) && x@ == e,
        },
{
    let ss: Vec<(RawMethod, &Option<OperationObject>)> = vec![
        (RawMethod::Get, &item.get),
        (RawMethod::Options, &item.options),
        (RawMethod::Head, &item.head),
        (RawMethod::Trace, &item.trace),
        (RawMethod::Post, &item.post),
        (RawMethod::Put, &item.put),
        (RawMethod::Patch, &item.patch),
        (RawMethod::Delete, &item.delete),
    ];
    let ghost sv = slots(*item);
    assert(ss@.map_values(|x: (RawMethod, &Option<OperationObject>)| (x.0, *x.1)) =~= sv);
    let mut routes: Vec<Route> = Vec::new();
    let ghost start = type_index@;
    let ghost whole = ops_spec(*item, path@, route_path@, *comps);
    assert(routes_view(routes@) =~= Seq::<RouteV>::empty());
    assert(sv.skip(0) =~= sv);
    assert(type_index@.subrange(start.len() as int, type_index@.len() as int) =~= Seq::<
        EntryV,
    >::empty());
    let mut i: usize = 0;
    while i < ss.len()
        invariant
            i <= ss@.len(),
            ss@.len() == sv.len(),
            sv == slots(*item),
            whole == ops_spec(*item, path@, route_path@, *comps),
            forall|k: int| 0 <= k < sv.len() ==> #[trigger] sv[k] == (ss@[k].0, *ss@[k].1),
            whole == slots_spec(sv, path@, route_path@, *comps, Seq::empty(), Seq::empty()),
            extends(old(type_index)@, type_index@),
            start.len() <= type_index@.len(),
            type_index@.subrange(0, start.len() as int) == start,
            slots_spec(
                sv.skip(i as int),
                path@,
                route_path@,
                *comps,
                routes_view(routes@),
                type_index@.subrange(start.len() as int, type_index@.len() as int),
            ) == whole,
        decreases ss@.len() - i,
    {
        let ghost rest = sv.skip(i as int);
        let ghost es0 = type_index@.subrange(start.len() as int, type_index@.len() as int);
        let ghost rs0 = routes_view(routes@);
        let ghost mid = type_index@;
        assert(rest[0] == sv[i as int]);
        assert(rest.subrange(1, rest.len() as int) =~= sv.skip(i + 1));
        let (m, op) = ss[i];
        assert(sv[i as int] == (m, *op));
        match walk_slot(op, m, path, route_path, type_index, comps, &mut routes) {
            Ok(()) => {},
            Err(e) => {
                assert(slots_spec(rest, path@, route_path@, *comps, rs0, es0) == Err::<(Seq<RouteV>, Seq<EntryV>), _>(e@));
                return Err(e);
            },
        }
        proof {
            let st = slot_spec(*op, m, path@, route_path@, *comps);
            assert(st is Ok);
            assert(type_index@ =~= mid + st->Ok_0.1);
            assert(type_index@.subrange(0, start.len() as int) =~= start);
            assert(type_index@.subrange(start.len() as int, type_index@.len() as int) =~= es0
                + st->Ok_0.1);
        }
        i = i + 1;
    }
    assert(sv.skip(i as int) =~= Seq::<(RawMethod, Option<OperationObject>)>::empty());
    assert(type_index@ =~= start + type_index@.subrange(
        start.len() as int,
        type_index@.len() as int,
    ));
    Ok(routes)
}

/// The routes of one path of the description.
pub struct PathRoutes {
    pub path: String,
    pub routes: Vec<Route>,
}

pub type PathRoutesV = (Seq<char>, Seq<RouteV>);

pub open spec fn path_routes_view(v: Seq<PathRoutes>) -> Seq<PathRoutesV> {
    v.map_values(|p: PathRoutes| (p.path@, routes_view(p.routes@)))
}

/// What walking the paths `paths` gives, after the routes `acc` and
/// definitions `es`: each path's operations are walked at
/// `paths.<path>`, and a path with operations becomes a group of routes.
pub open spec fn paths_spec(
    paths: Seq<PathEntry>,
    comps: Option<ComponentsObject>,
    acc: Seq<PathRoutesV>,
    es: Seq<EntryV>,
) -> Result<(Seq<PathRoutesV>, Seq<EntryV>), ErrorV>
    decreases paths.len(),
{
    if paths.len() == 0 {
        Ok((acc, es))
    } else {
        let pe = paths[0];
        let api_path = seq!["paths"@, pe.path@];
        match analyse_result(pe.path@) {
            Err(e) => Err(e),
            Ok(segs) => match unwrap_ref_spec(pe.item) {
                Err(e) => Err(e),
                Ok(item) => if item.has_parameters() {
                    Err(ErrorV::Unsupported("Path-level paraters are not supported"@))
                } else {
                    match ops_spec(item, api_path, segs, comps) {
                        Err(e) => Err(e),
                        Ok((rs, inner)) => paths_spec(
                            paths.subrange(1, paths.len() as int),
                            comps,
                            if rs.len() > 0 {
                                acc.push((pe.path@, rs))
                            } else {
                                acc
                            },
                            es + inner,
                        ),
                    }
                },
            },
        }
    }
}

/// Walks every path of the description, in order.
pub fn walk_paths(paths: &Vec<PathEntry>, type_index: &mut TypeLookup, comps: &Option<ComponentsObject>) -> (r:
    Result<Vec<PathRoutes>, Error>)
    ensures
        extends(old(type_index)@, final(type_index)@),
        match paths_spec(paths@, *comps, Seq::empty(), Seq::empty()) {
            Ok((rs, es)) => r matches Ok(v) && path_routes_view(v@) == rs && final(type_index)@
                == old(type_index)@ + es,
            Err(e) => r matches Err(x) && x@ == e,
        },
{
    let ghost start = type_index@;
    let ghost whole = paths_spec(paths@, *comps, Seq::empty(), Seq::empty());
    let mut routes: Vec<PathRoutes> = Vec::new();
    let api_path = ApiPath::root().push("paths");
    let mut i: usize = 0;
    assert(paths@.skip(0) =~= paths@);
    assert(path_routes_view(routes@) =~= Seq::<PathRoutesV>::empty());
    assert(type_index@.subrange(start.len() as int, type_index@.len() as int) =~= Seq::<
        EntryV,
    >::empty());
    while i < paths.len()
        invariant
            extends(old(type_index)@, type_index@),
            i <= paths@.len(),
            api_path@ == seq!["paths"@],
            whole == paths_spec(paths@, *comps, Seq::empty(), Seq::empty()),
            start.len() <= type_index@.len(),
            type_index@.subrange(0, start.len() as int) == start,
            paths_spec(
                paths@.skip(i as int),
                *comps,
                path_routes_view(routes@),
                type_index@.subrange(start.len() as int, type_index@.len() as int),
            ) == whole,
        decreases paths@.len() - i,
    {
        let ghost rest = paths@.skip(i as int);
        let ghost es0 = type_index@.subrange(start.len() as int, type_index@.len() as int);
        let ghost acc0 = path_routes_view(routes@);
        let ghost mid = type_index@;
        assert(rest[0] == paths@[i as int]);
        assert(rest.subrange(1, rest.len() as int) =~= paths@.skip(i + 1));
        let entry = &paths[i];
        let p = api_path.duplicate().push(entry.path.as_str());
        assert(p@ =~= seq!["paths"@, entry.path@]);
        let route_path = RoutePath::analyse(entry.path.as_str())?;
        let pathitem = unwrap_ref(&entry.item)?;
        if pathitem.has_parameters() {
            return Err(unsupported_msg("Path-level paraters are not supported"));
        }
        let found = walk_operations(pathitem, &p, &route_path, type_index, comps)?;
        proof {
            let os = ops_spec(*pathitem, seq!["paths"@, entry.path@], route_path@, *comps);
            assert(os is Ok);
            let inner = os->Ok_0.1;
            assert(type_index@ =~= mid + inner);
            assert(type_index@.subrange(0, start.len() as int) =~= start);
            assert(type_index@.subrange(start.len() as int, type_index@.len() as int) =~= es0
                + inner);
        }
        if found.len() > 0 {
            routes.push(PathRoutes { path: entry.path.clone(), routes: found });
            assert(path_routes_view(routes@) =~= acc0.push(
                (entry.path@, routes_view(routes@.last().routes@)),
            ));
        }
        i = i + 1;
    }
    assert(paths@.skip(i as int) =~= Seq::<PathEntry>::empty());
    assert(type_index@ =~= start + type_index@.subrange(
        start.len() as int,
        type_index@.len() as int,
    ));
    Ok(routes)
}

} // verus!

verus! {

/// How often `x` occurs in `s`.
pub open spec fn count(s: Seq<Seq<char>>, x: Seq<char>) -> nat
    decreases s.len(),
{
    if s.len() == 0 {
        0
    } else {
        count(s.drop_last(), x) + if s.last() == x {
            1nat
        } else {
            0nat
        }
    }
}

/// The distinct elements of `s`, in the order they first occur.
pub open spec fn distinct(s: Seq<Seq<char>>) -> Seq<Seq<char>>
    decreases s.len(),
{
    if s.len() == 0 {
        Seq::empty()
    } else {
        let d = distinct(s.drop_last());
        if d.contains(s.last()) {
            d
        } else {
            d.push(s.last())
        }
    }
}

/// Those of `d` that occur more than once in `s`, in the order of `d`.
pub open spec fn repeated(d: Seq<Seq<char>>, s: Seq<Seq<char>>) -> Seq<Seq<char>>
    decreases d.len(),
{
    if d.len() == 0 {
        Seq::empty()
    } else {
        let r = repeated(d.drop_last(), s);
        if count(s, d.last()) > 1 {
            r.push(d.last())
        } else {
            r
        }
    }
}

/// Counts how often each value occurs; values are kept in the order they
/// first occur.
pub struct Counter {
    values: Vec<Ident>,
    counts: Vec<usize>,
    seen: Ghost<Seq<Seq<char>>>,
}

impl Counter {
    /// The values counted, in the order they were given.
    pub closed spec fn counted(&self) -> Seq<Seq<char>> {
        self.seen@
    }

    pub closed spec fn wf(&self) -> bool {
        let s = self.seen@;
        &&& self.values@.len() == self.counts@.len()
        &&& self.values@.map_values(|x: Ident| x@) == distinct(s)
        &&& forall|k: int| 0 <= k < self.counts@.len() ==> #[trigger] self.counts@[k] == count(s, self.values@[k]@)
    }

    /// The values that occur in `items`, with their counts.
    pub fn from_iter(items: Vec<Ident>) -> (r: Counter)
        ensures
            r.wf(),
            r.counted() == items@.map_values(|x: Ident| x@),
    {
        let ghost s = items@.map_values(|x: Ident| x@);
        let mut c = Counter { values: Vec::new(), counts: Vec::new(), seen: Ghost(s.take(0)) };
        let mut i: usize = 0;
        assert(c.values@.map_values(|x: Ident| x@) =~= distinct(s.take(0)));
        while i < items.len()
            invariant
                i <= items@.len(),
                s == items@.map_values(|x: Ident| x@),
                c.seen@ == s.take(i as int),
                c.wf(),
                c.values@.len() <= i,
            decreases items@.len() - i,
        {
            let ghost pre = s.take(i as int);
            let ghost next = s.take(i + 1);
            assert(next.drop_last() =~= pre);
            assert(next.last() == items@[i as int]@);
            let item = &items[i];
            let pos = find_value(&c.values, item);
            let found = pos.is_some();
            let k: usize = match pos {
                Some(k) => k,
                None => 0,
            };
            proof {
                lemma_count_push(pre, items@[i as int]@);
            }
            if found {
                let n = c.counts[k];
                proof {
                    lemma_count_bound(pre, item@);
                }
                c.counts.set(k, n + 1);
                c.seen = Ghost(next);
                assert(distinct(pre).contains(item@)) by {
                    assert(c.values@.map_values(|x: Ident| x@)[k as int] == item@);
                }
                assert(c.wf()) by {
                    assert forall|j: int| 0 <= j < c.counts@.len() implies #[trigger] c.counts@[j] == count(next, c.values@[j]@) by {
                        lemma_count_push(pre, item@);
                        if j != k {
                            assert(c.values@[j]@ != item@) by {
                                lemma_distinct_unique(pre);
                                assert(c.values@.map_values(|x: Ident| x@)[j] == c.values@[j]@);
                                assert(c.values@.map_values(|x: Ident| x@)[k as int] == item@);
                            }
                        }
                    }
                }
            } else {
                assert(!distinct(pre).contains(item@)) by {
                    if distinct(pre).contains(item@) {
                        let j = choose|j: int| 0 <= j < distinct(pre).len() && distinct(pre)[j] == item@;
                        assert(c.values@.map_values(|x: Ident| x@)[j] == c.values@[j]@);
                        assert(c.values@[j]@ != item@);
                    }
                }
                proof {
                    lemma_count_absent(pre, item@);
                }
                let ghost vs0 = c.values@.map_values(|x: Ident| x@);
                c.values.push(item.duplicate());
                c.counts.push(1);
                c.seen = Ghost(next);
                assert(c.values@.map_values(|x: Ident| x@) =~= vs0.push(item@));
                assert(c.wf()) by {
                    assert forall|j: int| 0 <= j < c.counts@.len() implies #[trigger] c.counts@[j] == count(next, c.values@[j]@) by {
                        if j < c.counts@.len() - 1 {
                            assert(c.values@[j]@ != item@) by {
                                assert(vs0[j] == c.values@[j]@);
                            }
                        }
                    }
                }
            }
            i = i + 1;
        }
        assert(s.take(items@.len() as int) =~= s);
        c
    }

    /// The values that occur more than once.
    pub fn find_duplicates(&self) -> (r: Vec<&Ident>)
        requires
            self.wf(),
        ensures
            r@.map_values(|x: &Ident| x@) == repeated(distinct(self.counted()), self.counted()),
    {
        let ghost s = self.counted();
        let mut r: Vec<&Ident> = Vec::new();
        let mut k: usize = 0;
        let ghost d = distinct(s);
        while k < self.values.len()
            invariant
                k <= self.values@.len(),
                self.wf(),
                s == self.counted(),
                d == distinct(s),
                d.len() == self.values@.len(),
                r@.map_values(|x: &Ident| x@) == repeated(d.take(k as int), s),
            decreases self.values@.len() - k,
        {
            assert(d.take(k + 1).drop_last() =~= d.take(k as int));
            assert(d.take(k + 1).last() == self.values@[k as int]@) by {
                assert(self.values@.map_values(|x: Ident| x@)[k as int] == self.values@[k as int]@);
            }
            if self.counts[k] > 1 {
                let ghost before = r@.map_values(|x: &Ident| x@);
                r.push(&self.values[k]);
                assert(r@.map_values(|x: &Ident| x@) =~= before.push(self.values@[k as int]@));
            }
            k = k + 1;
        }
        assert(d.take(d.len() as int) =~= d);
        r
    }
}

proof fn lemma_count_push(s: Seq<Seq<char>>, x: Seq<char>)
    ensures
        forall|y: Seq<char>| #[trigger] count(s.push(x), y) == count(s, y) + if x == y {
            1nat
        } else {
            0nat
        },
{
    assert forall|y: Seq<char>| #[trigger] count(s.push(x), y) == count(s, y) + if x == y {
        1nat
    } else {
        0nat
    } by {
        assert(s.push(x).drop_last() =~= s);
    }
}

proof fn lemma_count_bound(s: Seq<Seq<char>>, x: Seq<char>)
    ensures
        count(s, x) <= s.len(),
    decreases s.len(),
{
    if s.len() > 0 {
        lemma_count_bound(s.drop_last(), x);
    }
}

proof fn lemma_count_absent(s: Seq<Seq<char>>, x: Seq<char>)
    requires
        !distinct(s).contains(x),
    ensures
        count(s, x) == 0,
    decreases s.len(),
{
    if s.len() > 0 {
        let d = distinct(s.drop_last());
        if d.contains(x) {
            if d.contains(s.last()) {
            } else {
                assert(d.push(s.last()).contains(x)) by {
                    let j = choose|j: int| 0 <= j < d.len() && d[j] == x;
                    assert(d.push(s.last())[j] == x);
                }
            }
        }
        if s.last() == x {
            if d.contains(s.last()) {
            } else {
                assert(d.push(s.last())[d.len() as int] == x);
            }
        }
        lemma_count_absent(s.drop_last(), x);
    }
}

proof fn lemma_distinct_unique(s: Seq<Seq<char>>)
    ensures
        forall|i: int, j: int|
            0 <= i < distinct(s).len() && 0 <= j < distinct(s).len() && i != j ==> distinct(s)[i]
                != distinct(s)[j],
    decreases s.len(),
{
    if s.len() > 0 {
        lemma_distinct_unique(s.drop_last());
        let d = distinct(s.drop_last());
        if !d.contains(s.last()) {
            assert forall|i: int| 0 <= i < d.len() implies d[i] != s.last() by {}
        }
    }
}

proof fn lemma_count_contains(s: Seq<Seq<char>>, x: Seq<char>)
    ensures
        count(s, x) > 0 <==> s.contains(x),
    decreases s.len(),
{
    if s.len() > 0 {
        lemma_count_contains(s.drop_last(), x);
        if s.drop_last().contains(x) {
            let j = choose|j: int| 0 <= j < s.drop_last().len() && s.drop_last()[j] == x;
            assert(s[j] == x);
        }
        if s.contains(x) {
            let j = choose|j: int| 0 <= j < s.len() && s[j] == x;
            if j < s.len() - 1 {
                assert(s.drop_last()[j] == x);
            }
        }
        if s.last() == x {
            assert(s[s.len() - 1] == x);
        }
    }
}

proof fn lemma_distinct_contains(s: Seq<Seq<char>>, x: Seq<char>)
    ensures
        distinct(s).contains(x) <==> s.contains(x),
    decreases s.len(),
{
    if s.len() > 0 {
        lemma_distinct_contains(s.drop_last(), x);
        let d = distinct(s.drop_last());
        if s.drop_last().contains(x) {
            let j = choose|j: int| 0 <= j < s.drop_last().len() && s.drop_last()[j] == x;
            assert(s[j] == x);
        }
        if s.contains(x) {
            let j = choose|j: int| 0 <= j < s.len() && s[j] == x;
            if j < s.len() - 1 {
                assert(s.drop_last()[j] == x);
            }
        }
        if !d.contains(s.last()) {
            assert(d.push(s.last())[d.len() as int] == s.last());
            if d.push(s.last()).contains(x) && x != s.last() {
                let j = choose|j: int| 0 <= j < d.push(s.last()).len() && d.push(s.last())[j] == x;
                assert(d[j] == x);
            }
            if d.contains(x) {
                let j = choose|j: int| 0 <= j < d.len() && d[j] == x;
                assert(d.push(s.last())[j] == x);
            }
        }
        assert(s[s.len() - 1] == s.last());
    }
}

proof fn lemma_repeated_contains(d: Seq<Seq<char>>, s: Seq<Seq<char>>, x: Seq<char>)
    ensures
        repeated(d, s).contains(x) <==> d.contains(x) && count(s, x) > 1,
    decreases d.len(),
{
    if d.len() > 0 {
        lemma_repeated_contains(d.drop_last(), s, x);
        let r = repeated(d.drop_last(), s);
        if d.drop_last().contains(x) {
            let j = choose|j: int| 0 <= j < d.drop_last().len() && d.drop_last()[j] == x;
            assert(d[j] == x);
        }
        if d.contains(x) {
            let j = choose|j: int| 0 <= j < d.len() && d[j] == x;
            if j < d.len() - 1 {
                assert(d.drop_last()[j] == x);
            }
        }
        assert(d[d.len() - 1] == d.last());
        if count(s, d.last()) > 1 {
            assert(r.push(d.last())[r.len() as int] == d.last());
            if r.push(d.last()).contains(x) && x != d.last() {
                let j = choose|j: int| 0 <= j < r.push(d.last()).len() && r.push(d.last())[j] == x;
                assert(r[j] == x);
            }
            if r.contains(x) {
                let j = choose|j: int| 0 <= j < r.len() && r[j] == x;
                assert(r.push(d.last())[j] == x);
            }
        }
    }
}

proof fn lemma_repeated_unique(d: Seq<Seq<char>>, s: Seq<Seq<char>>)
    requires
        no_repeats(d),
    ensures
        no_repeats(repeated(d, s)),
    decreases d.len(),
{
    if d.len() > 0 {
        let p = d.drop_last();
        assert(no_repeats(p)) by {
            assert forall|i: int, j: int| 0 <= i < p.len() && 0 <= j < p.len() && i != j implies p[i] != p[j] by {
                assert(p[i] == d[i] && p[j] == d[j]);
            }
        }
        lemma_repeated_unique(p, s);
        let r = repeated(p, s);
        if count(s, d.last()) > 1 {
            lemma_repeated_contains(p, s, d.last());
            assert(!p.contains(d.last())) by {
                if p.contains(d.last()) {
                    let j = choose|j: int| 0 <= j < p.len() && p[j] == d.last();
                    assert(d[j] == d[d.len() - 1]);
                }
            }
            let q = r.push(d.last());
            assert forall|i: int, j: int| 0 <= i < q.len() && 0 <= j < q.len() && i != j implies q[i] != q[j] by {
                if i == r.len() && j < r.len() {
                    assert(q[j] == r[j]);
                    assert(r.contains(r[j]));
                } else if j == r.len() && i < r.len() {
                    assert(q[i] == r[i]);
                    assert(r.contains(r[i]));
                } else {
                    assert(q[i] == r[i] && q[j] == r[j]);
                }
            }
        }
    }
}

/// The values reported as duplicates are each reported once, and they are
/// exactly the values that occur more than once.
pub proof fn law_duplicates_listed(s: Seq<Seq<char>>)
    ensures
        no_repeats(repeated(distinct(s), s)),
        forall|x: Seq<char>| #[trigger] repeated(distinct(s), s).contains(x) <==> count(s, x) > 1,
{
    lemma_distinct_unique(s);
    lemma_repeated_unique(distinct(s), s);
    assert forall|x: Seq<char>| #[trigger] repeated(distinct(s), s).contains(x) <==> count(s, x) > 1 by {
        lemma_repeated_contains(distinct(s), s, x);
        lemma_distinct_contains(s, x);
        lemma_count_contains(s, x);
    }
}

fn find_value(values: &Vec<Ident>, x: &Ident) -> (r: Option<usize>)
    ensures
        r matches Some(k) ==> k < values@.len() && values@[k as int]@ == x@,
        r is None ==> forall|j: int| 0 <= j < values@.len() ==> values@[j]@ != x@,
{
    let mut k: usize = 0;
    while k < values.len()
        invariant
            k <= values@.len(),
            forall|j: int| 0 <= j < k ==> values@[j]@ != x@,
        decreases values@.len() - k,
    {
        if values[k].same(x) {
            return Some(k);
        }
        k = k + 1;
    }
    None
}

} // verus!

verus! {

/// The operation ids of all routes, in order.
pub open spec fn all_opids(rs: Seq<PathRoutesV>) -> Seq<Seq<char>>
    decreases rs.len(),
{
    if rs.len() == 0 {
        Seq::empty()
    } else {
        all_opids(rs.drop_last()) + rs.last().1.map_values(|r: RouteV| r.operation_id)
    }
}

/// `[Ident("a"), Ident("b")]`: how a list of identifiers is shown in
/// messages.
pub open spec fn debug_idents(names: Seq<Seq<char>>) -> Seq<char> {
    seq!['['] + debug_ident_items(names) + seq![']']
}

pub open spec fn debug_ident(n: Seq<char>) -> Seq<char> {
    "Ident(\""@ + n + "\")"@
}

pub open spec fn debug_ident_items(names: Seq<Seq<char>>) -> Seq<char>
    decreases names.len(),
{
    if names.len() == 0 {
        Seq::empty()
    } else if names.len() == 1 {
        debug_ident(names[0])
    } else {
        debug_ident_items(names.drop_last()) + ", "@ + debug_ident(names.last())
    }
}

/// The refusal of a set of routes, if any: an operation id used twice.
pub open spec fn validate_spec(rs: Seq<PathRoutesV>) -> Option<ErrorV> {
    let ids = all_opids(rs);
    let dupes = repeated(distinct(ids), ids);
    if dupes.len() > 0 {
        Some(ErrorV::Validation("Duplicate operationId: "@ + debug_idents(dupes)))
    } else {
        None
    }
}

fn collect_opids(routes: &Vec<PathRoutes>) -> (r: Vec<Ident>)
    ensures
        r@.map_values(|x: Ident| x@) == all_opids(path_routes_view(routes@)),
{
    let mut out: Vec<Ident> = Vec::new();
    let ghost rv = path_routes_view(routes@);
    let mut i: usize = 0;
    while i < routes.len()
        invariant
            i <= routes@.len(),
            rv == path_routes_view(routes@),
            out@.map_values(|x: Ident| x@) == all_opids(rv.take(i as int)),
        decreases routes@.len() - i,
    {
        assert(rv.take(i + 1).drop_last() =~= rv.take(i as int));
        let group = &routes[i].routes;
        let ghost base = out@.map_values(|x: Ident| x@);
        let ghost gv = routes_view(group@);
        assert(rv.take(i + 1).last() == rv[i as int]);
        assert(rv[i as int].1 == gv);
        let mut k: usize = 0;
        while k < group.len()
            invariant
                k <= group@.len(),
                gv == routes_view(group@),
                out@.map_values(|x: Ident| x@) == base + gv.take(k as int).map_values(
                    |r: RouteV| r.operation_id,
                ),
            decreases group@.len() - k,
        {
            let ghost before = out@.map_values(|x: Ident| x@);
            out.push(group[k].operation_id.duplicate());
            assert(gv[k as int] == group@[k as int]@);
            assert(gv.take(k + 1).map_values(|r: RouteV| r.operation_id) =~= gv.take(
                k as int,
            ).map_values(|r: RouteV| r.operation_id).push(group@[k as int].operation_id@));
            assert(out@.map_values(|x: Ident| x@) =~= before.push(out@.last()@));
            k = k + 1;
        }
        assert(gv.take(gv.len() as int) =~= gv);
        i = i + 1;
    }
    assert(rv.take(rv.len() as int) =~= rv);
    out
}

/// Validations which require checking across all routes: no operation id
/// may be used twice.
pub fn validate_routes(routes: &Vec<PathRoutes>) -> (r: Result<(), Error>)
    ensures
        match validate_spec(path_routes_view(routes@)) {
            None => r is Ok,
            Some(e) => r matches Err(x) && x@ == e,
        },
{
    let ids = collect_opids(routes);
    let ghost s = ids@.map_values(|x: Ident| x@);
    let counter = Counter::from_iter(ids);
    let dupes = counter.find_duplicates();
    if dupes.len() > 0 {
        let mut m = String::from_str("Duplicate operationId: ");
        crate::text::push_char(&mut m, '[');
        let ghost start = m@;
        let ghost dv = dupes@.map_values(|x: &Ident| x@);
        let mut i: usize = 0;
        while i < dupes.len()
            invariant
                i <= dupes@.len(),
                dv == dupes@.map_values(|x: &Ident| x@),
                m@ == start + debug_ident_items(dv.take(i as int)),
            decreases dupes@.len() - i,
        {
            let ghost before = m@;
            assert(dv.take(i + 1).drop_last() =~= dv.take(i as int));
            assert(dv.take(i + 1).last() == dupes@[i as int]@);
            if i > 0 {
                m.append(", ");
            }
            m.append("Ident(\"");
            m.append(dupes[i].as_str());
            m.append("\")");
            if i > 0 {
                assert(m@ =~= before + (", "@ + debug_ident(dupes@[i as int]@)));
            } else {
                assert(dv.take(1) =~= seq![dv[0]]);
                assert(m@ =~= before + debug_ident(dupes@[i as int]@));
            }
            i = i + 1;
        }
        crate::text::push_char(&mut m, ']');
        assert(dv.take(dv.len() as int) =~= dv);
        assert(m@ =~= "Duplicate operationId: "@ + debug_idents(dv));
        Err(Error::Validation(m))
    } else {
        Ok(())
    }
}

/// What walking a whole description gives: the definitions recorded
/// (component schemas first, then those of each path in order) and the
/// routes grouped by path.
pub open spec fn api_spec(api: OpenApi) -> Result<(Seq<EntryV>, Seq<PathRoutesV>), ErrorV> {
    if api.has_security() {
        Err(ErrorV::Unsupported("Security not supported"@))
    } else {
        match schemas_spec(schema_lookup(api.components), Seq::empty()) {
            Err(e) => Err(e),
            Ok(es1) => match paths_spec(api.paths@, api.components, Seq::empty(), Seq::empty()) {
                Err(e) => Err(e),
                Ok((rs, es2)) => match validate_spec(rs) {
                    Some(e) => Err(e),
                    None => Ok((es1 + es2, rs)),
                },
            },
        }
    }
}

/// Walks the description: collects the types it defines and its routes.
pub fn walk_api(api: &OpenApi) -> (r: Result<(TypeLookup, Vec<PathRoutes>), Error>)
    ensures
        match api_spec(*api) {
            Ok((es, rs)) => r matches Ok((idx, routes)) && idx@ == es && path_routes_view(routes@)
                == rs,
            Err(e) => r matches Err(x) && x@ == e,
        },
{
    if api.has_security() {
        return Err(unsupported_msg("Security not supported"));
    }
    let mut type_index = TypeLookup::new();
    let empty: Vec<Named<SchemaObject>> = Vec::new();
    let schemas = match &api.components {
        Some(c) => &c.schemas,
        None => &empty,
    };
    assert(schemas@ == schema_lookup(api.components));
    walk_component_schemas(schemas, &mut type_index)?;
    let routes = walk_paths(&api.paths, &mut type_index, &api.components)?;
    validate_routes(&routes)?;
    proof {
        let a = schemas_spec(schema_lookup(api.components), Seq::empty());
        assert(a is Ok);
        let b = paths_spec(api.paths@, api.components, Seq::empty(), Seq::empty());
        assert(b is Ok);
        assert(type_index@ =~= a->Ok_0 + b->Ok_0.1);
    }
    Ok((type_index, routes))
}

proof fn lemma_count_pos(s: Seq<Seq<char>>, i: int)
    requires
        0 <= i < s.len(),
    ensures
        count(s, s[i]) >= 1,
    decreases s.len(),
{
    if i < s.len() - 1 {
        lemma_count_pos(s.drop_last(), i);
    }
}

proof fn lemma_count_two(s: Seq<Seq<char>>, i: int, j: int)
    requires
        0 <= i < j < s.len(),
        s[i] == s[j],
    ensures
        count(s, s[i]) >= 2,
    decreases s.len(),
{
    let t = s.drop_last();
    if j == s.len() - 1 {
        lemma_count_pos(t, i);
    } else {
        lemma_count_two(t, i, j);
    }
}

proof fn lemma_repeated_has(d: Seq<Seq<char>>, s: Seq<Seq<char>>, k: int)
    requires
        0 <= k < d.len(),
        count(s, d[k]) > 1,
    ensures
        repeated(d, s).len() > 0,
    decreases d.len(),
{
    if k < d.len() - 1 {
        lemma_repeated_has(d.drop_last(), s, k);
    }
}

/// A description the walk accepts uses no operation id twice.
pub proof fn law_operation_ids_unique(api: OpenApi)
    requires
        api_spec(api) is Ok,
    ensures
        crate::model::no_repeats(all_opids(api_spec(api)->Ok_0.1)),
{
    let rs = api_spec(api)->Ok_0.1;
    assert(validate_spec(rs) is None);
    law_validation_refuses_repeats(rs);
}

proof fn lemma_count_zero(s: Seq<Seq<char>>, x: Seq<char>)
    requires
        !s.contains(x),
    ensures
        count(s, x) == 0,
    decreases s.len(),
{
    if s.len() > 0 {
        assert(s.drop_last().contains(x) ==> s.contains(x)) by {
            if s.drop_last().contains(x) {
                let k = choose|k: int| 0 <= k < s.drop_last().len() && s.drop_last()[k] == x;
                assert(s[k] == x);
            }
        }
        assert(s[s.len() - 1] == s.last());
        lemma_count_zero(s.drop_last(), x);
    }
}

proof fn lemma_count_at_most_one(s: Seq<Seq<char>>, x: Seq<char>)
    requires
        crate::model::no_repeats(s),
    ensures
        count(s, x) <= 1,
    decreases s.len(),
{
    if s.len() > 0 {
        let t = s.drop_last();
        assert(crate::model::no_repeats(t)) by {
            assert forall|i: int, j: int| 0 <= i < t.len() && 0 <= j < t.len() && i != j implies t[i]
                != t[j] by {
                assert(t[i] == s[i] && t[j] == s[j]);
            }
        }
        if s.last() == x {
            assert(!t.contains(x)) by {
                if t.contains(x) {
                    let k = choose|k: int| 0 <= k < t.len() && t[k] == x;
                    assert(s[k] == s[s.len() - 1]);
                }
            }
            lemma_count_zero(t, x);
        } else {
            lemma_count_at_most_one(t, x);
        }
    }
}

proof fn lemma_repeated_none(d: Seq<Seq<char>>, s: Seq<Seq<char>>)
    requires
        crate::model::no_repeats(s),
    ensures
        repeated(d, s).len() == 0,
    decreases d.len(),
{
    if d.len() > 0 {
        lemma_count_at_most_one(s, d.last());
        lemma_repeated_none(d.drop_last(), s);
    }
}

/// The check across routes refuses them exactly when some operation id is
/// used twice.
pub proof fn law_validation_refuses_repeats(rs: Seq<PathRoutesV>)
    ensures
        validate_spec(rs) is None <==> crate::model::no_repeats(all_opids(rs)),
{
    let ids = all_opids(rs);
    if crate::model::no_repeats(ids) {
        lemma_repeated_none(distinct(ids), ids);
    } else {
        let (i, j) = choose|i: int, j: int|
            0 <= i < ids.len() && 0 <= j < ids.len() && i != j && ids[i] == ids[j];
        if i < j {
            lemma_count_two(ids, i, j);
        } else {
            lemma_count_two(ids, j, i);
        }
        if !distinct(ids).contains(ids[i]) {
            lemma_count_absent(ids, ids[i]);
        }
        let k = choose|k: int| 0 <= k < distinct(ids).len() && distinct(ids)[k] == ids[i];
        lemma_repeated_has(distinct(ids), ids, k);
    }
}

} // verus!
