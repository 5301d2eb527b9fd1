//! URL path templates such as `/pets/{id}`, checked and broken into
//! literal and parameter segments.
use vstd::prelude::*;
use crate::error::{Error, ErrorV, invalid};
use crate::text::{
    all_word_chars, alpha, chars_of, is_alpha, is_word_char, push_char, split_acc, split_by, split_chars,
    string_of, word_char,
};

verus! {

/// One segment of a path template.
#[derive(Debug, PartialEq, Eq)]
pub enum PathSegment {
    Literal(String),
    Param(String),
}

/// The view of a segment.
pub enum SegmentView {
    Literal(Seq<char>),
    Param(Seq<char>),
}

impl View for PathSegment {
    type V = SegmentView;

    open spec fn view(&self) -> SegmentView {
        match self {
            PathSegment::Literal(s) => SegmentView::Literal(s@),
            PathSegment::Param(s) => SegmentView::Param(s@),
        }
    }
}

/// `^[[:alpha:]]([[:alnum:]]|_)*$`
pub open spec fn is_literal_segment(s: Seq<char>) -> bool {
    s.len() > 0 && is_alpha(s[0]) && all_word_chars(s)
}

/// `^\{([[:alpha:]]([[:alnum:]]|_)*)\}$`
pub open spec fn is_param_segment(s: Seq<char>) -> bool {
    s.len() >= 2 && s[0] == '{' && s[s.len() - 1] == '}' && is_literal_segment(
        s.subrange(1, s.len() - 1),
    )
}

/// The name inside `{...}`.
pub open spec fn param_name(s: Seq<char>) -> Seq<char> {
    s.subrange(1, s.len() - 1)
}

/// Why a path template was refused.
pub enum PathFault {
    NoLeadingSlash,
    BadSegment,
    DuplicateParameter,
}

/// Classifies `segs` in order, after the segments `acc` already found:
/// each must be a literal or a parameter, and no parameter may repeat.
pub open spec fn analyse_acc(segs: Seq<Seq<char>>, acc: Seq<SegmentView>) -> Result<
    Seq<SegmentView>,
    PathFault,
>
    decreases segs.len(),
{
    if segs.len() == 0 {
        Ok(acc)
    } else {
        let s = segs[0];
        if is_literal_segment(s) {
            analyse_acc(segs.drop_first(), acc.push(SegmentView::Literal(s)))
        } else if is_param_segment(s) {
            if acc.contains(SegmentView::Param(param_name(s))) {
                Err(PathFault::DuplicateParameter)
            } else {
                analyse_acc(segs.drop_first(), acc.push(SegmentView::Param(param_name(s))))
            }
        } else {
            Err(PathFault::BadSegment)
        }
    }
}

/// What `RoutePath::analyse` makes of a path template.
pub open spec fn analyse_spec(path: Seq<char>) -> Result<Seq<SegmentView>, PathFault> {
    if path.len() == 0 || path[0] != '/' {
        Err(PathFault::NoLeadingSlash)
    } else {
        analyse_acc(split_by(path.drop_first(), '/'), Seq::empty())
    }
}

/// What `RoutePath::analyse` returns, with the message of each refusal.
pub open spec fn analyse_result(path: Seq<char>) -> Result<Seq<SegmentView>, ErrorV> {
    match analyse_spec(path) {
        Ok(segs) => Ok(segs),
        Err(PathFault::NoLeadingSlash) => Err(
            ErrorV::Validation("Bad path '"@ + path + "' (must start with '/')"@),
        ),
        Err(PathFault::BadSegment) => Err(ErrorV::Validation("Bad path '"@ + path + "'"@)),
        Err(PathFault::DuplicateParameter) => Err(
            ErrorV::Validation("Duplicate parameter in path '"@ + path + "'"@),
        ),
    }
}

/// The parameter names among `segs`, in order.
pub open spec fn params_in(segs: Seq<SegmentView>) -> Seq<Seq<char>>
    decreases segs.len(),
{
    if segs.len() == 0 {
        Seq::empty()
    } else {
        let rest = params_in(segs.drop_last());
        match segs.last() {
            SegmentView::Param(p) => rest.push(p),
            SegmentView::Literal(_) => rest,
        }
    }
}

/// The template text of `segs`: `/lit` for a literal, `/{p}` for a parameter.
pub open spec fn route_text(segs: Seq<SegmentView>) -> Seq<char>
    decreases segs.len(),
{
    if segs.len() == 0 {
        Seq::empty()
    } else {
        route_text(segs.drop_last()) + match segs.last() {
            SegmentView::Literal(l) => seq!['/'] + l,
            SegmentView::Param(p) => seq!['/', '{'] + p + seq!['}'],
        }
    }
}

/// A checked path template.
#[derive(Debug)]
pub struct RoutePath {
    segments: Vec<PathSegment>,
}

impl View for RoutePath {
    type V = Seq<SegmentView>;

    closed spec fn view(&self) -> Seq<SegmentView> {
        self.segments@.map_values(|s: PathSegment| s@)
    }
}

fn is_literal(cs: &Vec<char>, from: usize, to: usize) -> (r: bool)
    requires
        from <= to <= cs@.len(),
    ensures
        r == is_literal_segment(cs@.subrange(from as int, to as int)),
{
    if from == to || !alpha(cs[from]) {
        return false;
    }
    let mut i: usize = from;
    while i < to
        invariant
            from <= i <= to <= cs@.len(),
            forall|j: int| from <= j < i ==> is_word_char(#[trigger] cs@[j]),
        decreases to - i,
    {
        if !word_char(cs[i]) {
            assert(!is_word_char(cs@.subrange(from as int, to as int)[i - from]));
            return false;
        }
        i = i + 1;
    }
    assert forall|j: int| 0 <= j < to - from implies is_word_char(
        #[trigger] cs@.subrange(from as int, to as int)[j],
    ) by {
        assert(cs@.subrange(from as int, to as int)[j] == cs@[from + j]);
    }
    true
}

fn has_parameter(acc: &Vec<PathSegment>, name: &String) -> (r: bool)
    ensures
        r == acc@.map_values(|s: PathSegment| s@).contains(SegmentView::Param(name@)),
{
    let ghost v = acc@.map_values(|s: PathSegment| s@);
    let mut i: usize = 0;
    while i < acc.len()
        invariant
            v == acc@.map_values(|s: PathSegment| s@),
            i <= acc@.len(),
            forall|j: int| 0 <= j < i ==> v[j] != SegmentView::Param(name@),
        decreases acc@.len() - i,
    {
        match &acc[i] {
            PathSegment::Param(p) => {
                if *p == *name {
                    assert(v[i as int] == SegmentView::Param(name@));
                    return true;
                }
            },
            PathSegment::Literal(_) => {},
        }
        i = i + 1;
    }
    false
}

impl RoutePath {
    /// Check a path is well-formed and break it into its respective segments.
    pub fn analyse(path: &str) -> (r: Result<RoutePath, Error>)
        ensures
            match analyse_result(path@) {
                Ok(segs) => r matches Ok(rp) && rp@ == segs,
                Err(e) => r matches Err(x) && x@ == e,
            },
            match analyse_spec(path@) {
                Ok(segs) => r matches Ok(rp) && rp@ == segs,
                Err(PathFault::NoLeadingSlash) => r matches Err(Error::Validation(m)) && m@
                    == "Bad path '"@ + path@ + "' (must start with '/')"@,
                Err(PathFault::BadSegment) => r matches Err(Error::Validation(m)) && m@
                    == "Bad path '"@ + path@ + "'"@,
                Err(PathFault::DuplicateParameter) => r matches Err(Error::Validation(m))
                    && m@ == "Duplicate parameter in path '"@ + path@ + "'"@,
            },
    {
        let cs = chars_of(path);
        if cs.len() == 0 || cs[0] != '/' {
            return Err(invalid("Bad path '", path, "' (must start with '/')"));
        }
        let segs = split_chars(&cs, 1, '/');
        let ghost all = segs@.map_values(|v: Vec<char>| v@);
        assert(cs@.skip(1) =~= path@.drop_first());
        let mut segments: Vec<PathSegment> = Vec::new();
        assert(all.skip(0) =~= all);
        assert(segments@.map_values(|s: PathSegment| s@) =~= Seq::<SegmentView>::empty());
        let mut i: usize = 0;
        while i < segs.len()
            invariant
                all == segs@.map_values(|v: Vec<char>| v@),
                all == split_by(path@.drop_first(), '/'),
                cs@ == path@,
                i <= segs@.len(),
                analyse_acc(all.skip(i as int), segments@.map_values(|s: PathSegment| s@))
                    == analyse_spec(path@),
            decreases segs@.len() - i,
        {
            let seg = &segs[i];
            let ghost acc = segments@.map_values(|s: PathSegment| s@);
            assert(all.skip(i as int)[0] == seg@);
            assert(all.skip(i as int).drop_first() =~= all.skip(i + 1));
            assert(seg@.subrange(0, seg@.len() as int) =~= seg@);
            if is_literal(seg, 0, seg.len()) {
                let lit = string_of(seg.as_slice());
                segments.push(PathSegment::Literal(lit));
                assert(segments@.map_values(|s: PathSegment| s@) =~= acc.push(
                    SegmentView::Literal(seg@),
                ));
            } else if seg.len() >= 2 && seg[0] == '{' && seg[seg.len() - 1] == '}' && is_literal(
                seg,
                1,
                seg.len() - 1,
            ) {
                let mut name = String::new();
                let mut k: usize = 1;
                while k < seg.len() - 1
                    invariant
                        1 <= k <= seg@.len() - 1,
                        name@ == seg@.subrange(1, k as int),
                    decreases seg@.len() - 1 - k,
                {
                    push_char(&mut name, seg[k]);
                    assert(seg@.subrange(1, k as int).push(seg@[k as int]) =~= seg@.subrange(
                        1,
                        k + 1,
                    ));
                    k = k + 1;
                }
                if has_parameter(&segments, &name) {
                    return Err(invalid("Duplicate parameter in path '", path, "'"));
                }
                segments.push(PathSegment::Param(name));
                assert(segments@.map_values(|s: PathSegment| s@) =~= acc.push(
                    SegmentView::Param(param_name(seg@)),
                ));
            } else {
                return Err(invalid("Bad path '", path, "'"));
            }
            i = i + 1;
        }
        let r = RoutePath { segments };
        Ok(r)
    }

    pub fn duplicate(&self) -> (r: RoutePath)
        ensures
            r@ == self@,
    {
        let mut segments: Vec<PathSegment> = Vec::new();
        let mut i: usize = 0;
        while i < self.segments.len()
            invariant
                i <= self@.len(),
                self@ == self.segments@.map_values(|s: PathSegment| s@),
                segments@.map_values(|s: PathSegment| s@) == self@.take(i as int),
            decreases self@.len() - i,
        {
            let seg = match &self.segments[i] {
                PathSegment::Literal(l) => PathSegment::Literal(l.clone()),
                PathSegment::Param(p) => PathSegment::Param(p.clone()),
            };
            let ghost before = segments@.map_values(|s: PathSegment| s@);
            assert(seg@ == self@[i as int]);
            assert(self@.take(i + 1) =~= self@.take(i as int).push(self@[i as int]));
            segments.push(seg);
            assert(segments@.map_values(|s: PathSegment| s@) =~= self@.take(i + 1));
            i = i + 1;
        }
        assert(self@.take(self@.len() as int) =~= self@);
        RoutePath { segments }
    }

    /// The segments, in order.
    pub fn segments(&self) -> (r: &Vec<PathSegment>)
        ensures
            r@.map_values(|s: PathSegment| s@) == self@,
    {
        &self.segments
    }

    /// The names of the path parameters, in order.
    pub fn path_args(&self) -> (r: Vec<String>)
        ensures
            r@.map_values(|s: String| s@) == params_in(self@),
    {
        let mut r: Vec<String> = Vec::new();
        let mut i: usize = 0;
        while i < self.segments.len()
            invariant
                i <= self@.len(),
                self@ == self.segments@.map_values(|s: PathSegment| s@),
                r@.map_values(|s: String| s@) == params_in(self@.take(i as int)),
            decreases self@.len() - i,
        {
            let ghost before = r@.map_values(|s: String| s@);
            assert(self@.take(i + 1).drop_last() =~= self@.take(i as int));
            match &self.segments[i] {
                PathSegment::Param(p) => {
                    r.push(p.clone());
                    assert(r@.map_values(|s: String| s@) =~= before.push(p@));
                },
                PathSegment::Literal(_) => {},
            }
            i = i + 1;
        }
        assert(self@.take(self@.len() as int) =~= self@);
        r
    }

    /// The template text, e.g. `/pets/{id}`.
    pub fn to_string(&self) -> (r: String)
        ensures
            r@ == route_text(self@),
    {
        let mut r = String::new();
        let mut i: usize = 0;
        while i < self.segments.len()
            invariant
                i <= self@.len(),
                self@ == self.segments@.map_values(|s: PathSegment| s@),
                r@ == route_text(self@.take(i as int)),
            decreases self@.len() - i,
        {
            let ghost before = r@;
            assert(self@.take(i + 1).drop_last() =~= self@.take(i as int));
            match &self.segments[i] {
                PathSegment::Literal(p) => {
                    push_char(&mut r, '/');
                    r.append(p.as_str());
                    assert(r@ =~= before + (seq!['/'] + p@));
                },
                PathSegment::Param(p) => {
                    push_char(&mut r, '/');
                    push_char(&mut r, '{');
                    r.append(p.as_str());
                    push_char(&mut r, '}');
                    assert(r@ =~= before + (seq!['/', '{'] + p@ + seq!['}']));
                },
            }
            i = i + 1;
        }
        assert(self@.take(self@.len() as int) =~= self@);
        r
    }
}

/// Each piece preceded by `/`, one after the other.
pub open spec fn slash_join(ps: Seq<Seq<char>>) -> Seq<char>
    decreases ps.len(),
{
    if ps.len() == 0 {
        Seq::empty()
    } else {
        seq!['/'] + ps[0] + slash_join(ps.drop_first())
    }
}

proof fn lemma_split_slash_join(s: Seq<char>, cur: Seq<char>)
    ensures
        slash_join(split_acc(s, '/', cur)) == seq!['/'] + cur + s,
    decreases s.len(),
{
    if s.len() == 0 {
        let ps = split_acc(s, '/', cur);
        assert(ps =~= seq![cur]);
        assert(ps.drop_first() =~= Seq::<Seq<char>>::empty());
        assert(slash_join(ps.drop_first()) =~= Seq::<char>::empty());
        assert(ps[0] == cur);
        assert(slash_join(ps) =~= seq!['/'] + cur + s);
    } else if s[0] == '/' {
        let rest = split_acc(s.drop_first(), '/', Seq::empty());
        lemma_split_slash_join(s.drop_first(), Seq::empty());
        let ps = seq![cur] + rest;
        assert(ps[0] == cur);
        assert(ps.drop_first() =~= rest);
        assert(s =~= seq!['/'] + s.drop_first());
        assert(slash_join(ps) =~= seq!['/'] + cur + s);
    } else {
        lemma_split_slash_join(s.drop_first(), cur.push(s[0]));
        assert(seq!['/'] + cur.push(s[0]) + s.drop_first() =~= seq!['/'] + cur + s);
    }
}

proof fn lemma_analyse_text(ps: Seq<Seq<char>>, acc: Seq<SegmentView>)
    requires
        analyse_acc(ps, acc) is Ok,
    ensures
        route_text(analyse_acc(ps, acc)->Ok_0) == route_text(acc) + slash_join(ps),
    decreases ps.len(),
{
    if ps.len() == 0 {
        assert(route_text(acc) + slash_join(ps) =~= route_text(acc));
    } else {
        let s = ps[0];
        let seg = if is_literal_segment(s) {
            SegmentView::Literal(s)
        } else {
            SegmentView::Param(param_name(s))
        };
        lemma_analyse_text(ps.drop_first(), acc.push(seg));
        assert(acc.push(seg).drop_last() =~= acc);
        if !is_literal_segment(s) {
            assert(seq!['/', '{'] + param_name(s) + seq!['}'] =~= seq!['/'] + s);
        }
        assert(route_text(acc.push(seg)) =~= route_text(acc) + seq!['/'] + s);
        assert(route_text(acc.push(seg)) + slash_join(ps.drop_first()) =~= route_text(acc)
            + slash_join(ps));
    }
}

/// Writing out an analysed path gives back the path: the template text of
/// the segments that `analyse` finds is the text it was given.
pub proof fn law_route_text_round_trip(path: Seq<char>)
    requires
        analyse_spec(path) is Ok,
    ensures
        route_text(analyse_spec(path)->Ok_0) == path,
{
    let ps = split_by(path.drop_first(), '/');
    lemma_analyse_text(ps, Seq::empty());
    lemma_split_slash_join(path.drop_first(), Seq::empty());
    assert(route_text(Seq::<SegmentView>::empty()) =~= Seq::<char>::empty());
    assert(seq!['/'] + Seq::<char>::empty() + path.drop_first() =~= path);
}

proof fn lemma_params_in_has(acc: Seq<SegmentView>, n: Seq<char>)
    requires
        params_in(acc).contains(n),
    ensures
        acc.contains(SegmentView::Param(n)),
    decreases acc.len(),
{
    let rest = params_in(acc.drop_last());
    if acc.last() == SegmentView::Param(n) {
        assert(acc[acc.len() - 1] == SegmentView::Param(n));
    } else {
        if acc.last() is Param {
            let k = choose|k: int| 0 <= k < params_in(acc).len() && params_in(acc)[k] == n;
            assert(params_in(acc) == rest.push(acc.last()->Param_0));
            assert(k < rest.len());
            assert(rest[k] == n);
        }
        assert(rest.contains(n));
        lemma_params_in_has(acc.drop_last(), n);
        let j = choose|j: int| 0 <= j < acc.drop_last().len() && acc.drop_last()[j] == SegmentView::Param(n);
        assert(acc[j] == SegmentView::Param(n));
    }
}

proof fn lemma_analyse_distinct(ps: Seq<Seq<char>>, acc: Seq<SegmentView>)
    requires
        analyse_acc(ps, acc) is Ok,
        crate::model::no_repeats(params_in(acc)),
    ensures
        crate::model::no_repeats(params_in(analyse_acc(ps, acc)->Ok_0)),
    decreases ps.len(),
{
    if ps.len() > 0 {
        let s = ps[0];
        if is_literal_segment(s) {
            let next = acc.push(SegmentView::Literal(s));
            assert(next.drop_last() =~= acc);
            lemma_analyse_distinct(ps.drop_first(), next);
        } else {
            let n = param_name(s);
            let next = acc.push(SegmentView::Param(n));
            assert(next.drop_last() =~= acc);
            let pa = params_in(acc);
            assert(params_in(next) == pa.push(n));
            if pa.contains(n) {
                lemma_params_in_has(acc, n);
            }
            assert forall|i: int, j: int|
                0 <= i < pa.push(n).len() && 0 <= j < pa.push(n).len() && i != j implies pa.push(
                n,
            )[i] != pa.push(n)[j] by {
                if i < pa.len() && j < pa.len() {
                } else if i < pa.len() {
                    assert(pa[i] != n);
                } else if j < pa.len() {
                    assert(pa[j] != n);
                }
            }
            lemma_analyse_distinct(ps.drop_first(), next);
        }
    }
}

/// The parameters of an analysed path are all different.
pub proof fn law_path_params_distinct(path: Seq<char>)
    requires
        analyse_spec(path) is Ok,
    ensures
        crate::model::no_repeats(params_in(analyse_spec(path)->Ok_0)),
{
    lemma_analyse_distinct(split_by(path.drop_first(), '/'), Seq::empty());
}

} // verus!
