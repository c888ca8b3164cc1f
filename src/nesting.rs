use vstd::prelude::*;
use crate::extract::{Event, OpenNode, WalkView, decl_step, fits, lemma_walk_push, skip_node, step, top_limit, walk};
use crate::profile::LanguageProfile;
use crate::span::Span;

verus! {

/// Two spans are either disjoint or the first encloses the second.
pub open spec fn nested_or_apart(a: Span, b: Span) -> bool {
    !a.spec_overlaps(b) || a.spec_encloses(b)
}

pub open spec fn def_span(w: WalkView, i: int) -> Span {
    w.defs[i].decl.span
}

/// Definition `i` is still open: a node of the walk introduced it and has not ended.
pub open spec fn is_open(w: WalkView, i: int) -> bool {
    exists|k: int| 0 <= k < w.open.len() && opens(#[trigger] w.open[k], i)
}

pub open spec fn opens(n: OpenNode, i: int) -> bool {
    n.def is Some && n.def.unwrap() as int == i
}

/// What holds of the recorded spans at every point of a walk.
pub open spec fn spans_consistent(w: WalkView) -> bool {
    &&& forall|i: int| 0 <= i < w.defs.len() ==> (#[trigger] def_span(w, i)).wf()
    &&& forall|i: int, j: int|
        0 <= i < j < w.defs.len() ==> nested_or_apart(#[trigger] def_span(w, i), #[trigger] def_span(w, j))
    &&& w.open.len() > 0 ==> w.floor <= w.open.last().limit
    &&& forall|k: int, l: int| 0 <= k < l < w.open.len() ==> #[trigger] w.open[k].limit >= #[trigger] w.open[l].limit
    &&& forall|k: int| 0 <= k < w.open.len() ==> open_node_ok(w, #[trigger] w.open[k])
    &&& forall|i: int| 0 <= i < w.defs.len() ==> w.floor >= (#[trigger] def_span(w, i)).end || is_open(w, i)
}

pub open spec fn open_node_ok(w: WalkView, n: OpenNode) -> bool {
    match n.def {
        Some(i) => i < w.defs.len() && n.limit == def_span(w, i as int).end && w.floor >= def_span(w, i as int).start,
        None => true,
    }
}

proof fn lemma_same_defs(w: WalkView, w2: WalkView)
    requires
        spans_consistent(w),
        w2.defs == w.defs,
    ensures
        forall|i: int| 0 <= i < w2.defs.len() ==> (#[trigger] def_span(w2, i)).wf(),
        forall|i: int, j: int|
            0 <= i < j < w2.defs.len() ==> nested_or_apart(#[trigger] def_span(w2, i), #[trigger] def_span(w2, j)),
{
    assert forall|i: int| 0 <= i < w2.defs.len() implies (#[trigger] def_span(w2, i)).wf() by {
        assert(def_span(w2, i) == def_span(w, i));
    }
    assert forall|i: int, j: int| 0 <= i < j < w2.defs.len() implies nested_or_apart(
        #[trigger] def_span(w2, i),
        #[trigger] def_span(w2, j),
    ) by {
        assert(def_span(w2, i) == def_span(w, i));
        assert(def_span(w2, j) == def_span(w, j));
    }
}

proof fn lemma_open_bounds(w: WalkView, i: int)
    requires
        spans_consistent(w),
        0 <= i < w.defs.len(),
        is_open(w, i),
    ensures
        w.floor >= def_span(w, i).start,
        top_limit(w) <= def_span(w, i).end,
{
    let k = choose|k: int| 0 <= k < w.open.len() && opens(w.open[k], i);
    assert(open_node_ok(w, w.open[k]));
    if k < w.open.len() - 1 {
        assert(w.open[k].limit >= w.open[w.open.len() - 1].limit);
    }
}

proof fn lemma_skip_keeps(w: WalkView)
    requires
        spans_consistent(w),
    ensures
        spans_consistent(skip_node(w)),
{
    let w2 = skip_node(w);
    assert(w2.defs == w.defs);
    lemma_same_defs(w, w2);
    assert forall|k: int, l: int| 0 <= k < l < w2.open.len() implies #[trigger] w2.open[k].limit >= #[trigger] w2.open[l].limit by {
        if l == w2.open.len() - 1 && k < l {
            if k < w.open.len() - 1 {
                assert(w.open[k].limit >= w.open[w.open.len() - 1].limit);
            }
        }
    }
    assert forall|k: int| 0 <= k < w2.open.len() implies open_node_ok(w2, #[trigger] w2.open[k]) by {
        if k < w.open.len() {
            assert(open_node_ok(w, w.open[k]));
        }
    }
    assert forall|i: int| 0 <= i < w2.defs.len() implies w2.floor >= (#[trigger] def_span(w2, i)).end || is_open(w2, i) by {
        assert(def_span(w2, i) == def_span(w, i));
        if !(w.floor >= def_span(w, i).end) {
            let k = choose|k: int| 0 <= k < w.open.len() && opens(w.open[k], i);
            assert(w2.open[k] == w.open[k]);
        }
    }
}

proof fn lemma_decl_keeps(w: WalkView, d: crate::extract::Decl)
    requires
        spans_consistent(w),
        fits(w, d),
        w.defs.len() < usize::MAX,
    ensures
        spans_consistent(decl_step(w, d)),
{
    let w2 = decl_step(w, d);
    let n = w.defs.len() as int;
    let s = d.span;
    assert(w2.defs.len() == n + 1);
    assert(forall|i: int| 0 <= i < n ==> def_span(w2, i) == def_span(w, i));
    assert(def_span(w2, n) == s);
    assert forall|i: int, j: int| 0 <= i < j < w2.defs.len() implies nested_or_apart(
        #[trigger] def_span(w2, i),
        #[trigger] def_span(w2, j),
    ) by {
        if j == n {
            if !(w.floor >= def_span(w, i).end) {
                lemma_open_bounds(w, i);
            }
        } else {
            assert(nested_or_apart(def_span(w, i), def_span(w, j)));
        }
    }
    assert forall|k: int, l: int| 0 <= k < l < w2.open.len() implies #[trigger] w2.open[k].limit >= #[trigger] w2.open[l].limit by {
        if l == w2.open.len() - 1 {
            if k < w.open.len() - 1 {
                assert(w.open[k].limit >= w.open[w.open.len() - 1].limit);
            }
        }
    }
    assert forall|k: int| 0 <= k < w2.open.len() implies open_node_ok(w2, #[trigger] w2.open[k]) by {
        if k < w.open.len() {
            assert(open_node_ok(w, w.open[k]));
        }
    }
    assert forall|i: int| 0 <= i < w2.defs.len() implies w2.floor >= (#[trigger] def_span(w2, i)).end || is_open(w2, i) by {
        if i == n {
            assert(opens(w2.open[w.open.len() as int], i));
        } else if !(w.floor >= def_span(w, i).end) {
            let k = choose|k: int| 0 <= k < w.open.len() && opens(w.open[k], i);
            assert(w2.open[k] == w.open[k]);
        }
    }
}

proof fn lemma_end_keeps(p: LanguageProfile, w: WalkView)
    requires
        spans_consistent(w),
    ensures
        spans_consistent(step(p, w, Event::End)),
{
    let w2 = step(p, w, Event::End);
    if w.open.len() > 0 {
        let last = w.open.last();
        let m = w.open.len() - 1;
        assert(w2.defs == w.defs);
        lemma_same_defs(w, w2);
        assert(w2.open == w.open.drop_last());
        assert(w2.floor >= w.floor);
        if w2.open.len() > 0 {
            assert(w.open[m - 1].limit >= w.open[m].limit);
            assert(w2.open.last() == w.open[m - 1]);
            assert(w2.floor <= w2.open.last().limit);
        }
        assert forall|k: int, l: int| 0 <= k < l < w2.open.len() implies #[trigger] w2.open[k].limit
            >= #[trigger] w2.open[l].limit by {
            assert(w.open[k].limit >= w.open[l].limit);
        }
        assert forall|k: int| 0 <= k < w2.open.len() implies open_node_ok(w2, #[trigger] w2.open[k]) by {
            assert(w2.open[k] == w.open[k]);
            assert(open_node_ok(w, w.open[k]));
        }
        assert forall|i: int| 0 <= i < w2.defs.len() implies w2.floor >= (#[trigger] def_span(w2, i)).end || is_open(w2, i) by {
            assert(def_span(w2, i) == def_span(w, i));
            if !(w.floor >= def_span(w, i).end) {
                let k = choose|k: int| 0 <= k < w.open.len() && opens(w.open[k], i);
                if k == m {
                    assert(open_node_ok(w, w.open[k]));
                } else {
                    assert(w2.open[k] == w.open[k]);
                    assert(opens(w2.open[k], i));
                }
            }
        }
    } else {
        assert(w2.defs == w.defs && w2.open == w.open && w2.floor == w.floor);
        lemma_same_defs(w, w2);
        assert forall|i: int| 0 <= i < w2.defs.len() implies w2.floor >= (#[trigger] def_span(w2, i)).end || is_open(w2, i) by {
            assert(def_span(w2, i) == def_span(w, i));
        }
    }
}

proof fn lemma_step_keeps(p: LanguageProfile, w: WalkView, e: Event)
    requires
        spans_consistent(w),
        w.defs.len() < usize::MAX,
    ensures
        spans_consistent(step(p, w, e)),
        step(p, w, e).defs.len() <= w.defs.len() + 1,
{
    match e {
        Event::Decl(d) => {
            if fits(w, d) {
                lemma_decl_keeps(w, d);
            } else {
                lemma_skip_keeps(w);
            }
        },
        Event::Block | Event::Unknown => {
            lemma_skip_keeps(w);
        },
        Event::End => {
            lemma_end_keeps(p, w);
        },
        _ => {
            let w2 = step(p, w, e);
            assert(w2.defs == w.defs && w2.open == w.open && w2.floor == w.floor);
            lemma_same_defs(w, w2);
            assert forall|i: int| 0 <= i < w2.defs.len() implies w2.floor >= (#[trigger] def_span(w2, i)).end || is_open(w2, i) by {
                if !(w.floor >= def_span(w, i).end) {
                    let k = choose|k: int| 0 <= k < w.open.len() && opens(w.open[k], i);
                    assert(w2.open[k] == w.open[k]);
                }
            }
        },
    }
}

proof fn lemma_walk_consistent(p: LanguageProfile, events: Seq<Event>)
    requires
        events.len() < usize::MAX,
    ensures
        spans_consistent(walk(p, events)),
        walk(p, events).defs.len() <= events.len(),
    decreases events.len(),
{
    if events.len() > 0 {
        let prefix = events.drop_last();
        lemma_walk_consistent(p, prefix);
        lemma_walk_push(p, prefix, events.last());
        assert(prefix.push(events.last()) == events);
        lemma_step_keeps(p, walk(p, prefix), events.last());
    }
}

/// Any two definitions of a file are either disjoint or the earlier one encloses the later.
pub proof fn lemma_definitions_nest(p: LanguageProfile, events: Seq<Event>)
    requires
        events.len() < usize::MAX,
    ensures
        forall|i: int, j: int|
            0 <= i < j < walk(p, events).defs.len() ==> nested_or_apart(
                #[trigger] walk(p, events).defs[i].decl.span,
                #[trigger] walk(p, events).defs[j].decl.span,
            ),
{
    lemma_walk_consistent(p, events);
    let w = walk(p, events);
    assert forall|i: int, j: int| 0 <= i < j < w.defs.len() implies nested_or_apart(
        #[trigger] w.defs[i].decl.span,
        #[trigger] w.defs[j].decl.span,
    ) by {
        assert(nested_or_apart(def_span(w, i), def_span(w, j)));
    }
}

} // verus!
