use vstd::prelude::*;
use crate::span::Span;

verus! {

/// A name bound in a lexical frame, with the site that introduced it.
#[derive(Clone, Debug)]
pub struct Binding {
    pub name: String,
    pub site: Span,
}

/// The most recent binding of `name` in one frame.
pub open spec fn frame_lookup(frame: Seq<Binding>, name: Seq<char>) -> Option<Span>
    decreases frame.len(),
{
    if frame.len() == 0 {
        None
    } else if frame.last().name@ == name {
        Some(frame.last().site)
    } else {
        frame_lookup(frame.drop_last(), name)
    }
}

/// The binding of `name` seen from the innermost frame outwards.
pub open spec fn stack_lookup(frames: Seq<Seq<Binding>>, name: Seq<char>) -> Option<Span>
    decreases frames.len(),
{
    if frames.len() == 0 {
        None
    } else {
        match frame_lookup(frames.last(), name) {
            Some(s) => Some(s),
            None => stack_lookup(frames.drop_last(), name),
        }
    }
}

/// Frames after binding `name` at `site` in the innermost one.
pub open spec fn bind_top(frames: Seq<Seq<Binding>>, b: Binding) -> Seq<Seq<Binding>> {
    frames.update(frames.len() - 1, frames.last().push(b))
}

/// A name re-bound in a new inner frame is seen with its inner binding there; once
/// that frame is discarded, lookups see exactly what they saw before it was opened.
pub proof fn lemma_shadow_in_nested_frame(frames: Seq<Seq<Binding>>, inner: Binding)
    ensures
        stack_lookup(bind_top(frames.push(Seq::empty()), inner), inner.name@) == Some(inner.site),
        bind_top(frames.push(Seq::empty()), inner).drop_last() == frames,
{
    let nested = bind_top(frames.push(Seq::empty()), inner);
    assert(nested.last() == seq![inner]);
    assert(nested.last().drop_last() =~= Seq::<Binding>::empty());
    assert(nested.drop_last() =~= frames);
}

/// Re-binding a name in the same frame hides the earlier binding from later lookups.
pub proof fn lemma_rebind_in_same_frame(frames: Seq<Seq<Binding>>, first: Binding, second: Binding)
    requires
        frames.len() >= 1,
        first.name@ == second.name@,
    ensures
        stack_lookup(bind_top(bind_top(frames, first), second), first.name@) == Some(second.site),
{
    let f = bind_top(bind_top(frames, first), second);
    assert(f.last() == frames.last().push(first).push(second));
}

/// The site of the most recent binding of `name` in `v`.
pub fn find_last(v: &Vec<Binding>, name: &String) -> (r: Option<Span>)
    ensures
        r == frame_lookup(v@, name@),
{
    let mut j: usize = v.len();
    assert(v@.take(j as int) =~= v@);
    while j > 0
        invariant
            j <= v@.len(),
            frame_lookup(v@, name@) == frame_lookup(v@.take(j as int), name@),
        decreases j,
    {
        assert(v@.take(j as int).drop_last() =~= v@.take(j - 1));
        if v[j - 1].name == *name {
            return Some(v[j - 1].site);
        }
        j = j - 1;
    }
    assert(v@.take(0) =~= Seq::<Binding>::empty());
    None
}

/// A stack of lexical frames; the first frame is the file's outermost scope.
pub struct ScopeStack {
    frames: Vec<Vec<Binding>>,
}

impl View for ScopeStack {
    type V = Seq<Seq<Binding>>;

    closed spec fn view(&self) -> Seq<Seq<Binding>> {
        self.frames@.map_values(|f: Vec<Binding>| f@)
    }
}

impl ScopeStack {
    pub open spec fn wf(&self) -> bool {
        self@.len() >= 1
    }

    pub open spec fn spec_lookup(&self, name: Seq<char>) -> Option<Span> {
        stack_lookup(self@, name)
    }

    pub fn new() -> (r: ScopeStack)
        ensures
            r@ == seq![Seq::<Binding>::empty()],
            r.wf(),
    {
        let r = ScopeStack { frames: vec![Vec::new()] };
        assert(r@ =~= seq![Seq::<Binding>::empty()]);
        r
    }

    pub fn depth(&self) -> (r: usize)
        ensures
            r == self@.len(),
    {
        self.frames.len()
    }

    /// Opens a new innermost frame.
    pub fn push(&mut self)
        requires
            old(self).wf(),
        ensures
            final(self)@ == old(self)@.push(Seq::empty()),
            final(self).wf(),
    {
        self.frames.push(Vec::new());
        assert(self@ =~= old(self)@.push(Seq::empty()));
    }

    /// Discards the innermost frame and its bindings; the outermost frame is never discarded.
    pub fn pop(&mut self) -> (r: bool)
        requires
            old(self).wf(),
        ensures
            r == (old(self)@.len() > 1),
            r ==> final(self)@ == old(self)@.drop_last(),
            !r ==> final(self)@ == old(self)@,
            final(self).wf(),
    {
        if self.frames.len() > 1 {
            self.frames.pop();
            assert(self@ =~= old(self)@.drop_last());
            true
        } else {
            false
        }
    }

    /// Binds `name` in the innermost frame; later lookups see this binding first.
    pub fn bind(&mut self, name: String, site: Span)
        requires
            old(self).wf(),
        ensures
            final(self)@ == bind_top(old(self)@, Binding { name, site }),
            final(self).wf(),
    {
        let mut top = self.frames.pop().unwrap();
        top.push(Binding { name, site });
        self.frames.push(top);
        assert(self@ =~= bind_top(old(self)@, Binding { name, site }));
    }

    /// The most recent binding of `name`, searching from the innermost frame outwards.
    pub fn lookup(&self, name: &String) -> (r: Option<Span>)
        ensures
            r == self.spec_lookup(name@),
    {
        let mut i: usize = self.frames.len();
        assert(self@.take(i as int) =~= self@);
        while i > 0
            invariant
                i <= self.frames@.len(),
                self@.len() == self.frames@.len(),
                self.spec_lookup(name@) == stack_lookup(self@.take(i as int), name@),
            decreases i,
        {
            let frame = &self.frames[i - 1];
            assert(frame@ == self@[i - 1]);
            assert(self@.take(i as int).last() == frame@);
            assert(self@.take(i as int).drop_last() =~= self@.take(i - 1));
            if let Some(site) = find_last(frame, name) {
                return Some(site);
            }
            i = i - 1;
        }
        assert(self@.take(0) =~= Seq::<Seq<Binding>>::empty());
        None
    }
}

} // verus!
