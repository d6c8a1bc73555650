use vstd::prelude::*;

verus! {

/// Popping the base frame was refused: the stack keeps at least one frame.
#[derive(Clone, Copy, Debug, PartialEq, Eq, Structural)]
pub struct StackUnderflow;

/// The frames after `push`: the top frame is duplicated.
pub open spec fn push_frames<M>(s: Seq<M>) -> Seq<M> {
    s.push(s.last())
}

/// The frames after `pop`: the top frame is dropped, unless it is the only one.
pub open spec fn pop_frames<M>(s: Seq<M>) -> Seq<M> {
    if s.len() > 1 {
        s.drop_last()
    } else {
        s
    }
}

/// The frames after the top frame is replaced by `m`.
pub open spec fn replace_top_frames<M>(s: Seq<M>, m: M) -> Seq<M> {
    s.update(s.len() - 1, m)
}

/// The frames after `reset`: the base frame alone.
pub open spec fn reset_frames<M>(base: M) -> Seq<M> {
    seq![base]
}

/// One mutation of a transform stack.
pub enum Op<M> {
    Reset,
    Push,
    Pop,
    /// The top frame becomes the given one (a translation or rotation composed in).
    Replace(M),
}

/// The frames after one mutation; `base` is what `reset` restores.
pub open spec fn step<M>(s: Seq<M>, op: Op<M>, base: M) -> Seq<M> {
    match op {
        Op::Reset => reset_frames(base),
        Op::Push => push_frames(s),
        Op::Pop => pop_frames(s),
        Op::Replace(m) => replace_top_frames(s, m),
    }
}

/// The frames after a sequence of mutations, applied first to last.
pub open spec fn run<M>(s: Seq<M>, ops: Seq<Op<M>>, base: M) -> Seq<M>
    decreases ops.len(),
{
    if ops.len() == 0 {
        s
    } else {
        run(step(s, ops[0], base), ops.drop_first(), base)
    }
}

/// Pushes minus pops in `ops`.
pub open spec fn net<M>(ops: Seq<Op<M>>) -> int
    decreases ops.len(),
{
    if ops.len() == 0 {
        0
    } else {
        let d: int = match ops[0] {
            Op::Push => 1,
            Op::Pop => -1,
            _ => 0,
        };
        d + net(ops.drop_first())
    }
}

/// `ops` holds no reset, and with `saved` frames pushed before it no prefix of
/// it pops more than those and its own pushes.
pub open spec fn pops_within<M>(ops: Seq<Op<M>>, saved: nat) -> bool
    decreases ops.len(),
{
    if ops.len() == 0 {
        true
    } else {
        match ops[0] {
            Op::Reset => false,
            Op::Push => pops_within(ops.drop_first(), saved + 1),
            Op::Pop => saved >= 1 && pops_within(ops.drop_first(), (saved - 1) as nat),
            Op::Replace(_) => pops_within(ops.drop_first(), saved),
        }
    }
}

/// A region between a `push` and its `pop`: every pop inside matches a push inside.
pub open spec fn balanced<M>(ops: Seq<Op<M>>) -> bool {
    pops_within(ops, 0) && net(ops) == 0
}

proof fn lemma_frames_below_kept<M>(t: Seq<M>, ops: Seq<Op<M>>, base: M, p: nat)
    requires
        p < t.len(),
        pops_within(ops, (t.len() - 1 - p) as nat),
    ensures
        run(t, ops, base).len() == t.len() + net(ops),
        run(t, ops, base).subrange(0, p as int) == t.subrange(0, p as int),
    decreases ops.len(),
{
    if ops.len() > 0 {
        let t2 = step(t, ops[0], base);
        match ops[0] {
            Op::Push => {
                assert(t2.subrange(0, p as int) =~= t.subrange(0, p as int));
            },
            Op::Pop => {
                assert(t2.subrange(0, p as int) =~= t.subrange(0, p as int));
            },
            Op::Replace(m) => {
                assert(t2.subrange(0, p as int) =~= t.subrange(0, p as int));
            },
            Op::Reset => {},
        }
        lemma_frames_below_kept(t2, ops.drop_first(), base, p);
    }
}

/// Saving a frame, mutating in any balanced way and restoring gives back
/// exactly the stack from before the save, and so its top frame.
pub proof fn lemma_push_pop_symmetry<M>(s: Seq<M>, ops: Seq<Op<M>>, base: M)
    requires
        s.len() >= 1,
        balanced(ops),
    ensures
        pop_frames(run(push_frames(s), ops, base)) == s,
        pop_frames(run(push_frames(s), ops, base)).last() == s.last(),
{
    let t = push_frames(s);
    lemma_frames_below_kept(t, ops, base, s.len());
    assert(t.subrange(0, s.len() as int) =~= s);
    let r = run(t, ops, base);
    assert(pop_frames(r) =~= r.subrange(0, s.len() as int));
}

/// No sequence of mutations, however many pops it holds, empties the stack.
pub proof fn lemma_never_empty<M>(s: Seq<M>, ops: Seq<Op<M>>, base: M)
    requires
        s.len() >= 1,
    ensures
        run(s, ops, base).len() >= 1,
    decreases ops.len(),
{
    if ops.len() > 0 {
        lemma_never_empty(step(s, ops[0], base), ops.drop_first(), base);
    }
}

proof fn lemma_run_concat<M>(s: Seq<M>, a: Seq<Op<M>>, b: Seq<Op<M>>, base: M)
    ensures
        run(s, a + b, base) == run(run(s, a, base), b, base),
    decreases a.len(),
{
    if a.len() > 0 {
        assert((a + b).drop_first() =~= a.drop_first() + b);
        assert((a + b)[0] == a[0]);
        lemma_run_concat(step(s, a[0], base), a.drop_first(), b, base);
    } else {
        assert(a + b =~= b);
    }
}

/// A reset ends all history: whatever came before, the base frame is then the
/// only frame and the top.
pub proof fn lemma_reset_clears<M>(s: Seq<M>, ops: Seq<Op<M>>, base: M)
    ensures
        run(s, ops.push(Op::Reset), base) == seq![base],
        run(s, ops.push(Op::Reset), base).last() == base,
{
    lemma_run_concat(s, ops, seq![Op::Reset], base);
    assert(ops.push(Op::Reset) =~= ops + seq![Op::Reset]);
    let r = run(s, ops, base);
    let tail = seq![Op::Reset];
    assert(tail.drop_first() =~= Seq::<Op<M>>::empty());
    assert(run(r, tail, base) == run(reset_frames(base), tail.drop_first(), base));
    assert(run(reset_frames(base), Seq::<Op<M>>::empty(), base) == reset_frames(base));
}

/// A stack of transform frames that is never empty.
///
/// `M` is the frame type (a homogeneous matrix in practice). The stack itself
/// never combines frames: callers read `top`, compose it with an elementary
/// transform and store the product back with `replace_top`, so that translations
/// and rotations act in the current local frame.
pub struct TransformStack<M> {
    frames: Vec<M>,
    base: M,
}

impl<M: Copy> TransformStack<M> {
    /// The frames, bottom first; the last is the current transform.
    pub closed spec fn view(&self) -> Seq<M> {
        self.frames@
    }

    /// The frame that `reset` restores (the identity in practice).
    pub closed spec fn base(&self) -> M {
        self.base
    }

    /// The stack holds at least one frame.
    pub open spec fn wf(&self) -> bool {
        self@.len() >= 1
    }

    /// A stack holding `base` alone.
    pub fn new(base: M) -> (r: Self)
        ensures
            r.wf(),
            r@ == reset_frames(base),
            r.base() == base,
    {
        TransformStack { frames: vec![base], base }
    }

    /// Discards every saved frame and leaves the base frame alone.
    pub fn reset(&mut self)
        requires
            old(self).wf(),
        ensures
            final(self).wf(),
            final(self)@ == reset_frames(old(self).base()),
            final(self).base() == old(self).base(),
    {
        self.frames.clear();
        self.frames.push(self.base);
        assert(self.frames@ =~= seq![self.base]);
    }

    /// Saves the current frame: the top is duplicated and the depth grows by one.
    pub fn push(&mut self)
        requires
            old(self).wf(),
            old(self)@.len() < usize::MAX,
        ensures
            final(self).wf(),
            final(self)@ == push_frames(old(self)@),
            final(self).base() == old(self).base(),
    {
        let top = self.top();
        self.frames.push(top);
    }

    /// Restores the last saved frame. On a stack of one frame nothing changes
    /// and `StackUnderflow` is returned.
    pub fn pop(&mut self) -> (r: Result<(), StackUnderflow>)
        requires
            old(self).wf(),
        ensures
            final(self).wf(),
            final(self)@ == pop_frames(old(self)@),
            final(self).base() == old(self).base(),
            r is Err <==> old(self)@.len() == 1,
    {
        if self.frames.len() > 1 {
            self.frames.pop();
            Ok(())
        } else {
            Err(StackUnderflow)
        }
    }

    /// The current frame.
    pub fn top(&self) -> (r: M)
        requires
            self.wf(),
        ensures
            r == self@.last(),
    {
        self.frames[self.frames.len() - 1]
    }

    /// Replaces the current frame by `m`, the saved frames staying as they are.
    pub fn replace_top(&mut self, m: M)
        requires
            old(self).wf(),
        ensures
            final(self).wf(),
            final(self)@ == replace_top_frames(old(self)@, m),
            final(self).base() == old(self).base(),
    {
        let last = self.frames.len() - 1;
        self.frames.set(last, m);
    }

    /// The number of frames held.
    pub fn depth(&self) -> (r: usize)
        ensures
            r == self@.len(),
    {
        self.frames.len()
    }
}

} // verus!
