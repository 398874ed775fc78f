//! Render passes, run one after another on a shared frame context.
use vstd::prelude::*;

verus! {

/// One unit of per-frame GPU work, run on a frame context `C`.
pub trait RenderPass<C> {
    /// What the pass is prepared with: a device and queue.
    type Device;

    /// Whether one run of this pass may take the frame context from `before` to `after`.
    spec fn runs(&self, before: C, after: C) -> bool;

    /// Whether one preparation may turn this pass into `after`.
    spec fn prepared(&self, after: Self) -> bool where Self: Sized;

    /// A name, for diagnostics.
    fn name(&self) -> &str;

    /// Creates or refreshes GPU resources; called at start-up or after a device change.
    fn prepare(&mut self, device: &Self::Device) where Self: Sized
        ensures
            old(self).prepared(*final(self)),
    ;

    /// Records this frame's work into the context.
    fn execute(&self, ctx: &mut C)
        ensures
            self.runs(*old(ctx), *final(ctx)),
    ;
}

/// `trace` holds the frame context before each pass and after the last one,
/// each pass taking it from its own entry to the next.
pub open spec fn ran_in_order<C, P: RenderPass<C>>(passes: Seq<P>, trace: Seq<C>) -> bool {
    &&& trace.len() == passes.len() + 1
    &&& forall|i: int| 0 <= i < passes.len() ==> #[trigger] passes[i].runs(trace[i], trace[i + 1])
}

/// Passes in the order they were added; later ones draw over earlier ones.
pub struct PassManager<P> {
    passes: Vec<P>,
}

impl<P> PassManager<P> {
    pub closed spec fn passes(&self) -> Seq<P> {
        self.passes@
    }

    pub fn new() -> (r: Self)
        ensures
            r.passes() == Seq::<P>::empty(),
    {
        PassManager { passes: Vec::new() }
    }

    /// Adds `pass` after every pass already there.
    pub fn add(&mut self, pass: P)
        ensures
            final(self).passes() == old(self).passes().push(pass),
    {
        self.passes.push(pass);
    }

    pub fn clear(&mut self)
        ensures
            final(self).passes() == Seq::<P>::empty(),
    {
        self.passes.clear();
    }

    pub fn len(&self) -> (r: usize)
        ensures
            r == self.passes().len(),
    {
        self.passes.len()
    }

    /// Prepares every pass once, in order, each staying in its place.
    pub fn prepare_all<C>(&mut self, device: &P::Device) where P: RenderPass<C>
        ensures
            final(self).passes().len() == old(self).passes().len(),
            forall|i: int|
                0 <= i < old(self).passes().len() ==> #[trigger] old(self).passes()[i].prepared(
                    final(self).passes()[i],
                ),
    {
        let mut pending: Vec<P> = Vec::new();
        std::mem::swap(&mut pending, &mut self.passes);
        let ghost ps = pending@;
        let mut done: Vec<P> = Vec::new();
        while pending.len() > 0
            invariant
                done@.len() + pending@.len() == ps.len(),
                pending@ == ps.skip(done@.len() as int),
                forall|i: int| 0 <= i < done@.len() ==> #[trigger] ps[i].prepared(done@[i]),
            decreases pending@.len(),
        {
            let ghost j: int = done@.len() as int;
            let mut p = pending.remove(0);
            proof {
                assert(p == ps[j]);
                assert(pending@ =~= ps.skip(j + 1));
            }
            p.prepare(device);
            done.push(p);
        }
        self.passes = done;
    }

    /// Runs every pass on `ctx`, in the order they were added.
    pub fn execute_all<C>(&self, ctx: &mut C) where P: RenderPass<C>
        ensures
            exists|trace: Seq<C>|
                {
                    &&& ran_in_order(self.passes(), trace)
                    &&& trace[0] == *old(ctx)
                    &&& trace.last() == *final(ctx)
                },
    {
        let ghost mut trace: Seq<C> = seq![*ctx];
        let mut i: usize = 0;
        while i < self.passes.len()
            invariant
                i <= self.passes@.len(),
                trace.len() == i + 1,
                trace[0] == *old(ctx),
                trace.last() == *ctx,
                forall|t: int| 0 <= t < i ==> #[trigger] self.passes@[t].runs(trace[t], trace[t + 1]),
            decreases self.passes.len() - i,
        {
            let ghost before = *ctx;
            self.passes[i].execute(ctx);
            proof {
                trace = trace.push(*ctx);
                assert(self.passes@[i as int].runs(trace[i as int], trace[i + 1]));
            }
            i = i + 1;
        }
        assert(ran_in_order(self.passes(), trace));
    }
}

/// Of two passes added in order, the first runs on the frame as it came, and the
/// second runs on what the first left.
pub proof fn lemma_passes_run_in_registration_order<C, P: RenderPass<C>>(
    first: P,
    second: P,
    trace: Seq<C>,
)
    requires
        ran_in_order(seq![first, second], trace),
    ensures
        trace.len() == 3,
        first.runs(trace[0], trace[1]),
        second.runs(trace[1], trace[2]),
{
    let passes = seq![first, second];
    assert(passes[0] == first);
    assert(passes[1] == second);
    assert(passes[0].runs(trace[0], trace[0int + 1]));
    assert(passes[1].runs(trace[1], trace[1int + 1]));
}

/// The pass that finishes the UI frame and draws it over everything before it.
pub struct EguiPass;

impl EguiPass {
    pub fn new() -> (r: EguiPass) {
        EguiPass
    }

    pub fn name(&self) -> (r: &'static str)
        ensures
            r@ == "egui_pass"@,
    {
        "egui_pass"
    }
}

} // verus!
