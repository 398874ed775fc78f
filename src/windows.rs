//! The registry of live windows, by id, and which of them is active.
use vstd::prelude::*;

verus! {

/// Filtering ids keeps exactly the ids that pass, and keeps them distinct.
pub proof fn lemma_filter_ids(ids: Seq<u64>, keep: spec_fn(u64) -> bool)
    ensures
        forall|x: u64| #[trigger] ids.filter(keep).contains(x) <==> (ids.contains(x) && keep(x)),
        ids.no_duplicates() ==> ids.filter(keep).no_duplicates(),
    decreases ids.len(),
{
    reveal(Seq::filter);
    if ids.len() > 0 {
        let prev = ids.drop_last();
        let last = ids.last();
        lemma_filter_ids(prev, keep);
        assert forall|x: u64| ids.contains(x) <==> (prev.contains(x) || x == last) by {
            if ids.contains(x) && x != last {
                let i = choose|i: int| 0 <= i < ids.len() && ids[i] == x;
                assert(prev[i] == x);
            }
            if prev.contains(x) {
                let i = choose|i: int| 0 <= i < prev.len() && prev[i] == x;
                assert(ids[i] == x);
            }
            if x == last {
                assert(ids[ids.len() - 1] == x);
            }
        }
        let w = prev.filter(keep);
        assert forall|x: u64| w.contains(x) <==> (prev.contains(x) && keep(x)) by {}
        if keep(last) {
            assert(ids.filter(keep) == w.push(last));
            assert forall|x: u64| w.push(last).contains(x) <==> (w.contains(x) || x == last) by {
                if w.push(last).contains(x) && x != last {
                    let i = choose|i: int| 0 <= i < w.len() + 1 && w.push(last)[i] == x;
                    assert(w[i] == x);
                }
                if w.contains(x) {
                    let i = choose|i: int| 0 <= i < w.len() && w[i] == x;
                    assert(w.push(last)[i] == x);
                }
                if x == last {
                    assert(w.push(last)[w.len() as int] == x);
                }
            }
        } else {
            assert(ids.filter(keep) == w);
        }
        assert forall|x: u64| #[trigger]
            ids.filter(keep).contains(x) <==> (ids.contains(x) && keep(x)) by {
            assert(w.contains(x) <==> (prev.contains(x) && keep(x)));
            assert(ids.contains(x) <==> (prev.contains(x) || x == last));
            if keep(last) {
                assert(w.push(last).contains(x) <==> (w.contains(x) || x == last));
            }
        }
        if ids.no_duplicates() {
            assert(prev.no_duplicates()) by {
                assert forall|i: int, j: int|
                    0 <= i < prev.len() && 0 <= j < prev.len() && i != j implies prev[i]
                    != prev[j] by {
                    assert(ids[i] == prev[i] && ids[j] == prev[j]);
                }
            }
            if keep(last) {
                assert(!prev.contains(last)) by {
                    if prev.contains(last) {
                        let i = choose|i: int| 0 <= i < prev.len() && prev[i] == last;
                        assert(ids[i] == ids[ids.len() - 1]);
                    }
                }
                assert(w.push(last).no_duplicates()) by {
                    assert forall|i: int, j: int|
                        0 <= i < w.len() + 1 && 0 <= j < w.len() + 1 && i != j implies w.push(
                        last,
                    )[i] != w.push(last)[j] by {
                        if i == w.len() {
                            assert(w.contains(w[j]));
                        } else if j == w.len() {
                            assert(w.contains(w[i]));
                        }
                    }
                }
            }
        }
    }
}

/// Whether `x` is in `v`.
fn holds_id(v: &Vec<u64>, x: u64) -> (r: bool)
    ensures
        r == v@.contains(x),
{
    let mut i: usize = 0;
    while i < v.len() && v[i] != x
        invariant
            i <= v@.len(),
            forall|j: int| 0 <= j < i ==> v@[j] != x,
        decreases v.len() - i,
    {
        i = i + 1;
    }
    if i < v.len() {
        assert(v@[i as int] == x);
        true
    } else {
        false
    }
}

/// Live windows by id, in the order they were added, and the active one.
pub struct WindowManager {
    windows: Vec<u64>,
    active_window: Option<u64>,
}

impl WindowManager {
    pub closed spec fn ids(&self) -> Seq<u64> {
        self.windows@
    }

    pub closed spec fn active(&self) -> Option<u64> {
        self.active_window
    }

    /// No id twice, and the active window, if any, is registered.
    pub open spec fn wf(&self) -> bool {
        &&& self.ids().no_duplicates()
        &&& self.active() matches Some(a) ==> self.ids().contains(a)
    }

    pub fn new() -> (r: WindowManager)
        ensures
            r.wf(),
            r.ids() == Seq::<u64>::empty(),
            r.active() is None,
    {
        WindowManager { windows: Vec::new(), active_window: None }
    }

    fn find(&self, id: u64) -> (r: Option<usize>)
        ensures
            match r {
                Some(i) => i < self.ids().len() && self.ids()[i as int] == id,
                None => !self.ids().contains(id),
            },
    {
        let mut i: usize = 0;
        while i < self.windows.len() && self.windows[i] != id
            invariant
                i <= self.windows@.len(),
                forall|j: int| 0 <= j < i ==> self.windows@[j] != id,
            decreases self.windows.len() - i,
        {
            i = i + 1;
        }
        if i < self.windows.len() {
            Some(i)
        } else {
            None
        }
    }

    /// Registers the window `id`, created just now, and makes it active.
    pub fn add_window(&mut self, id: u64)
        requires
            old(self).wf(),
        ensures
            final(self).wf(),
            final(self).ids() == if old(self).ids().contains(id) {
                old(self).ids()
            } else {
                old(self).ids().push(id)
            },
            final(self).active() == Some(id),
    {
        if self.find(id).is_none() {
            self.windows.push(id);
            proof {
                assert(self.windows@.contains(id)) by {
                    assert(self.windows@[self.windows@.len() - 1] == id);
                }
                assert forall|i: int, j: int|
                    0 <= i < self.windows@.len() && 0 <= j < self.windows@.len() && i != j implies self.windows@[i]
                    != self.windows@[j] by {
                    if i == self.windows@.len() - 1 {
                        assert(old(self).windows@.contains(self.windows@[j]));
                    } else if j == self.windows@.len() - 1 {
                        assert(old(self).windows@.contains(self.windows@[i]));
                    }
                }
            }
        }
        self.active_window = Some(id);
    }

    /// Forgets the window `id`; when it was active, no window is.
    pub fn remove_window(&mut self, id: u64)
        requires
            old(self).wf(),
        ensures
            final(self).wf(),
            final(self).ids() == old(self).ids().filter(|x: u64| x != id),
            final(self).active() == if old(self).active() == Some(id) {
                None
            } else {
                old(self).active()
            },
    {
        let mut closed: Vec<u64> = Vec::new();
        closed.push(id);
        proof {
            assert forall|x: u64| closed@.contains(x) <==> x == id by {
                if x == id {
                    assert(closed@[0] == x);
                }
            }
            assert((|x: u64| !closed@.contains(x)) =~= (|x: u64| x != id));
        }
        self.cleanup_closed_windows(&closed);
    }

    /// Makes `id` the active window, when it is registered; true when it is.
    pub fn set_active_window(&mut self, id: u64) -> (r: bool)
        requires
            old(self).wf(),
        ensures
            final(self).wf(),
            r == old(self).ids().contains(id),
            final(self).ids() == old(self).ids(),
            final(self).active() == if r {
                Some(id)
            } else {
                old(self).active()
            },
    {
        if self.find(id).is_some() {
            self.active_window = Some(id);
            true
        } else {
            false
        }
    }

    pub fn get_active_window(&self) -> (r: Option<u64>)
        ensures
            r == self.active(),
    {
        self.active_window
    }

    /// Whether the window `id` is registered.
    pub fn get_window(&self, id: u64) -> (r: bool)
        ensures
            r == self.ids().contains(id),
    {
        self.find(id).is_some()
    }

    pub fn window_count(&self) -> (r: usize)
        ensures
            r == self.ids().len(),
    {
        self.windows.len()
    }

    pub fn has_windows(&self) -> (r: bool)
        ensures
            r == (self.ids().len() > 0),
    {
        self.windows.len() > 0
    }

    /// The registered ids, in the order they were added: the windows to redraw.
    pub fn iter_windows(&self) -> (r: Vec<u64>)
        ensures
            r@ == self.ids(),
    {
        self.windows.clone()
    }

    /// Forgets every window in `closed`, keeping the others in order; when the active
    /// one is among them, no window is active.
    pub fn cleanup_closed_windows(&mut self, closed: &Vec<u64>)
        requires
            old(self).wf(),
        ensures
            final(self).wf(),
            final(self).ids() == old(self).ids().filter(|x: u64| !closed@.contains(x)),
            final(self).active() == match old(self).active() {
                Some(a) => if closed@.contains(a) {
                    None
                } else {
                    Some(a)
                },
                None => None,
            },
    {
        let ghost keep = |x: u64| !closed@.contains(x);
        let mut kept: Vec<u64> = Vec::new();
        let mut i: usize = 0;
        proof {
            reveal(Seq::filter);
            assert(self.windows@.take(0) =~= Seq::<u64>::empty());
        }
        while i < self.windows.len()
            invariant
                i <= self.windows@.len(),
                kept@ == self.windows@.take(i as int).filter(keep),
                keep == (|x: u64| !closed@.contains(x)),
            decreases self.windows.len() - i,
        {
            let x = self.windows[i];
            proof {
                reveal(Seq::filter);
                assert(self.windows@.take(i + 1).drop_last() =~= self.windows@.take(i as int));
                assert(self.windows@.take(i + 1).last() == x);
            }
            if !holds_id(closed, x) {
                kept.push(x);
            }
            i = i + 1;
        }
        proof {
            assert(self.windows@.take(self.windows@.len() as int) =~= self.windows@);
            lemma_filter_ids(self.windows@, keep);
        }
        self.windows = kept;
        if let Some(a) = self.active_window {
            if holds_id(closed, a) {
                self.active_window = None;
            }
        }
    }

    /// Forgets every window.
    pub fn close_all_windows(&mut self)
        ensures
            final(self).wf(),
            final(self).ids() == Seq::<u64>::empty(),
            final(self).active() is None,
    {
        self.windows.clear();
        self.active_window = None;
    }

    /// Makes the window after the active one active, wrapping round to the first;
    /// the first when none is active; none when no window is registered.
    pub fn select_next_active_window(&mut self)
        requires
            old(self).wf(),
        ensures
            final(self).wf(),
            final(self).ids() == old(self).ids(),
            old(self).ids().len() == 0 ==> final(self).active() is None,
            old(self).ids().len() > 0 && old(self).active() is None ==> final(self).active()
                == Some(old(self).ids()[0]),
            forall|i: int|
                0 <= i < old(self).ids().len() && old(self).active() == Some(
                    #[trigger] old(self).ids()[i],
                )
                    ==> final(self).active() == Some(
                    old(self).ids()[(i + 1) % (old(self).ids().len() as int)],
                ),
    {
        if self.windows.len() == 0 {
            self.active_window = None;
            return;
        }
        match self.active_window {
            None => {
                self.active_window = Some(self.windows[0]);
                proof {
                    assert(self.windows@.contains(self.windows@[0]));
                }
            },
            Some(a) => {
                let found = self.find(a);
                if let Some(i) = found {
                    let next = (i + 1) % self.windows.len();
                    self.active_window = Some(self.windows[next]);
                    proof {
                        assert(self.windows@.contains(self.windows@[next as int]));
                        assert forall|j: int|
                            0 <= j < self.windows@.len() && a == self.windows@[j] implies j
                            == i by {
                            if j != i {
                                assert(self.windows@[j] != self.windows@[i as int]);
                            }
                        }
                    }
                }
            },
        }
    }
}

} // verus!
