//! The monitors known to the application and their rectangles.
use vstd::prelude::*;

use crate::geometry::Rect;

verus! {

/// A monitor, identified by its handle, and the rectangle it covers.
#[derive(Clone, Copy, Debug, PartialEq, Eq, Structural)]
pub struct MonitorRect {
    pub handle: usize,
    pub rect: Rect,
}

/// The monitor rectangles found by the last enumeration.
pub struct MonitorCache {
    monitors: Vec<MonitorRect>,
}

impl View for MonitorCache {
    type V = Seq<MonitorRect>;

    closed spec fn view(&self) -> Seq<MonitorRect> {
        self.monitors@
    }
}

/// The rectangle of the first monitor in `monitors` with `handle`.
pub open spec fn lookup_rect(monitors: Seq<MonitorRect>, handle: usize) -> Option<Rect>
    decreases monitors.len(),
{
    if monitors.len() == 0 {
        None
    } else if monitors[0].handle == handle {
        Some(monitors[0].rect)
    } else {
        lookup_rect(monitors.drop_first(), handle)
    }
}

pub proof fn lemma_lookup_rect(monitors: Seq<MonitorRect>, handle: usize)
    ensures
        match lookup_rect(monitors, handle) {
            None => forall|i: int| 0 <= i < monitors.len() ==> #[trigger] monitors[i].handle != handle,
            Some(rect) => exists|i: int|
                0 <= i < monitors.len() && #[trigger] monitors[i].handle == handle && monitors[i].rect
                    == rect && forall|j: int| 0 <= j < i ==> #[trigger] monitors[j].handle != handle,
        },
    decreases monitors.len(),
{
    if monitors.len() > 0 {
        let rest = monitors.drop_first();
        lemma_lookup_rect(rest, handle);
        if monitors[0].handle != handle {
            match lookup_rect(rest, handle) {
                None => {
                    assert forall|i: int| 0 <= i < monitors.len() implies #[trigger] monitors[i].handle
                        != handle by {
                        if i > 0 {
                            assert(monitors[i] == rest[i - 1]);
                        }
                    }
                },
                Some(rect) => {
                    let k = choose|k: int|
                        0 <= k < rest.len() && #[trigger] rest[k].handle == handle && rest[k].rect
                            == rect && forall|j: int| 0 <= j < k ==> #[trigger] rest[j].handle != handle;
                    assert(monitors[k + 1] == rest[k]);
                    assert forall|j: int| 0 <= j < k + 1 implies #[trigger] monitors[j].handle
                        != handle by {
                        if j > 0 {
                            assert(monitors[j] == rest[j - 1]);
                        }
                    }
                },
            }
        } else {
            assert(monitors[0].handle == handle);
        }
    }
}

impl MonitorCache {
    /// An empty cache.
    pub fn new() -> (c: MonitorCache)
        ensures
            c@ == Seq::<MonitorRect>::empty(),
    {
        MonitorCache { monitors: Vec::new() }
    }

    /// Replaces the cached monitors with a fresh enumeration.
    pub fn refresh(&mut self, monitors: Vec<MonitorRect>)
        ensures
            final(self)@ == monitors@,
    {
        self.monitors = monitors;
    }

    /// The rectangle of the first cached monitor with `handle`; `None` when
    /// no cached monitor has it.
    pub fn rect_for(&self, handle: usize) -> (r: Option<Rect>)
        ensures
            r == lookup_rect(self@, handle),
            match r {
                None => forall|i: int| 0 <= i < self@.len() ==> #[trigger] self@[i].handle != handle,
                Some(rect) => exists|i: int|
                    0 <= i < self@.len() && #[trigger] self@[i].handle == handle && self@[i].rect
                        == rect && forall|j: int| 0 <= j < i ==> #[trigger] self@[j].handle != handle,
            },
    {
        proof {
            lemma_lookup_rect(self@, handle);
        }
        assert(self.monitors@.skip(0) =~= self.monitors@);
        let mut i: usize = 0;
        while i < self.monitors.len()
            invariant
                i <= self.monitors@.len(),
                lookup_rect(self.monitors@, handle) == lookup_rect(
                    self.monitors@.skip(i as int),
                    handle,
                ),
                forall|j: int| 0 <= j < i ==> #[trigger] self.monitors@[j].handle != handle,
            decreases self.monitors@.len() - i,
        {
            let m = self.monitors[i];
            let ghost rest = self.monitors@.skip(i as int);
            assert(rest[0] == m);
            if m.handle == handle {
                assert(lookup_rect(rest, handle) == Some(m.rect));
                assert(lookup_rect(self@, handle) == Some(m.rect));
                assert(self@[i as int].handle == handle && self@[i as int].rect == m.rect);
                return Some(m.rect);
            }
            assert(rest.drop_first() =~= self.monitors@.skip(i + 1));
            i += 1;
        }
        assert(self.monitors@.skip(i as int) =~= Seq::<MonitorRect>::empty());
        None
    }
}

} // verus!
