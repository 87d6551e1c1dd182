use vstd::prelude::*;
use crate::handle::SurfaceHandle;

verus! {

/// The set of surfaces that currently receive forwarded pointer movement.
pub struct ForwardingRegistry {
    handles: Vec<SurfaceHandle>,
}

impl View for ForwardingRegistry {
    type V = Set<SurfaceHandle>;

    closed spec fn view(&self) -> Set<SurfaceHandle> {
        self.handles@.to_set()
    }
}

impl ForwardingRegistry {
    /// Each surface is held once.
    pub closed spec fn wf(&self) -> bool {
        self.handles@.no_duplicates()
    }

    pub fn new() -> (r: ForwardingRegistry)
        ensures
            r.wf(),
            r@ == Set::<SurfaceHandle>::empty(),
    {
        let r = ForwardingRegistry { handles: Vec::new() };
        assert(r@ =~= Set::<SurfaceHandle>::empty());
        r
    }

    fn index_of(&self, surface: SurfaceHandle) -> (r: Option<usize>)
        ensures
            match r {
                Some(i) => i < self.handles@.len() && self.handles@[i as int] == surface,
                None => !self.handles@.contains(surface),
            },
    {
        let mut i: usize = 0;
        while i < self.handles.len()
            invariant
                i <= self.handles@.len(),
                forall|j: int| 0 <= j < i ==> self.handles@[j] != surface,
            decreases self.handles@.len() - i,
        {
            if self.handles[i] == surface {
                return Some(i);
            }
            i = i + 1;
        }
        None
    }

    pub fn contains(&self, surface: SurfaceHandle) -> (r: bool)
        ensures
            r == self@.contains(surface),
    {
        match self.index_of(surface) {
            Some(i) => {
                assert(self.handles@.contains(surface));
                true
            },
            None => false,
        }
    }

    /// Whether no surface needs forwarding.
    pub fn is_empty(&self) -> (r: bool)
        ensures
            r == self@.is_empty(),
    {
        if self.handles.len() == 0 {
            assert(self@ =~= Set::<SurfaceHandle>::empty());
            true
        } else {
            assert(self.handles@.contains(self.handles@[0]));
            assert(self@.contains(self.handles@[0]));
            false
        }
    }

    /// Whether `surface` is the one and only subscribed surface.
    pub fn holds_only(&self, surface: SurfaceHandle) -> (r: bool)
        requires
            self.wf(),
        ensures
            r == (self@.contains(surface) && self@.remove(surface).is_empty()),
    {
        if self.handles.len() == 1 && self.handles[0] == surface {
            assert(self.handles@.contains(surface));
            assert forall|x: SurfaceHandle| !self@.remove(surface).contains(x) by {
                if self.handles@.contains(x) {
                    let j = choose|j: int| 0 <= j < self.handles@.len() && self.handles@[j] == x;
                    assert(j == 0);
                }
            }
            assert(self@.remove(surface) =~= Set::<SurfaceHandle>::empty());
            true
        } else {
            proof {
                if self@.contains(surface) {
                    let k = choose|k: int| 0 <= k < self.handles@.len() && self.handles@[k] == surface;
                    let other = if k == 0 { self.handles@[1] } else { self.handles@[0] };
                    assert(self.handles@.len() >= 2);
                    assert(self.handles@.contains(other));
                    assert(self@.remove(surface).contains(other));
                }
            }
            false
        }
    }

    /// Adds a surface; adding one that is present changes nothing.
    pub fn subscribe(&mut self, surface: SurfaceHandle)
        requires
            old(self).wf(),
        ensures
            final(self).wf(),
            final(self)@ == old(self)@.insert(surface),
    {
        if self.contains(surface) {
            assert(self@ =~= self@.insert(surface));
        } else {
            let ghost before = self.handles@;
            self.handles.push(surface);
            assert(self.handles@ == before.push(surface));
            assert forall|x: SurfaceHandle| self.handles@.contains(x) <==> before.contains(x) || x == surface by {
                if before.contains(x) {
                    let j = choose|j: int| 0 <= j < before.len() && before[j] == x;
                    assert(self.handles@[j] == x);
                }
                if self.handles@.contains(x) {
                    let j = choose|j: int| 0 <= j < self.handles@.len() && self.handles@[j] == x;
                    if j < before.len() {
                        assert(before[j] == x);
                    }
                }
                if x == surface {
                    assert(self.handles@[before.len() as int] == x);
                }
            }
            assert(self@ =~= before.to_set().insert(surface));
        }
    }

    /// Removes a surface; removing one that is absent changes nothing.
    pub fn unsubscribe(&mut self, surface: SurfaceHandle)
        requires
            old(self).wf(),
        ensures
            final(self).wf(),
            final(self)@ == old(self)@.remove(surface),
    {
        match self.index_of(surface) {
            None => {
                assert(self@ =~= self@.remove(surface));
            },
            Some(i) => {
                let ghost before = self.handles@;
                self.handles.remove(i);
                assert(self.handles@ == before.remove(i as int));
                assert forall|x: SurfaceHandle| self.handles@.contains(x) <==> before.contains(x) && x != surface by {
                    if self.handles@.contains(x) {
                        let j = choose|j: int| 0 <= j < self.handles@.len() && self.handles@[j] == x;
                        if j < i {
                            assert(before[j] == x);
                        } else {
                            assert(before[j + 1] == x);
                        }
                    }
                    if before.contains(x) && x != surface {
                        let j = choose|j: int| 0 <= j < before.len() && before[j] == x;
                        if j < i {
                            assert(self.handles@[j] == x);
                        } else {
                            assert(j != i);
                            assert(self.handles@[j - 1] == x);
                        }
                    }
                }
                assert(self@ =~= before.to_set().remove(surface));
            },
        }
    }

    /// The subscribed surfaces, each once, for one pass of the callback.
    pub fn snapshot(&self) -> (r: Vec<SurfaceHandle>)
        requires
            self.wf(),
        ensures
            r@.no_duplicates(),
            r@.to_set() == self@,
    {
        let mut out: Vec<SurfaceHandle> = Vec::new();
        let mut i: usize = 0;
        while i < self.handles.len()
            invariant
                i <= self.handles@.len(),
                out@ == self.handles@.subrange(0, i as int),
            decreases self.handles@.len() - i,
        {
            out.push(self.handles[i]);
            i = i + 1;
            assert(out@ =~= self.handles@.subrange(0, i as int));
        }
        assert(out@ =~= self.handles@);
        out
    }
}

} // verus!
