use vstd::prelude::*;

verus! {

/// A path waiting on the traversal stack, at `depth` levels below the root.
/// An expanded entry is a directory whose children were pushed above it and
/// which awaits removal once they are all done.
pub struct Frame {
    path: String,
    depth: usize,
    expanded: bool,
}

/// What the caller does next.
pub enum WalkStep {
    /// Look at the path and shred it (`Shredder::visit` decides how); a
    /// directory's children are then handed to `expand`.
    Visit(String, usize),
    /// Every entry below this directory is done: it may be removed.
    RemoveDir(String),
    /// Nothing is left.
    Finished,
}

/// A depth-first traversal of a directory tree with an explicit stack of
/// pending work, so that deep trees need no deep recursion.
pub struct TreeWalk {
    stack: Vec<Frame>,
    /// The depth of the path handed out by the last `Visit`, until it is
    /// expanded or another step is taken.
    visiting: Option<usize>,
}

/// Frames lower on the stack are never deeper, and everything above an
/// expanded directory lies strictly deeper than it.
pub open spec fn ordered(stack: Seq<(nat, bool)>) -> bool {
    forall|i: int, j: int|
        0 <= i < j < stack.len() ==> stack[i].0 <= stack[j].0 && (stack[i].1 ==> stack[i].0 < stack[j].0)
}

impl TreeWalk {
    /// Depth and expansion of each frame, from the bottom of the stack.
    pub closed spec fn spec_frames(&self) -> Seq<(nat, bool)> {
        self.stack@.map_values(|f: Frame| (f.depth as nat, f.expanded))
    }

    pub closed spec fn spec_visiting(&self) -> Option<nat> {
        match self.visiting {
            Some(d) => Some(d as nat),
            None => None,
        }
    }

    pub open spec fn wf(&self) -> bool {
        &&& ordered(self.spec_frames())
        &&& self.spec_visiting() is Some ==> ordered(self.spec_frames().push((self.spec_visiting()->Some_0, false)))
    }

    /// A traversal that starts at `root`.
    pub fn new(root: String) -> (r: Self)
        ensures
            r.wf(),
            r.spec_frames() == seq![(0nat, false)],
            r.spec_visiting() is None,
    {
        let mut stack: Vec<Frame> = Vec::new();
        stack.push(Frame { path: root, depth: 0, expanded: false });
        let r = TreeWalk { stack, visiting: None };
        assert(r.spec_frames() =~= seq![(0nat, false)]);
        r
    }

    /// Takes the next piece of work off the stack. A directory is handed out
    /// for removal only when nothing deeper is left, that is once every entry
    /// below it is done; and only when `remove_dirs` holds.
    pub fn next_step(&mut self, remove_dirs: bool) -> (r: WalkStep)
        requires
            old(self).wf(),
        ensures
            final(self).wf(),
            final(self).spec_frames() == old(self).spec_frames().take(final(self).spec_frames().len() as int),
            final(self).spec_frames().len() <= old(self).spec_frames().len(),
            r is Visit ==> final(self).spec_visiting() == Some(r->Visit_1 as nat),
            !(r is Visit) ==> final(self).spec_visiting() is None,
            r is Finished ==> final(self).spec_frames().len() == 0 && forall|k: int|
                0 <= k < old(self).spec_frames().len() ==> (#[trigger] old(self).spec_frames()[k]).1,
            r is Visit ==> {
                let m = final(self).spec_frames().len() as int;
                &&& m < old(self).spec_frames().len()
                &&& old(self).spec_frames()[m] == (r->Visit_1 as nat, false)
                &&& forall|k: int| m < k < old(self).spec_frames().len() ==> (#[trigger] old(self).spec_frames()[k]).1
            },
            r is RemoveDir ==> {
                let m = final(self).spec_frames().len() as int;
                &&& remove_dirs
                &&& m == old(self).spec_frames().len() - 1
                &&& old(self).spec_frames()[m].1
                &&& forall|k: int| 0 <= k < m ==> (#[trigger] old(self).spec_frames()[k]).0 <= old(self).spec_frames()[m].0
            },
    {
        let ghost start = self.spec_frames();
        self.visiting = None;
        loop
            invariant
                self.wf(),
                self.spec_frames() == start.take(self.spec_frames().len() as int),
                self.spec_frames().len() <= start.len(),
                forall|k: int| self.spec_frames().len() <= k < start.len() ==> (#[trigger] start[k]).1,
                ordered(start),
                self.spec_visiting() is None,
                start == old(self).spec_frames(),
                remove_dirs ==> self.spec_frames().len() == start.len(),
            decreases self.stack.len(),
        {
            let ghost before = self.stack@;
            let ghost before_frames = self.spec_frames();
            match self.stack.pop() {
                None => {
                    return WalkStep::Finished;
                },
                Some(frame) => {
                    proof {
                        let m = self.stack@.len() as int;
                        assert(self.stack@ =~= before.take(m));
                        assert(before[m] == frame);
                        assert(before_frames[m] == (frame.depth as nat, frame.expanded));
                        assert(before_frames[m] == start[m]);
                        assert(self.spec_frames() =~= start.take(m));
                    }
                    if !frame.expanded {
                        proof {
                            let m = self.stack@.len() as int;
                            assert(self.spec_frames().push((frame.depth as nat, false)) =~= start.take(m + 1));
                        }
                        self.visiting = Some(frame.depth);
                        return WalkStep::Visit(frame.path, frame.depth);
                    }
                    if remove_dirs {
                        return WalkStep::RemoveDir(frame.path);
                    }
                },
            }
        }
    }
}

impl TreeWalk {
    /// Pushes the directory `dir` that the last `Visit` handed out, to be
    /// removed after its `children`, which are pushed above it one level
    /// deeper. Returns false, and changes nothing, where no visit is open.
    pub fn expand(&mut self, dir: String, children: Vec<String>) -> (r: bool)
        requires
            old(self).wf(),
        ensures
            final(self).wf(),
            final(self).spec_visiting() is None,
            r == (old(self).spec_visiting() is Some && old(self).spec_visiting()->Some_0 < usize::MAX),
            !r ==> final(self).spec_frames() == old(self).spec_frames(),
            r ==> final(self).spec_frames() == old(self).spec_frames().push((old(self).spec_visiting()->Some_0, true))
                + Seq::new(children@.len(), |i: int| (old(self).spec_visiting()->Some_0 + 1, false)),
    {
        let depth = match self.visiting {
            Some(d) => d,
            None => {
                return false;
            },
        };
        if depth == usize::MAX {
            self.visiting = None;
            return false;
        }
        self.visiting = None;
        let ghost base = self.spec_frames();
        self.stack.push(Frame { path: dir, depth, expanded: true });
        assert(self.spec_frames() =~= base.push((depth as nat, true)));
        let ghost top = self.spec_frames();
        let mut rest = children;
        let mut pushed: usize = 0;
        let total = rest.len();
        while rest.len() > 0
            invariant
                pushed + rest@.len() == total,
                total == children@.len(),
                ordered(base.push((depth as nat, false))),
                self.spec_visiting() is None,
                depth < usize::MAX,
                self.spec_frames() == top + Seq::new(pushed as nat, |i: int| (depth as nat + 1, false)),
                top == base.push((depth as nat, true)),
            decreases rest.len(),
        {
            let child = rest.pop().unwrap();
            let ghost prev = self.spec_frames();
            self.stack.push(Frame { path: child, depth: depth + 1, expanded: false });
            assert(self.spec_frames() =~= prev.push((depth as nat + 1, false)));
            pushed = pushed + 1;
            assert(self.spec_frames() =~= top + Seq::new(pushed as nat, |i: int| (depth as nat + 1, false)));
        }
        assert forall|i: int, j: int| 0 <= i < j < self.spec_frames().len() implies self.spec_frames()[i].0
            <= self.spec_frames()[j].0 && (self.spec_frames()[i].1 ==> self.spec_frames()[i].0
            < self.spec_frames()[j].0) by {
            if j > base.len() {
                assert(self.spec_frames()[j].0 == depth + 1);
                if i < base.len() {
                    assert(base.push((depth as nat, false))[i] == base[i]);
                    assert(base.push((depth as nat, false))[base.len() as int] == (depth as nat, false));
                    assert(self.spec_frames()[i] == base[i]);
                }
            } else if j == base.len() {
                assert(base.push((depth as nat, false))[i] == base[i]);
                assert(base.push((depth as nat, false))[j] == (depth as nat, false));
                assert(self.spec_frames()[i] == base[i]);
            } else {
                assert(base.push((depth as nat, false))[i] == base[i]);
                assert(base.push((depth as nat, false))[j] == base[j]);
                assert(self.spec_frames()[i] == base[i]);
                assert(self.spec_frames()[j] == base[j]);
            }
        }
        true
    }
}

} // verus!
