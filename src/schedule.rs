//! Systems registered into the stages, with the resource and component slots
//! each one reads and writes, and the grouping of a stage's systems into
//! batches that can run at the same time.

use crate::pipeline::RenderStage;
use vstd::prelude::*;

verus! {

/// The slots a system reads and writes. An exclusive system has the whole world
/// to itself.
#[derive(Debug)]
pub struct SystemAccess {
    pub reads: Vec<u32>,
    pub writes: Vec<u32>,
    pub exclusive: bool,
}

/// Whether two lists of slots share a slot.
pub open spec fn overlap(a: Seq<u32>, b: Seq<u32>) -> bool {
    exists|x: u32| a.contains(x) && b.contains(x)
}

/// Whether two systems may not run at the same time: either is exclusive, or
/// one writes a slot that the other reads or writes. Readers may overlap.
pub open spec fn conflicts(a: SystemAccess, b: SystemAccess) -> bool {
    ||| a.exclusive
    ||| b.exclusive
    ||| overlap(a.writes@, b.writes@)
    ||| overlap(a.writes@, b.reads@)
    ||| overlap(a.reads@, b.writes@)
}

fn shares_slot(a: &Vec<u32>, b: &Vec<u32>) -> (r: bool)
    ensures
        r == overlap(a@, b@),
{
    let mut i: usize = 0;
    while i < a.len()
        invariant
            i <= a@.len(),
            forall|k: int, l: int| 0 <= k < i && 0 <= l < b@.len() ==> a@[k] != b@[l],
        decreases a@.len() - i,
    {
        let mut j: usize = 0;
        while j < b.len()
            invariant
                i < a@.len(),
                j <= b@.len(),
                forall|k: int, l: int| 0 <= k < i && 0 <= l < b@.len() ==> a@[k] != b@[l],
                forall|l: int| 0 <= l < j ==> a@[i as int] != b@[l],
            decreases b@.len() - j,
        {
            if a[i] == b[j] {
                assert(a@.contains(a@[i as int]) && b@.contains(a@[i as int]));
                return true;
            }
            j = j + 1;
        }
        i = i + 1;
    }
    assert forall|x: u32| !(a@.contains(x) && b@.contains(x)) by {
        if a@.contains(x) && b@.contains(x) {
            let k = choose|k: int| 0 <= k < a@.len() && a@[k] == x;
            let l = choose|l: int| 0 <= l < b@.len() && b@[l] == x;
            assert(a@[k] != b@[l]);
        }
    }
    false
}

/// Conflict does not depend on which of the two systems is named first.
pub proof fn lemma_conflicts_symmetric(a: SystemAccess, b: SystemAccess)
    ensures
        conflicts(a, b) == conflicts(b, a),
{
    assert(overlap(a.writes@, b.writes@) == overlap(b.writes@, a.writes@));
    assert(overlap(a.writes@, b.reads@) == overlap(b.reads@, a.writes@));
    assert(overlap(a.reads@, b.writes@) == overlap(b.writes@, a.reads@));
}

impl SystemAccess {
    /// Whether this system and `other` may not run at the same time.
    pub fn conflicts_with(&self, other: &SystemAccess) -> (r: bool)
        ensures
            r == conflicts(*self, *other),
    {
        self.exclusive || other.exclusive || shares_slot(&self.writes, &other.writes)
            || shares_slot(&self.writes, &other.reads) || shares_slot(&self.reads, &other.writes)
    }
}

/// Batch numbers for systems in registration order: each system goes one batch
/// after the latest earlier system it conflicts with, or into the first batch.
pub open spec fn batched(sys: Seq<SystemAccess>, b: Seq<usize>) -> bool {
    &&& b.len() == sys.len()
    &&& forall|j: int, i: int|
        0 <= j < i < sys.len() && conflicts(sys[j], sys[i]) ==> b[j] < b[i]
    &&& forall|i: int|
        0 <= i < sys.len() ==> (b[i] == 0 || exists|j: int|
            0 <= j < i && conflicts(sys[j], sys[i]) && b[i] == b[j] + 1)
}

/// One more system, placed one batch after the latest earlier system it
/// conflicts with, keeps the batching.
proof fn lemma_batched_push(sys: Seq<SystemAccess>, b: Seq<usize>, i: int, level: usize)
    requires
        0 <= i < sys.len(),
        batched(sys.take(i), b),
        forall|k: int| 0 <= k < i && conflicts(sys[k], sys[i]) ==> b[k] < level,
        level == 0 || exists|k: int| 0 <= k < i && conflicts(sys[k], sys[i]) && level == b[k] + 1,
    ensures
        batched(sys.take(i + 1), b.push(level)),
{
    let s1 = sys.take(i + 1);
    let s0 = sys.take(i);
    let b1 = b.push(level);
    assert forall|jj: int, ii: int|
        0 <= jj < ii < i + 1 && conflicts(s1[jj], s1[ii]) implies b1[jj] < b1[ii] by {
        assert(s1[jj] == sys[jj]);
        assert(s1[ii] == sys[ii]);
        if ii < i {
            assert(s0[jj] == sys[jj]);
            assert(s0[ii] == sys[ii]);
        }
    }
    assert forall|ii: int| 0 <= ii < i + 1 implies (b1[ii] == 0 || exists|jj: int|
        0 <= jj < ii && conflicts(s1[jj], s1[ii]) && b1[ii] == b1[jj] + 1) by {
        if ii < i {
            if b[ii] != 0 {
                let jj = choose|jj: int| 0 <= jj < ii && conflicts(s0[jj], s0[ii]) && b[ii] == b[jj] + 1;
                assert(s1[jj] == s0[jj]);
                assert(s1[ii] == s0[ii]);
            }
        } else if level != 0 {
            let k = choose|k: int| 0 <= k < i && conflicts(sys[k], sys[i]) && level == b[k] + 1;
            assert(s1[k] == sys[k]);
            assert(s1[ii] == sys[ii]);
        }
    }
}

/// Groups systems into batches. Systems in one batch never conflict, and of two
/// conflicting systems the one registered first runs in an earlier batch.
pub fn batch_systems(sys: &Vec<SystemAccess>) -> (b: Vec<usize>)
    ensures
        batched(sys@, b@),
        forall|i: int, j: int|
            0 <= i < b@.len() && 0 <= j < b@.len() && i != j && b@[i] == b@[j] ==> !conflicts(
                sys@[i],
                sys@[j],
            ) && !conflicts(sys@[j], sys@[i]),
{
    let mut b: Vec<usize> = Vec::new();
    let mut i: usize = 0;
    while i < sys.len()
        invariant
            i <= sys@.len(),
            b@.len() == i,
            forall|k: int| 0 <= k < i ==> b@[k] <= k,
            batched(sys@.take(i as int), b@),
        decreases sys@.len() - i,
    {
        let mut level: usize = 0;
        let mut j: usize = 0;
        while j < i
            invariant
                i < sys@.len(),
                j <= i,
                b@.len() == i,
                forall|k: int| 0 <= k < i ==> b@[k] <= k,
                level <= j,
                forall|k: int| 0 <= k < j && conflicts(sys@[k], sys@[i as int]) ==> b@[k] < level,
                level == 0 || exists|k: int|
                    0 <= k < j && conflicts(sys@[k], sys@[i as int]) && level == b@[k] + 1,
            decreases i - j,
        {
            if sys[j].conflicts_with(&sys[i]) && b[j] >= level {
                level = b[j] + 1;
            }
            j = j + 1;
        }
        proof {
            lemma_batched_push(sys@, b@, i as int, level);
        }
        b.push(level);
        i = i + 1;
    }
    assert(sys@.take(i as int) =~= sys@);
    assert forall|x: int, y: int|
        0 <= x < b@.len() && 0 <= y < b@.len() && x != y && b@[x] == b@[y] implies !conflicts(
            sys@[x],
            sys@[y],
        ) && !conflicts(sys@[y], sys@[x]) by {
        lemma_conflicts_symmetric(sys@[x], sys@[y]);
    }
    b
}

/// The position of a stage in a frame.
pub open spec fn stage_index(s: RenderStage) -> int {
    match s {
        RenderStage::Extract => 0,
        RenderStage::Prepare => 1,
        RenderStage::Queue => 2,
        RenderStage::PhaseSort => 3,
        RenderStage::Render => 4,
        RenderStage::Cleanup => 5,
    }
}

fn position(s: RenderStage) -> (r: usize)
    ensures
        r == stage_index(s),
{
    match s {
        RenderStage::Extract => 0,
        RenderStage::Prepare => 1,
        RenderStage::Queue => 2,
        RenderStage::PhaseSort => 3,
        RenderStage::Render => 4,
        RenderStage::Cleanup => 5,
    }
}

/// The systems registered into each stage, in registration order.
pub struct Schedule {
    stages: Vec<Vec<SystemAccess>>,
}

impl Schedule {
    /// Every stage has its list of systems.
    pub closed spec fn wf(&self) -> bool {
        self.stages@.len() == 6
    }

    /// The systems of `stage`, in registration order.
    pub closed spec fn systems(&self, stage: RenderStage) -> Seq<SystemAccess> {
        self.stages@[stage_index(stage)]@
    }

    /// Every stage empty but Render, which holds the one system that submits the
    /// frame and has the render world to itself.
    pub fn new() -> (r: Schedule)
        ensures
            r.wf(),
            forall|s: RenderStage| s != RenderStage::Render ==> #[trigger] r.systems(s).len() == 0,
            r.systems(RenderStage::Render).len() == 1,
            r.systems(RenderStage::Render)[0].exclusive,
    {
        let mut stages: Vec<Vec<SystemAccess>> = Vec::new();
        let mut k: usize = 0;
        while k < 6
            invariant
                k <= 6,
                stages@.len() == k,
                forall|i: int| 0 <= i < k ==> (#[trigger] stages@[i])@.len() == if i == 4 {
                    1nat
                } else {
                    0nat
                },
                k > 4 ==> stages@[4]@[0].exclusive,
            decreases 6 - k,
        {
            let mut systems: Vec<SystemAccess> = Vec::new();
            if k == 4 {
                systems.push(SystemAccess { reads: Vec::new(), writes: Vec::new(), exclusive: true });
            }
            stages.push(systems);
            k = k + 1;
        }
        Schedule { stages }
    }

    /// Registers a system into `stage`, after the ones already there.
    pub fn add_system(&mut self, stage: RenderStage, access: SystemAccess)
        requires
            old(self).wf(),
        ensures
            final(self).wf(),
            final(self).systems(stage) == old(self).systems(stage).push(access),
            forall|s: RenderStage| s != stage ==> #[trigger] final(self).systems(s) == old(self).systems(s),
    {
        let idx = position(stage);
        self.stages[idx].push(access);
    }

    /// The systems of `stage`.
    pub fn systems_of(&self, stage: RenderStage) -> (r: &Vec<SystemAccess>)
        requires
            self.wf(),
        ensures
            r@ == self.systems(stage),
    {
        &self.stages[position(stage)]
    }

    /// The batch of each system of `stage`, as `batch_systems` groups them.
    pub fn batches(&self, stage: RenderStage) -> (r: Vec<usize>)
        requires
            self.wf(),
        ensures
            batched(self.systems(stage), r@),
    {
        batch_systems(self.systems_of(stage))
    }
}

} // verus!
