use vstd::prelude::*;
use crate::sample::sample;

verus! {

use vstd::pervasive::VecAdditionalExecFns;

/// One node of a multi-expression program: an instruction payload together
/// with the addresses of its two operands. Addresses point into the combined
/// space of program inputs followed by earlier operations, so an operation
/// can only consume values that are already available when it runs.
#[derive(Clone, Copy, PartialEq, Debug)]
pub struct Opcode<Ins> {
    pub instruction: Ins,
    pub first: usize,
    pub second: usize,
}

/// A multi-expression program: a sequence of operations that may reuse the
/// results of earlier operations or any program input, together with two
/// self-adaptive evolution parameters and the input arity.
#[derive(Clone, PartialEq, Debug)]
pub struct Mep<Ins> {
    pub program: Vec<Opcode<Ins>>,
    pub unit_mutate_size: usize,
    pub crossover_points: usize,
    pub inputs: usize,
}

/// Failures of the genome operations.
#[derive(Clone, Copy, PartialEq, Eq, Structural, Debug)]
pub enum MepError {
    /// Two genomes with different input arities were asked to mate.
    ArityMismatch,
    /// An evaluation requested more outputs than the genome has operations.
    InsufficientOperations,
}

/// Acyclicity: every operation references only program inputs or strictly
/// earlier operations. The operand addresses of the operation at local
/// index `k` lie below `ni + k`, where `ni` is the number of inputs.
pub open spec fn prog_wf<Ins>(prog: Seq<Opcode<Ins>>, ni: int) -> bool {
    forall|k: int|
        0 <= k < prog.len() ==> (#[trigger] prog[k]).first < ni + k && prog[k].second < ni + k
}

impl<Ins> Mep<Ins> {
    /// Structural validity of a genome: the program is acyclic and both
    /// adaptive parameters respect their floor of one.
    pub open spec fn wf(self) -> bool {
        &&& self.unit_mutate_size >= 1
        &&& self.crossover_points >= 1
        &&& prog_wf(self.program@, self.inputs as int)
    }
}

/// How many marks are set in a sequence of switch flags.
pub open spec fn count_true(s: Seq<bool>) -> int
    decreases s.len(),
{
    if s.len() == 0 {
        0
    } else {
        count_true(s.drop_last()) + if s.last() {
            1int
        } else {
            0int
        }
    }
}

/// The child program was assembled from alternating contiguous blocks of
/// its parents' programs: walking the positions once and switching source
/// parent at every set mark, position `k` is copied from the second parent
/// exactly when an odd number of marks lie at or before `k`, and from the
/// first parent otherwise. Whenever at least four positions are shared, at
/// least one switch point was drawn.
pub open spec fn crossed_with_marks<Ins>(
    p0: Mep<Ins>,
    p1: Mep<Ins>,
    child: Mep<Ins>,
    marks: Seq<bool>,
) -> bool {
    &&& marks.len() == child.program@.len()
    &&& (marks.len() >= 4 ==> exists|p: int| 0 <= p < marks.len() && marks[p])
    &&& forall|k: int|
        0 <= k < marks.len() ==> child.program@[k] == (if count_true(marks.take(k + 1)) % 2 == 1 {
            p1
        } else {
            p0
        }).program@[k]
}

impl<Ins: Copy> Mep<Ins> {
    /// Builds a genome with one operation per given instruction. The two
    /// operand addresses of the operation at local index `k` are drawn
    /// uniformly from `[0, inputs + k)`, which makes the genome acyclic by
    /// construction.
    pub fn new(
        inputs: usize,
        unit_mutate_size: usize,
        crossover_points: usize,
        rng: &mut rand::rngs::StdRng,
        instructions: &Vec<Ins>,
    ) -> (m: Mep<Ins>)
        requires
            unit_mutate_size >= 1,
            crossover_points >= 1,
            instructions@.len() > 0 ==> inputs >= 1,
            inputs + instructions@.len() <= usize::MAX,
        ensures
            m.wf(),
            m.inputs == inputs,
            m.unit_mutate_size == unit_mutate_size,
            m.crossover_points == crossover_points,
            m.program@.len() == instructions@.len(),
            forall|k: int|
                0 <= k < instructions@.len() ==> m.program@[k].instruction == instructions@[k],
    {
        let mut program: Vec<Opcode<Ins>> = Vec::new();
        let mut k: usize = 0;
        while k < instructions.len()
            invariant
                k <= instructions@.len(),
                program@.len() == k,
                instructions@.len() > 0 ==> inputs >= 1,
                inputs + instructions@.len() <= usize::MAX,
                prog_wf(program@, inputs as int),
                forall|j: int| 0 <= j < k ==> program@[j].instruction == instructions@[j],
            decreases instructions@.len() - k,
        {
            let ins = instructions[k];
            let first = sample(rng, 0, inputs + k);
            let second = sample(rng, 0, inputs + k);
            program.push(Opcode { instruction: ins, first, second });
            k += 1;
        }
        Mep { program, unit_mutate_size, crossover_points, inputs }
    }

    /// Produces a child genome from two parents of equal input arity, or
    /// `ArityMismatch` when the arities differ. The child is as long as the
    /// shorter parent and is assembled from alternating contiguous blocks of
    /// the parents' operations, switching source parent at each of a randomly
    /// drawn set of crossover points; every child operation is copied
    /// verbatim from the same position of one of the parents. Both adaptive
    /// parameters of the child are drawn from the inclusive range spanned by
    /// the parents' values. Note that how many points are drawn comes from
    /// the shared length alone: the parents' own `crossover_points` traits
    /// are inherited by blending but deliberately not consulted here.
    pub fn mate(parents: (&Mep<Ins>, &Mep<Ins>), rng: &mut rand::rngs::StdRng) -> (r: Result<
        Mep<Ins>,
        MepError,
    >)
        requires
            parents.0.wf(),
            parents.1.wf(),
            parents.0.unit_mutate_size < usize::MAX,
            parents.1.unit_mutate_size < usize::MAX,
            parents.0.crossover_points < usize::MAX,
            parents.1.crossover_points < usize::MAX,
        ensures
            r is Ok <==> parents.0.inputs == parents.1.inputs,
            r is Err ==> r->Err_0 == MepError::ArityMismatch,
            r is Ok ==> r->Ok_0.wf() && r->Ok_0.inputs == parents.0.inputs,
            r is Ok ==> r->Ok_0.program@.len() == vstd::math::min(
                parents.0.program@.len() as int,
                parents.1.program@.len() as int,
            ),
            r is Ok ==> forall|k: int|
                0 <= k < r->Ok_0.program@.len() ==> r->Ok_0.program@[k] == parents.0.program@[k]
                    || r->Ok_0.program@[k] == parents.1.program@[k],
            r is Ok ==> exists|marks: Seq<bool>|
                #[trigger] crossed_with_marks(*parents.0, *parents.1, r->Ok_0, marks),
            r is Ok ==> vstd::math::min(
                parents.0.unit_mutate_size as int,
                parents.1.unit_mutate_size as int,
            ) <= r->Ok_0.unit_mutate_size <= vstd::math::max(
                parents.0.unit_mutate_size as int,
                parents.1.unit_mutate_size as int,
            ),
            r is Ok ==> vstd::math::min(
                parents.0.crossover_points as int,
                parents.1.crossover_points as int,
            ) <= r->Ok_0.crossover_points <= vstd::math::max(
                parents.0.crossover_points as int,
                parents.1.crossover_points as int,
            ),
    {
        if parents.0.inputs != parents.1.inputs {
            return Err(MepError::ArityMismatch);
        }
        let len0 = parents.0.program.len();
        let len1 = parents.1.program.len();
        let n = if len0 < len1 {
            len0
        } else {
            len1
        };
        // Fewer than four shared operations leave no room to draw a count
        // from [1, n / 2); no interior point is chosen then and the child
        // copies the leading parent throughout.
        let count = if n >= 4 {
            sample(rng, 1, n / 2)
        } else {
            0
        };
        // Record the drawn crossover points as flags over [0, n); duplicate
        // draws collapse to a single switch, as befits a set of points.
        let mut marks: Vec<bool> = Vec::new();
        let mut t: usize = 0;
        while t < n
            invariant
                marks@.len() == t,
                t <= n,
            decreases n - t,
        {
            marks.push(false);
            t += 1;
        }
        let mut i: usize = 0;
        while i < count
            invariant
                marks@.len() == n,
                n <= len0,
                n <= len1,
                i <= count,
                count > 0 ==> n >= 4,
                n >= 4 ==> count >= 1,
                i > 0 ==> exists|p: int| 0 <= p < marks@.len() && marks@[p],
            decreases count - i,
        {
            let p = sample(rng, 0, n);
            marks.set(p, true);
            proof {
                assert(marks@[p as int]);
            }
            i += 1;
        }
        // Walk the shared range once, switching source parent at every
        // crossover point, and copy the current parent's operation at each
        // position unchanged.
        let mut program: Vec<Opcode<Ins>> = Vec::new();
        let mut from_second: bool = false;
        let mut t: usize = 0;
        proof {
            assert(marks@.take(0).len() == 0);
        }
        while t < n
            invariant
                marks@.len() == n,
                n <= parents.0.program@.len(),
                n <= parents.1.program@.len(),
                t <= n,
                program@.len() == t,
                from_second == (count_true(marks@.take(t as int)) % 2 == 1),
                n >= 4 ==> exists|p: int| 0 <= p < marks@.len() && marks@[p],
                forall|k: int|
                    0 <= k < t ==> program@[k] == parents.0.program@[k] || program@[k]
                        == parents.1.program@[k],
                forall|k: int|
                    0 <= k < t ==> program@[k] == (if count_true(marks@.take(k + 1)) % 2 == 1 {
                        *parents.1
                    } else {
                        *parents.0
                    }).program@[k],
            decreases n - t,
        {
            proof {
                assert(marks@.take(t as int + 1).drop_last() =~= marks@.take(t as int));
                assert(marks@.take(t as int + 1).last() == marks@[t as int]);
            }
            if marks[t] {
                from_second = !from_second;
            }
            let op = if from_second {
                parents.1.program[t]
            } else {
                parents.0.program[t]
            };
            program.push(op);
            t += 1;
        }
        let unit_mutate_size = blend(rng, parents.0.unit_mutate_size, parents.1.unit_mutate_size);
        let crossover_points = blend(rng, parents.0.crossover_points, parents.1.crossover_points);
        let child = Mep { program, unit_mutate_size, crossover_points, inputs: parents.0.inputs };
        proof {
            assert forall|k: int| 0 <= k < child.program@.len() implies (
            #[trigger] child.program@[k]).first < child.inputs + k && child.program@[k].second
                < child.inputs + k by {
                assert(parents.0.wf() && parents.1.wf());
            }
            assert(crossed_with_marks(*parents.0, *parents.1, child, marks@));
            assert(exists|m: Seq<bool>|
                #[trigger] crossed_with_marks(*parents.0, *parents.1, child, m));
        }
        Ok(child)
    }
}

impl<Ins: Copy> Mep<Ins> {
    /// Mutates the genome in place. Each adaptive parameter first moves up
    /// or down by one with probability reciprocal to `unit_mutate_size`,
    /// never dropping below one. Then a run of localized mutations follows:
    /// each round draws a candidate local index as a sum of a draw below the
    /// genome length and a draw below `unit_mutate_size`, stops at the first
    /// candidate that lands beyond the genome, and otherwise either rewrites
    /// the instruction through the caller's `mutator` or redraws one operand
    /// address from the addresses available at that position. The run is
    /// also capped at `len * unit_mutate_size + 1` rounds: with
    /// `unit_mutate_size` of one every candidate lands inside the genome,
    /// and termination must not depend on chance.
    pub fn mutate<F: Fn(Ins) -> Ins>(&mut self, rng: &mut rand::rngs::StdRng, mutator: F)
        requires
            old(self).wf(),
            old(self).program@.len() >= 1,
            old(self).program@.len() + old(self).unit_mutate_size < usize::MAX,
            old(self).inputs + old(self).program@.len() <= usize::MAX,
            old(self).crossover_points < usize::MAX,
            forall|i: Ins| mutator.requires((i,)),
        ensures
            final(self).wf(),
            final(self).inputs == old(self).inputs,
            final(self).program@.len() == old(self).program@.len(),
            final(self).unit_mutate_size >= 1,
            final(self).crossover_points >= 1,
            old(self).unit_mutate_size - 1 <= final(self).unit_mutate_size <= old(
                self,
            ).unit_mutate_size + 1,
            old(self).crossover_points - 1 <= final(self).crossover_points <= old(
                self,
            ).crossover_points + 1,
            forall|k: int|
                0 <= k < old(self).program@.len() ==> final(self).program@[k].instruction == old(
                    self,
                ).program@[k].instruction || exists|i: Ins|
                    call_ensures(mutator, (i,), #[trigger] final(self).program@[k].instruction),
    {
        proof {
            // A non-empty acyclic genome forces at least one program input:
            // the very first operation can only reference inputs.
            assert(old(self).program@[0].first < old(self).inputs + 0);
        }
        // Possibly move unit_mutate_size by one, floored at one.
        if sample(rng, 0, self.unit_mutate_size) == 0 {
            if sample(rng, 0, 2) == 0 {
                self.unit_mutate_size = self.unit_mutate_size + 1;
            } else if self.unit_mutate_size > 1 {
                self.unit_mutate_size = self.unit_mutate_size - 1;
            }
        }
        // Possibly move crossover_points by one, floored at one, gated by
        // the possibly just-updated unit_mutate_size.
        if sample(rng, 0, self.unit_mutate_size) == 0 {
            if sample(rng, 0, 2) == 0 {
                self.crossover_points = self.crossover_points + 1;
            } else if self.crossover_points > 1 {
                self.crossover_points = self.crossover_points - 1;
            }
        }
        let len = self.program.len();
        let ghost ums_snap: usize = self.unit_mutate_size;
        let ghost cp_snap: usize = self.crossover_points;
        proof {
            let w: u128 = 0xffff_ffff_ffff_ffffu128;
            assert((len as u128) * (self.unit_mutate_size as u128) <= w * w) by (nonlinear_arith)
                requires
                    (len as u128) <= w,
                    (self.unit_mutate_size as u128) <= w,
            ;
        }
        let mut fuel: u128 = (len as u128) * (self.unit_mutate_size as u128) + 1;
        while fuel > 0
            invariant
                self.program@.len() == len,
                len >= 1,
                self.inputs == old(self).inputs,
                self.inputs >= 1,
                self.unit_mutate_size == ums_snap,
                self.crossover_points == cp_snap,
                self.unit_mutate_size >= 1,
                len + self.unit_mutate_size <= usize::MAX,
                self.inputs + len <= usize::MAX,
                prog_wf(self.program@, self.inputs as int),
                forall|i: Ins| mutator.requires((i,)),
                forall|k: int|
                    0 <= k < len ==> self.program@[k].instruction == old(
                        self,
                    ).program@[k].instruction || exists|i: Ins|
                        call_ensures(mutator, (i,), #[trigger] self.program@[k].instruction),
            decreases fuel,
        {
            let choice = sample(rng, 0, len) + sample(rng, 0, self.unit_mutate_size);
            // A candidate beyond the genome rejects the round and ends the
            // run; larger unit_mutate_size makes that ever more likely.
            if choice >= len {
                break ;
            }
            let op = self.program[choice];
            let kind = sample(rng, 0, 3);
            if kind == 0 {
                let mutated = mutator(op.instruction);
                self.program.set(
                    choice,
                    Opcode { instruction: mutated, first: op.first, second: op.second },
                );
            } else if kind == 1 {
                let first = sample(rng, 0, choice + self.inputs);
                self.program.set(
                    choice,
                    Opcode { instruction: op.instruction, first, second: op.second },
                );
            } else {
                let second = sample(rng, 0, choice + self.inputs);
                self.program.set(
                    choice,
                    Opcode { instruction: op.instruction, first: op.first, second },
                );
            }
            fuel = fuel - 1;
        }
    }
}

/// Draws a value uniformly from the inclusive range spanned by `a` and `b`,
/// whichever order they come in.
fn blend(rng: &mut rand::rngs::StdRng, a: usize, b: usize) -> (r: usize)
    requires
        a < usize::MAX,
        b < usize::MAX,
    ensures
        vstd::math::min(a as int, b as int) <= r <= vstd::math::max(a as int, b as int),
{
    if a < b {
        sample(rng, a, b + 1)
    } else {
        sample(rng, b, a + 1)
    }
}

} // verus!
