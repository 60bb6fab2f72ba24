use vstd::prelude::*;
use crate::genome::{prog_wf, Mep, MepError, Opcode};

verus! {

use vstd::pervasive::VecAdditionalExecFns;

/// An address is available: it names a program input, or an operation
/// whose memo slot is already filled.
pub open spec fn addr_ready<Param>(memo: Seq<Option<Param>>, ni: int, a: int) -> bool {
    a >= ni ==> memo[a - ni] is Some
}

/// The value an available address denotes: the input itself, or the
/// memoized result of the operation the address names.
pub open spec fn addr_value<Param>(
    memo: Seq<Option<Param>>,
    inputs: Seq<Param>,
    ni: int,
    a: int,
) -> Param {
    if a < ni {
        inputs[a]
    } else {
        memo[a - ni]->Some_0
    }
}

/// Every filled memo slot holds a result the reduction function could have
/// returned for its operation: both operand addresses are available, and the
/// stored value stands in the reduction's postcondition to their values.
pub open spec fn memo_ok<Ins, Param, F: Fn(Ins, Param, Param) -> Param>(
    f: F,
    prog: Seq<Opcode<Ins>>,
    inputs: Seq<Param>,
    ni: int,
    memo: Seq<Option<Param>>,
) -> bool {
    &&& memo.len() == prog.len()
    &&& forall|k: int|
        0 <= k < prog.len() && (#[trigger] memo[k]) is Some ==> {
            let op = prog[k];
            &&& addr_ready(memo, ni, op.first as int)
            &&& addr_ready(memo, ni, op.second as int)
            &&& call_ensures(
                f,
                (
                    op.instruction,
                    addr_value(memo, inputs, ni, op.first as int),
                    addr_value(memo, inputs, ni, op.second as int),
                ),
                memo[k]->Some_0,
            )
        }
}

/// What a successful evaluation returns: the results of the last `outputs`
/// operations, last operation first, as witnessed by a memo table that is
/// consistent with the reduction function.
pub open spec fn execute_post<Ins, Param, F: Fn(Ins, Param, Param) -> Param>(
    f: F,
    prog: Seq<Opcode<Ins>>,
    inputs: Seq<Param>,
    ni: int,
    outputs: int,
    out: Seq<Param>,
) -> bool {
    &&& out.len() == outputs
    &&& exists|memo: Seq<Option<Param>>|
        {
            &&& #[trigger] memo_ok(f, prog, inputs, ni, memo)
            &&& forall|j: int|
                0 <= j < outputs ==> (#[trigger] memo[prog.len() - 1 - j]) is Some && out[j]
                    == memo[prog.len() - 1 - j]->Some_0
        }
}

/// Computes the value of one address by memoized recursive descent: inputs
/// are returned directly, a filled memo slot is reused, and anything else is
/// reduced from its operands' values and recorded. Filled slots are never
/// recomputed or changed.
fn solve<Ins: Copy, Param: Copy, F: Fn(Ins, Param, Param) -> Param>(
    mep: &Mep<Ins>,
    inputs: &Vec<Param>,
    f: &F,
    memo: &mut Vec<Option<Param>>,
    a: usize,
) -> (v: Param)
    requires
        mep.wf(),
        inputs@.len() >= mep.inputs,
        a < mep.inputs + mep.program@.len(),
        old(memo)@.len() == mep.program@.len(),
        memo_ok(*f, mep.program@, inputs@, mep.inputs as int, old(memo)@),
        forall|i: Ins, x: Param, y: Param| call_requires(*f, (i, x, y)),
    ensures
        final(memo)@.len() == mep.program@.len(),
        memo_ok(*f, mep.program@, inputs@, mep.inputs as int, final(memo)@),
        forall|k: int|
            0 <= k < mep.program@.len() && old(memo)@[k] is Some ==> final(memo)@[k] == old(
                memo,
            )@[k],
        forall|k: int|
            a - mep.inputs < k < mep.program@.len() ==> final(memo)@[k] == old(memo)@[k],
        addr_ready(final(memo)@, mep.inputs as int, a as int),
        v == addr_value(final(memo)@, inputs@, mep.inputs as int, a as int),
    decreases a,
{
    if a < mep.inputs {
        inputs[a]
    } else {
        let k = a - mep.inputs;
        match memo[k] {
            Some(x) => x,
            None => {
                let op = mep.program[k];
                let x = solve(mep, inputs, f, memo, op.first);
                let ghost m1 = memo@;
                let y = solve(mep, inputs, f, memo, op.second);
                let ghost m2 = memo@;
                let r = f(op.instruction, x, y);
                memo.set(k, Some(r));
                proof {
                    let ni = mep.inputs as int;
                    let prog = mep.program@;
                    assert(op.first < ni + k && op.second < ni + k);
                    // The slot being filled was still empty after the two
                    // recursive descents: they only touch lower slots.
                    assert(m2[k as int] is None);
                    // Both operand values survive the second descent and the
                    // fill of the higher slot k.
                    if op.first >= mep.inputs {
                        assert(m1[op.first - ni] is Some);
                        assert(m2[op.first - ni] == m1[op.first - ni]);
                    }
                    assert(x == addr_value(m2, inputs@, ni, op.first as int));
                    assert(y == addr_value(m2, inputs@, ni, op.second as int));
                    assert(memo@ == m2.update(k as int, Option::Some(r)));
                    assert forall|j: int|
                        0 <= j < prog.len() && (#[trigger] memo@[j]) is Some implies {
                        let opj = prog[j];
                        &&& addr_ready(memo@, ni, opj.first as int)
                        &&& addr_ready(memo@, ni, opj.second as int)
                        &&& call_ensures(
                            *f,
                            (
                                opj.instruction,
                                addr_value(memo@, inputs@, ni, opj.first as int),
                                addr_value(memo@, inputs@, ni, opj.second as int),
                            ),
                            memo@[j]->Some_0,
                        )
                    } by {
                        if j == k {
                            assert(addr_ready(memo@, ni, op.first as int));
                            assert(addr_ready(memo@, ni, op.second as int));
                            assert(addr_value(memo@, inputs@, ni, op.first as int) == x);
                            assert(addr_value(memo@, inputs@, ni, op.second as int) == y);
                        } else {
                            assert(memo@[j] == m2[j]);
                            assert(m2[j] is Some);
                            let opj = prog[j];
                            // Entry j's operand slots are filled in m2, and
                            // slot k is not, so the fill left them alone.
                            if opj.first >= ni {
                                assert(m2[opj.first - ni] is Some);
                                assert(opj.first - ni != k);
                            }
                            if opj.second >= ni {
                                assert(m2[opj.second - ni] is Some);
                                assert(opj.second - ni != k);
                            }
                        }
                    }
                }
                r
            },
        }
    }
}

impl<Ins: Copy> Mep<Ins> {
    /// Evaluates the genome on the given input values, producing the results
    /// of its last `outputs` operations, last operation first, or
    /// `InsufficientOperations` when more outputs are requested than there
    /// are operations. Each operation's value is reduced from its operands'
    /// values by the caller's pure reduction function, and an operation
    /// shared by several outputs is computed at most once per call.
    pub fn execute<Param: Copy, F: Fn(Ins, Param, Param) -> Param>(
        &self,
        inputs: &Vec<Param>,
        outputs: usize,
        f: F,
    ) -> (r: Result<Vec<Param>, MepError>)
        requires
            self.wf(),
            inputs@.len() >= self.inputs,
            self.inputs + self.program@.len() <= usize::MAX,
            forall|i: Ins, x: Param, y: Param| call_requires(f, (i, x, y)),
        ensures
            r is Ok <==> outputs <= self.program@.len(),
            r is Err ==> r->Err_0 == MepError::InsufficientOperations,
            r is Ok ==> execute_post(
                f,
                self.program@,
                inputs@,
                self.inputs as int,
                outputs as int,
                r->Ok_0@,
            ),
    {
        if outputs > self.program.len() {
            return Err(MepError::InsufficientOperations);
        }
        let len = self.program.len();
        let mut memo: Vec<Option<Param>> = Vec::new();
        let mut k: usize = 0;
        while k < len
            invariant
                k <= len,
                memo@.len() == k,
                forall|j: int| 0 <= j < k ==> memo@[j] is None,
            decreases len - k,
        {
            memo.push(None);
            k += 1;
        }
        let mut out: Vec<Param> = Vec::new();
        let mut j: usize = 0;
        while j < outputs
            invariant
                self.wf(),
                inputs@.len() >= self.inputs,
                self.inputs + self.program@.len() <= usize::MAX,
                forall|i: Ins, x: Param, y: Param| call_requires(f, (i, x, y)),
                len == self.program@.len(),
                outputs <= len,
                j <= outputs,
                out@.len() == j,
                memo@.len() == len,
                memo_ok(f, self.program@, inputs@, self.inputs as int, memo@),
                forall|jj: int|
                    0 <= jj < j ==> (#[trigger] memo@[len - 1 - jj]) is Some && out@[jj]
                        == memo@[len - 1 - jj]->Some_0,
            decreases outputs - j,
        {
            let a = self.inputs + (len - 1 - j);
            let v = solve(self, inputs, &f, &mut memo, a);
            out.push(v);
            j += 1;
        }
        Ok(out)
    }
}

/// The mathematical value of an address under a spec-level reduction `g`:
/// an input address denotes the input itself, an operation address the
/// reduction of its operands' values. Well defined on acyclic programs,
/// where both operands lie strictly below the operation.
pub open spec fn eval_addr<Ins, Param>(
    prog: Seq<Opcode<Ins>>,
    inputs: Seq<Param>,
    g: spec_fn(Ins, Param, Param) -> Param,
    ni: int,
    a: int,
) -> Param
    decreases a,
    when 0 <= a < ni + prog.len() && ni >= 0 && prog_wf(prog, ni)
{
    if a < ni {
        inputs[a]
    } else {
        let op = prog[a - ni];
        g(
            op.instruction,
            eval_addr(prog, inputs, g, ni, op.first as int),
            eval_addr(prog, inputs, g, ni, op.second as int),
        )
    }
}

/// The reduction function computes the spec-level reduction `g`: every
/// result it can return is the value `g` gives its arguments.
pub open spec fn reduces_as<Ins, Param, F: Fn(Ins, Param, Param) -> Param>(
    f: F,
    g: spec_fn(Ins, Param, Param) -> Param,
) -> bool {
    forall|i: Ins, x: Param, y: Param, r: Param| call_ensures(f, (i, x, y), r) ==> r == g(i, x, y)
}

/// Law: when the reduction function computes a spec-level reduction, every
/// filled memo slot holds exactly the mathematical value of its operation.
pub proof fn lemma_memo_matches_eval<Ins, Param, F: Fn(Ins, Param, Param) -> Param>(
    f: F,
    g: spec_fn(Ins, Param, Param) -> Param,
    prog: Seq<Opcode<Ins>>,
    inputs: Seq<Param>,
    ni: int,
    memo: Seq<Option<Param>>,
    k: int,
)
    requires
        ni >= 0,
        prog_wf(prog, ni),
        reduces_as(f, g),
        memo_ok(f, prog, inputs, ni, memo),
        0 <= k < prog.len(),
        memo[k] is Some,
    ensures
        memo[k]->Some_0 == eval_addr(prog, inputs, g, ni, ni + k),
    decreases k,
{
    let op = prog[k];
    if op.first >= ni {
        lemma_memo_matches_eval(f, g, prog, inputs, ni, memo, op.first - ni);
    }
    if op.second >= ni {
        lemma_memo_matches_eval(f, g, prog, inputs, ni, memo, op.second - ni);
    }
    assert(addr_value(memo, inputs, ni, op.first as int) == eval_addr(
        prog,
        inputs,
        g,
        ni,
        op.first as int,
    ));
    assert(addr_value(memo, inputs, ni, op.second as int) == eval_addr(
        prog,
        inputs,
        g,
        ni,
        op.second as int,
    ));
}

/// Law: when the reduction function computes a spec-level reduction, a
/// successful evaluation returns exactly the mathematical values of the
/// last `outputs` operations, last operation first.
pub proof fn lemma_execute_exact<Ins, Param, F: Fn(Ins, Param, Param) -> Param>(
    f: F,
    g: spec_fn(Ins, Param, Param) -> Param,
    prog: Seq<Opcode<Ins>>,
    inputs: Seq<Param>,
    ni: int,
    outputs: int,
    out: Seq<Param>,
)
    requires
        ni >= 0,
        prog_wf(prog, ni),
        0 <= outputs <= prog.len(),
        reduces_as(f, g),
        execute_post(f, prog, inputs, ni, outputs, out),
    ensures
        out.len() == outputs,
        forall|j: int|
            0 <= j < outputs ==> out[j] == eval_addr(
                prog,
                inputs,
                g,
                ni,
                ni + prog.len() - 1 - j,
            ),
{
    let memo = choose|memo: Seq<Option<Param>>|
        {
            &&& #[trigger] memo_ok(f, prog, inputs, ni, memo)
            &&& forall|j: int|
                0 <= j < outputs ==> (#[trigger] memo[prog.len() - 1 - j]) is Some && out[j]
                    == memo[prog.len() - 1 - j]->Some_0
        };
    assert forall|j: int| 0 <= j < outputs implies out[j] == eval_addr(
        prog,
        inputs,
        g,
        ni,
        ni + prog.len() - 1 - j,
    ) by {
        lemma_memo_matches_eval(f, g, prog, inputs, ni, memo, prog.len() - 1 - j);
    }
}

/// A reduction function is deterministic when its postcondition relates each
/// argument triple to at most one result; a pure reduction is one such.
pub open spec fn reduction_deterministic<Ins, Param, F: Fn(Ins, Param, Param) -> Param>(
    f: F,
) -> bool {
    forall|i: Ins, x: Param, y: Param, r1: Param, r2: Param|
        call_ensures(f, (i, x, y), r1) && call_ensures(f, (i, x, y), r2) ==> r1 == r2
}

/// Law: two memo tables consistent with the same deterministic reduction
/// agree on every slot both have filled.
pub proof fn lemma_memo_agree<Ins, Param, F: Fn(Ins, Param, Param) -> Param>(
    f: F,
    prog: Seq<Opcode<Ins>>,
    inputs: Seq<Param>,
    ni: int,
    m1: Seq<Option<Param>>,
    m2: Seq<Option<Param>>,
    k: int,
)
    requires
        ni >= 0,
        prog_wf(prog, ni),
        reduction_deterministic(f),
        memo_ok(f, prog, inputs, ni, m1),
        memo_ok(f, prog, inputs, ni, m2),
        0 <= k < prog.len(),
        m1[k] is Some,
        m2[k] is Some,
    ensures
        m1[k] == m2[k],
    decreases k,
{
    let op = prog[k];
    if op.first >= ni {
        lemma_memo_agree(f, prog, inputs, ni, m1, m2, op.first - ni);
    }
    if op.second >= ni {
        lemma_memo_agree(f, prog, inputs, ni, m1, m2, op.second - ni);
    }
    assert(addr_value(m1, inputs, ni, op.first as int) == addr_value(
        m2,
        inputs,
        ni,
        op.first as int,
    ));
    assert(addr_value(m1, inputs, ni, op.second as int) == addr_value(
        m2,
        inputs,
        ni,
        op.second as int,
    ));
}

/// Law: with a deterministic reduction, evaluation is a function of the
/// genome and its inputs — any two successful evaluations requesting the
/// same number of outputs return identical sequences.
pub proof fn lemma_execute_deterministic<Ins, Param, F: Fn(Ins, Param, Param) -> Param>(
    f: F,
    prog: Seq<Opcode<Ins>>,
    inputs: Seq<Param>,
    ni: int,
    outputs: int,
    out1: Seq<Param>,
    out2: Seq<Param>,
)
    requires
        ni >= 0,
        prog_wf(prog, ni),
        0 <= outputs <= prog.len(),
        reduction_deterministic(f),
        execute_post(f, prog, inputs, ni, outputs, out1),
        execute_post(f, prog, inputs, ni, outputs, out2),
    ensures
        out1 == out2,
{
    let m1 = choose|memo: Seq<Option<Param>>|
        {
            &&& #[trigger] memo_ok(f, prog, inputs, ni, memo)
            &&& forall|j: int|
                0 <= j < outputs ==> (#[trigger] memo[prog.len() - 1 - j]) is Some && out1[j]
                    == memo[prog.len() - 1 - j]->Some_0
        };
    let m2 = choose|memo: Seq<Option<Param>>|
        {
            &&& #[trigger] memo_ok(f, prog, inputs, ni, memo)
            &&& forall|j: int|
                0 <= j < outputs ==> (#[trigger] memo[prog.len() - 1 - j]) is Some && out2[j]
                    == memo[prog.len() - 1 - j]->Some_0
        };
    assert forall|j: int| 0 <= j < outputs implies out1[j] == out2[j] by {
        lemma_memo_agree(f, prog, inputs, ni, m1, m2, prog.len() - 1 - j);
    }
    assert(out1 =~= out2);
}

} // verus!
