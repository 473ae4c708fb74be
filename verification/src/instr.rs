//! The instruction set: the trait every instruction implements and the complete instruction
//! enumeration, which dispatches to the instruction groups.

use vstd::prelude::*;

use crate::exec::control_step;
use crate::exec_alu::{arith_op_runs, arith_step, bitwise_op_runs, bitwise_step};
use crate::exec_bytes::{bytes_op_runs, bytes_step};
use crate::exec::{cmp_op_runs, cmp_step, move_step, put_op_wf, put_step};
use crate::exec_crypto::{digest_step, secp_step};
use crate::isa::{
    ArithmeticOp, BitwiseOp, BytesOp, CmpOp, ControlFlowOp, DigestOp, ExecStep, MoveOp, PutOp,
    Secp256k1Op,
};
use crate::library::LibSite;
use crate::op_types::ReservedInstr;
use crate::reg::Reg;
use crate::regs::{CoreRegs, RegsModel};

verus! {

/// The registers of a list, each once.
pub fn reg_set(items: Vec<Reg>) -> (r: Vec<Reg>)
    ensures
        r@.to_set() == items@.to_set(),
        r@.no_duplicates(),
{
    let mut out: Vec<Reg> = Vec::new();
    let mut i: usize = 0;
    while i < items.len()
        invariant
            i <= items@.len(),
            forall|a: Reg| out@.contains(a) <==> items@.subrange(0, i as int).contains(a),
            out@.no_duplicates(),
        decreases items.len() - i,
    {
        let x = items[i];
        let mut found = false;
        let mut j: usize = 0;
        while j < out.len()
            invariant
                j <= out@.len(),
                found <==> exists|k: int| 0 <= k < j && out@[k] == x,
            decreases out.len() - j,
        {
            if out[j] == x {
                found = true;
            }
            j += 1;
        }
        let ghost before = out@;
        let ghost pre = items@.subrange(0, i as int);
        let ghost post = items@.subrange(0, i + 1);
        proof {
            assert(post =~= pre.push(x));
            assert forall|a: Reg| post.contains(a) <==> (pre.contains(a) || a == x) by {
                if post.contains(a) {
                    let k = choose|k: int| 0 <= k < post.len() && post[k] == a;
                    if k < pre.len() {
                        assert(pre[k] == a);
                    }
                }
                if pre.contains(a) {
                    let k = choose|k: int| 0 <= k < pre.len() && pre[k] == a;
                    assert(post[k] == a);
                }
                if a == x {
                    assert(post[pre.len() as int] == a);
                }
            }
        }
        if !found {
            out.push(x);
            proof {
                assert forall|a: Reg| out@.contains(a) <==> (before.contains(a) || a == x) by {
                    if out@.contains(a) {
                        let k = choose|k: int| 0 <= k < out@.len() && out@[k] == a;
                        if k < before.len() {
                            assert(before[k] == a);
                        }
                    }
                    if before.contains(a) {
                        let k = choose|k: int| 0 <= k < before.len() && before[k] == a;
                        assert(out@[k] == a);
                    }
                    if a == x {
                        assert(out@[before.len() as int] == a);
                    }
                }
            }
        } else {
            proof {
                assert(before.contains(x));
            }
        }
        proof {
            assert forall|a: Reg| out@.contains(a) <==> post.contains(a) by {
                assert(before.contains(a) <==> pre.contains(a));
            }
        }
        i += 1;
        assert(items@.subrange(0, i as int) == post);
    }
    assert(items@.subrange(0, items@.len() as int) =~= items@);
    assert(out@.to_set() =~= items@.to_set());
    out
}

/// No register.
pub fn no_regs() -> (r: Vec<Reg>)
    ensures
        r@ == Seq::<Reg>::empty(),
        r@.to_set() == Set::<Reg>::empty(),
        r@.no_duplicates(),
{
    let r: Vec<Reg> = Vec::new();
    assert(r@.to_set() =~= Set::<Reg>::empty());
    r
}

/// The registers of a list of one to four, each once.
pub fn regs_of(items: Vec<Reg>) -> (r: Vec<Reg>)
    ensures
        r@.to_set() == items@.to_set(),
        r@.no_duplicates(),
{
    reg_set(items)
}

/// The registers of two lists, each once.
pub fn merge_regs(a: Vec<Reg>, b: Vec<Reg>) -> (r: Vec<Reg>)
    ensures
        r@.to_set() == a@.to_set() + b@.to_set(),
        r@.no_duplicates(),
{
    let mut all = a;
    let mut more = b;
    let ghost x = all@;
    let ghost y = more@;
    all.append(&mut more);
    proof {
        assert forall|v: Reg| (x + y).contains(v) <==> (x.contains(v) || y.contains(v)) by {
            if (x + y).contains(v) {
                let k = choose|k: int| 0 <= k < (x + y).len() && (x + y)[k] == v;
                if k < x.len() {
                    assert(x[k] == v);
                } else {
                    assert(y[k - x.len()] == v);
                }
            }
            if x.contains(v) {
                let k = choose|k: int| 0 <= k < x.len() && x[k] == v;
                assert((x + y)[k] == v);
            }
            if y.contains(v) {
                let k = choose|k: int| 0 <= k < y.len() && y[k] == v;
                assert((x + y)[x.len() + k] == v);
            }
        }
        assert((x + y).to_set() =~= x.to_set() + y.to_set());
    }
    reg_set(all)
}

/// An instruction that runs on the core registers.
pub trait InstructionSet: Sized {
    /// Whether the instruction runs on registers `m` (the registers it may be given).
    spec fn runs(&self, m: RegsModel) -> bool;

    /// Computational complexity of the instruction: 1 unless the instruction group says
    /// otherwise.
    fn complexity(&self) -> (r: u64)
        default_ensures
            r == 1,
    {
        1
    }

    /// Registers whose values the instruction reads.
    spec fn src_set(&self) -> Set<Reg>;

    /// Registers the instruction writes.
    spec fn dst_set(&self) -> Set<Reg>;

    /// Registers whose values the instruction reads, each once.
    fn src_regs(&self) -> (r: Vec<Reg>)
        ensures
            r@.to_set() == self.src_set(),
            r@.no_duplicates(),
    ;

    /// Registers the instruction writes, each once.
    fn dst_regs(&self) -> (r: Vec<Reg>)
        ensures
            r@.to_set() == self.dst_set(),
            r@.no_duplicates(),
    ;

    /// Registers the instruction reads or writes, each once.
    fn regs(&self) -> (r: Vec<Reg>)
        ensures
            r@.to_set() == self.src_set() + self.dst_set(),
            r@.no_duplicates(),
    ;

    /// Whether the instruction runs on the registers (see `runs`), checked at run time.
    fn runs_exec(&self, regs: &CoreRegs) -> (r: bool)
        requires
            regs.wf(),
        ensures
            r == self.runs(regs@),
    ;

    /// Executes the instruction at `site`, taking all registers as input and output, and says
    /// where the program goes next.
    fn exec(&self, regs: &mut CoreRegs, site: LibSite) -> (r: ExecStep)
        requires
            old(regs).wf(),
            self.runs(old(regs)@),
        ensures
            final(regs).wf(),
    ;
}

/// Instruction that does nothing.
#[derive(Clone, Copy, PartialEq, Eq, Structural, Debug, Hash)]
pub enum NOp {
    /// No operation.
    NOp,
}

impl InstructionSet for NOp {
    open spec fn runs(&self, m: RegsModel) -> bool {
        true
    }

    fn runs_exec(&self, regs: &CoreRegs) -> (r: bool) {
        true
    }

    open spec fn src_set(&self) -> Set<Reg> {
        Set::empty()
    }

    open spec fn dst_set(&self) -> Set<Reg> {
        Set::empty()
    }

    fn src_regs(&self) -> (r: Vec<Reg>) {
        no_regs()
    }

    fn dst_regs(&self) -> (r: Vec<Reg>) {
        no_regs()
    }

    fn regs(&self) -> (r: Vec<Reg>) {
        merge_regs(self.src_regs(), self.dst_regs())
    }

    /// Does nothing and goes on with the next instruction.
    fn exec(&self, regs: &mut CoreRegs, _site: LibSite) -> (r: ExecStep)
        ensures
            final(regs)@ == old(regs)@,
            r == ExecStep::Next,
    {
        ExecStep::Next
    }
}

impl InstructionSet for ReservedInstr {
    open spec fn runs(&self, m: RegsModel) -> bool {
        true
    }

    fn runs_exec(&self, regs: &CoreRegs) -> (r: bool) {
        true
    }

    open spec fn src_set(&self) -> Set<Reg> {
        Set::empty()
    }

    open spec fn dst_set(&self) -> Set<Reg> {
        Set::empty()
    }

    fn src_regs(&self) -> (r: Vec<Reg>) {
        no_regs()
    }

    fn dst_regs(&self) -> (r: Vec<Reg>) {
        no_regs()
    }

    fn regs(&self) -> (r: Vec<Reg>) {
        merge_regs(self.src_regs(), self.dst_regs())
    }

    /// A reserved instruction fails the program, as [`ControlFlowOp::Fail`] does.
    fn exec(&self, regs: &mut CoreRegs, site: LibSite) -> (r: ExecStep)
        ensures
            (final(regs)@, r) == control_step(ControlFlowOp::Fail, old(regs)@, site),
    {
        ControlFlowOp::Fail.exec(regs, site)
    }
}

/// Complete instruction set: the instruction groups of the core and the extension instructions
/// of a host environment.
#[derive(Debug)]
pub enum Instr<Extension: InstructionSet = NOp> {
    /// Control-flow instructions.
    ControlFlow(ControlFlowOp),
    /// Instructions setting register values.
    Put(PutOp),
    /// Instructions moving and swapping register values.
    Move(MoveOp),
    /// Instructions comparing register values.
    Cmp(CmpOp),
    /// Arithmetic instructions.
    Arithmetic(ArithmeticOp),
    /// Bit operations and boolean algebra.
    Bitwise(BitwiseOp),
    /// Operations on byte strings.
    Bytes(BytesOp),
    /// Cryptographic hash functions.
    Digest(DigestOp),
    /// Operations on the Secp256k1 elliptic curve.
    Secp256k1(Secp256k1Op),
    /// Extension instructions provided by a host environment.
    ExtensionCodes(Extension),
    /// Reserved instruction, which fails the program.
    ReservedInstruction(ReservedInstr),
    /// Instruction that does nothing.
    Nop,
}

/// Whether an instruction runs on registers `m`: the condition of its group.
pub open spec fn instr_runs<E: InstructionSet>(i: Instr<E>, m: RegsModel) -> bool {
    match i {
        Instr::ControlFlow(op) => op.runs(m),
        Instr::Put(op) => op.runs(m),
        Instr::Move(op) => op.runs(m),
        Instr::Cmp(op) => op.runs(m),
        Instr::Arithmetic(op) => op.runs(m),
        Instr::Bitwise(op) => op.runs(m),
        Instr::Bytes(op) => op.runs(m),
        Instr::Digest(op) => op.runs(m),
        Instr::Secp256k1(op) => op.runs(m),
        Instr::ExtensionCodes(op) => op.runs(m),
        Instr::ReservedInstruction(op) => op.runs(m),
        Instr::Nop => true,
    }
}

/// Registers after an instruction of the core and where the program goes next; `None` for an
/// extension instruction, whose outcome is its own.
pub open spec fn instr_step<E: InstructionSet>(i: Instr<E>, m: RegsModel, site: LibSite) -> Option<
    (RegsModel, ExecStep),
> {
    match i {
        Instr::ControlFlow(op) => Some(control_step(op, m, site)),
        Instr::Put(op) => Some((put_step(op, m), ExecStep::Next)),
        Instr::Move(op) => Some((move_step(op, m), ExecStep::Next)),
        Instr::Cmp(op) => Some((cmp_step(op, m), ExecStep::Next)),
        Instr::Arithmetic(op) => Some((arith_step(op, m), ExecStep::Next)),
        Instr::Bitwise(op) => Some((bitwise_step(op, m), ExecStep::Next)),
        Instr::Bytes(op) => Some((bytes_step(op, m), ExecStep::Next)),
        Instr::Digest(op) => Some((digest_step(op, m), ExecStep::Next)),
        Instr::Secp256k1(op) => Some((secp_step(op, m), ExecStep::Next)),
        Instr::ExtensionCodes(_) => None,
        Instr::ReservedInstruction(_) => Some(control_step(ControlFlowOp::Fail, m, site)),
        Instr::Nop => Some((m, ExecStep::Next)),
    }
}

impl<E: InstructionSet> InstructionSet for Instr<E> {
    open spec fn runs(&self, m: RegsModel) -> bool {
        instr_runs(*self, m)
    }

    fn runs_exec(&self, regs: &CoreRegs) -> (r: bool) {
        match self {
            Instr::ControlFlow(op) => op.runs_exec(regs),
            Instr::Put(op) => op.runs_exec(regs),
            Instr::Move(op) => op.runs_exec(regs),
            Instr::Cmp(op) => op.runs_exec(regs),
            Instr::Arithmetic(op) => op.runs_exec(regs),
            Instr::Bitwise(op) => op.runs_exec(regs),
            Instr::Bytes(op) => op.runs_exec(regs),
            Instr::Digest(op) => op.runs_exec(regs),
            Instr::Secp256k1(op) => op.runs_exec(regs),
            Instr::ExtensionCodes(op) => op.runs_exec(regs),
            Instr::ReservedInstruction(op) => op.runs_exec(regs),
            Instr::Nop => true,
        }
    }

    open spec fn src_set(&self) -> Set<Reg> {
        match *self {
            Instr::ControlFlow(op) => op.src_set(),
            Instr::Put(op) => op.src_set(),
            Instr::Move(op) => op.src_set(),
            Instr::Cmp(op) => op.src_set(),
            Instr::Arithmetic(op) => op.src_set(),
            Instr::Bitwise(op) => op.src_set(),
            Instr::Bytes(op) => op.src_set(),
            Instr::Digest(op) => op.src_set(),
            Instr::Secp256k1(op) => op.src_set(),
            Instr::ExtensionCodes(op) => op.src_set(),
            Instr::ReservedInstruction(op) => op.src_set(),
            Instr::Nop => Set::empty(),
        }
    }

    open spec fn dst_set(&self) -> Set<Reg> {
        match *self {
            Instr::ControlFlow(op) => op.dst_set(),
            Instr::Put(op) => op.dst_set(),
            Instr::Move(op) => op.dst_set(),
            Instr::Cmp(op) => op.dst_set(),
            Instr::Arithmetic(op) => op.dst_set(),
            Instr::Bitwise(op) => op.dst_set(),
            Instr::Bytes(op) => op.dst_set(),
            Instr::Digest(op) => op.dst_set(),
            Instr::Secp256k1(op) => op.dst_set(),
            Instr::ExtensionCodes(op) => op.dst_set(),
            Instr::ReservedInstruction(op) => op.dst_set(),
            Instr::Nop => Set::empty(),
        }
    }

    fn src_regs(&self) -> (r: Vec<Reg>) {
        match self {
            Instr::ControlFlow(op) => op.src_regs(),
            Instr::Put(op) => op.src_regs(),
            Instr::Move(op) => op.src_regs(),
            Instr::Cmp(op) => op.src_regs(),
            Instr::Arithmetic(op) => op.src_regs(),
            Instr::Bitwise(op) => op.src_regs(),
            Instr::Bytes(op) => op.src_regs(),
            Instr::Digest(op) => op.src_regs(),
            Instr::Secp256k1(op) => op.src_regs(),
            Instr::ExtensionCodes(op) => op.src_regs(),
            Instr::ReservedInstruction(op) => op.src_regs(),
            Instr::Nop => no_regs(),
        }
    }

    fn dst_regs(&self) -> (r: Vec<Reg>) {
        match self {
            Instr::ControlFlow(op) => op.dst_regs(),
            Instr::Put(op) => op.dst_regs(),
            Instr::Move(op) => op.dst_regs(),
            Instr::Cmp(op) => op.dst_regs(),
            Instr::Arithmetic(op) => op.dst_regs(),
            Instr::Bitwise(op) => op.dst_regs(),
            Instr::Bytes(op) => op.dst_regs(),
            Instr::Digest(op) => op.dst_regs(),
            Instr::Secp256k1(op) => op.dst_regs(),
            Instr::ExtensionCodes(op) => op.dst_regs(),
            Instr::ReservedInstruction(op) => op.dst_regs(),
            Instr::Nop => no_regs(),
        }
    }

    fn regs(&self) -> (r: Vec<Reg>) {
        merge_regs(self.src_regs(), self.dst_regs())
    }

    /// Executes the instruction by its group (see [`instr_step`]).
    fn exec(&self, regs: &mut CoreRegs, site: LibSite) -> (r: ExecStep)
        ensures
            instr_step(*self, old(regs)@, site) matches Some(out) ==> (final(regs)@, r) == out,
    {
        match self {
            Instr::ControlFlow(op) => op.exec(regs, site),
            Instr::Put(op) => op.exec(regs, site),
            Instr::Move(op) => op.exec(regs, site),
            Instr::Cmp(op) => op.exec(regs, site),
            Instr::Arithmetic(op) => op.exec(regs, site),
            Instr::Bitwise(op) => op.exec(regs, site),
            Instr::Bytes(op) => op.exec(regs, site),
            Instr::Digest(op) => op.exec(regs, site),
            Instr::Secp256k1(op) => op.exec(regs, site),
            Instr::ExtensionCodes(op) => op.exec(regs, site),
            Instr::ReservedInstruction(op) => op.exec(regs, site),
            Instr::Nop => ExecStep::Next,
        }
    }
}

} // verus!
