//! Execution of hashing and secp256k1 instructions.

use vstd::prelude::*;

use crate::bytestr::content;
use crate::crypto::{
    ripemd160, ripemd160_of, secp_add, secp_add_of, secp_gen, secp_gen_of, secp_mul, secp_mul_of,
    secp_neg, secp_neg_of, sha256, sha256_of, sha512, sha512_of,
};
use crate::instr::{merge_regs, regs_of, InstructionSet};
use crate::library::LibSite;
use crate::isa::{DigestOp, ExecStep, Secp256k1Op};
use crate::layout::{IntLayout, Layout};
use crate::number::{Number, NumberModel};
use crate::reg::{Reg, Reg32, RegA, RegAR, RegBlockAR, RegR};
use crate::regs::{num, stored, with_num, CoreRegs, RegsModel};

verus! {

/// Unsigned number holding the given bytes.
pub open spec fn bytes_number(v: Seq<u8>) -> NumberModel {
    NumberModel { layout: Layout::Integer(IntLayout { signed: false, bytes: v.len() as u16 }), bytes: v }
}

/// Optional bytes as an optional unsigned number.
pub open spec fn opt_number(v: Option<Seq<u8>>) -> Option<NumberModel> {
    match v {
        Some(b) => Some(bytes_number(b)),
        None => None,
    }
}

/// Outcome of a hashing instruction: the digest goes to a general-purpose register, and an
/// unset string clears it and the status.
pub open spec fn digest_step(op: DigestOp, m: RegsModel) -> RegsModel {
    let (src, reg, dst) = match op {
        DigestOp::Ripemd(src, dst) => (src, RegR::R160, dst),
        DigestOp::Sha256(src, dst) => (src, RegR::R256, dst),
        DigestOp::Sha512(src, dst) => (src, RegR::R512, dst),
    };
    let r = RegAR::R(reg);
    match m.s[src as int] {
        Some(s) => {
            let d = match op {
                // The digest is kept little-endian, as numbers are.
                DigestOp::Ripemd(..) => ripemd160_of(content(s)).reverse(),
                DigestOp::Sha256(..) => sha256_of(content(s)),
                DigestOp::Sha512(..) => sha512_of(content(s)),
            };
            with_num(m, r, dst.to_reg32_spec(), stored(Some(bytes_number(d)), r))
        },
        None => RegsModel { st0: false, ..with_num(m, r, dst.to_reg32_spec(), None) },
    }
}

/// Copy of a byte vector in reverse order.
fn reverse_vec(v: &Vec<u8>) -> (r: Vec<u8>)
    ensures
        r@ == v@.reverse(),
{
    let n = v.len();
    let mut out: Vec<u8> = Vec::new();
    let mut i: usize = 0;
    while i < n
        invariant
            i <= n,
            n == v@.len(),
            out@ == Seq::new(i as nat, |k: int| v@[n - 1 - k]),
        decreases n - i,
    {
        out.push(v[n - 1 - i]);
        i = i + 1;
        assert(out@ =~= Seq::new(i as nat, |k: int| v@[n - 1 - k]));
    }
    assert(out@ =~= v@.reverse());
    out
}

impl InstructionSet for DigestOp {
    open spec fn src_set(&self) -> Set<Reg> {
        match *self {
            DigestOp::Ripemd(src, _) | DigestOp::Sha256(src, _) | DigestOp::Sha512(src, _) => set![Reg::S(src)],
        }
    }

    open spec fn dst_set(&self) -> Set<Reg> {
        match *self {
            DigestOp::Ripemd(_, dst) => set![Reg::R(RegR::R160, dst.to_reg32_spec())],
            DigestOp::Sha256(_, dst) => set![Reg::R(RegR::R256, dst.to_reg32_spec())],
            DigestOp::Sha512(_, dst) => set![Reg::R(RegR::R512, dst.to_reg32_spec())],
        }
    }

    fn src_regs(&self) -> (r: Vec<Reg>) {
        match *self {
            DigestOp::Ripemd(src, _) | DigestOp::Sha256(src, _) | DigestOp::Sha512(src, _) => regs_of(vec![Reg::S(src)]),
        }
    }

    fn dst_regs(&self) -> (r: Vec<Reg>) {
        match *self {
            DigestOp::Ripemd(_, dst) => regs_of(vec![Reg::R(RegR::R160, dst.to_reg32())]),
            DigestOp::Sha256(_, dst) => regs_of(vec![Reg::R(RegR::R256, dst.to_reg32())]),
            DigestOp::Sha512(_, dst) => regs_of(vec![Reg::R(RegR::R512, dst.to_reg32())]),
        }
    }

    fn regs(&self) -> (r: Vec<Reg>) {
        merge_regs(self.src_regs(), self.dst_regs())
    }

    /// Hash instructions weigh 100.
    fn complexity(&self) -> (r: u64)
        ensures
            r == 100,
    {
        100
    }

    open spec fn runs(&self, m: RegsModel) -> bool {
        true
    }

    fn runs_exec(&self, regs: &CoreRegs) -> (r: bool) {
        true
    }

    /// Executes the instruction (see [`digest_step`]).
    fn exec(&self, regs: &mut CoreRegs, _site: LibSite) -> (r: ExecStep)
        ensures
            final(regs).wf(),
            final(regs)@ == digest_step(*self, old(regs)@),
            r == ExecStep::Next,
    {
        let (src, reg, dst) = match *self {
            DigestOp::Ripemd(src, dst) => (src, RegR::R160, dst),
            DigestOp::Sha256(src, dst) => (src, RegR::R256, dst),
            DigestOp::Sha512(src, dst) => (src, RegR::R512, dst),
        };
        let idx = dst.to_reg32();
        match regs.get_s(src) {
            Some(s) => {
                let data = s.to_vec();
                let d = match *self {
                    DigestOp::Ripemd(..) => reverse_vec(&ripemd160(data.as_slice())),
                    DigestOp::Sha256(..) => sha256(data.as_slice()),
                    DigestOp::Sha512(..) => sha512(data.as_slice()),
                };
                let n = Number::from_slice(d.as_slice());
                regs.set_n(RegAR::R(reg), idx, Some(n));
            },
            None => {
                regs.set_n(RegAR::R(reg), idx, None);
                regs.set_st0(false);
            },
        }
        ExecStep::Next
    }
}

/// Register of 256 bits of a block.
pub open spec fn scalar_reg(block: RegBlockAR) -> RegAR {
    match block {
        RegBlockAR::A => RegAR::A(RegA::A256),
        RegBlockAR::R => RegAR::R(RegR::R256),
    }
}

/// Outcome of a secp256k1 instruction: the resulting point, or nothing, goes to an `r512`
/// register; the status is not touched.
pub open spec fn secp_step(op: Secp256k1Op, m: RegsModel) -> RegsModel {
    let r512 = RegAR::R(RegR::R512);
    let (dst, res) = match op {
        Secp256k1Op::Gen(src, dst) => (dst.to_reg32_spec(), match num(m, RegAR::R(RegR::R256), src) {
            // The scalar is kept little-endian and read big-endian.
            Some(x) => opt_number(secp_gen_of(x.bytes.reverse())),
            None => None,
        }),
        Secp256k1Op::Mul(block, scal, src, dst) => (dst, match (num(m, scalar_reg(block), scal), num(m, r512, src)) {
            (Some(s), Some(p)) => opt_number(secp_mul_of(s.bytes, p.bytes)),
            _ => None,
        }),
        Secp256k1Op::Add(src, srcdst) => (srcdst.to_reg32_spec(), match (num(m, r512, src), num(m, r512, srcdst.to_reg32_spec())) {
            (Some(p), Some(q)) => opt_number(secp_add_of(p.bytes, q.bytes)),
            _ => None,
        }),
        Secp256k1Op::Neg(src, dst) => (dst.to_reg32_spec(), match num(m, r512, src) {
            Some(p) => opt_number(secp_neg_of(p.bytes)),
            None => None,
        }),
    };
    with_num(m, r512, dst, stored(res, r512))
}

/// Number holding optional point bytes.
fn point_number(v: Option<Vec<u8>>) -> (r: Option<Number>)
    requires
        v matches Some(b) ==> b@.len() == 64,
    ensures
        r matches Some(n) ==> n.wf(),
        crate::number::opt_model(r) == opt_number(v.deep_view()),
{
    match v {
        Some(b) => {
            assert(b.deep_view() =~= b@);
            Some(Number::from_slice(b.as_slice()))
        },
        None => None,
    }
}

/// Copy of 32 bytes into an array.
fn to_array32(v: &Vec<u8>) -> (r: [u8; 32])
    requires
        v@.len() == 32,
    ensures
        r@ == v@,
{
    let mut a = [0u8; 32];
    let mut i: usize = 0;
    while i < 32
        invariant
            i <= 32,
            v@.len() == 32,
            a@.len() == 32,
            forall|k: int| 0 <= k < i ==> #[trigger] a@[k] == v@[k],
        decreases 32 - i,
    {
        a[i] = v[i];
        i = i + 1;
    }
    assert(a@ =~= v@);
    a
}

impl InstructionSet for Secp256k1Op {
    open spec fn src_set(&self) -> Set<Reg> {
        match *self {
            Secp256k1Op::Gen(src, _) => set![Reg::R(RegR::R256, src)],
            Secp256k1Op::Mul(RegBlockAR::A, scal, src, _) => set![Reg::A(RegA::A256, scal), Reg::R(RegR::R512, src)],
            Secp256k1Op::Mul(RegBlockAR::R, scal, src, _) => set![Reg::R(RegR::R256, scal), Reg::R(RegR::R512, src)],
            Secp256k1Op::Add(src, srcdst) => set![Reg::R(RegR::R512, src), Reg::R(RegR::R512, srcdst.to_reg32_spec())],
            Secp256k1Op::Neg(src, _) => set![Reg::R(RegR::R512, src)],
        }
    }

    open spec fn dst_set(&self) -> Set<Reg> {
        match *self {
            Secp256k1Op::Gen(_, dst) | Secp256k1Op::Add(_, dst) | Secp256k1Op::Neg(_, dst) => set![Reg::R(RegR::R512, dst.to_reg32_spec())],
            Secp256k1Op::Mul(_, _, _, dst) => set![Reg::R(RegR::R512, dst)],
        }
    }

    fn src_regs(&self) -> (r: Vec<Reg>) {
        match *self {
            Secp256k1Op::Gen(src, _) => regs_of(vec![Reg::R(RegR::R256, src)]),
            Secp256k1Op::Mul(RegBlockAR::A, scal, src, _) => regs_of(vec![Reg::A(RegA::A256, scal), Reg::R(RegR::R512, src)]),
            Secp256k1Op::Mul(RegBlockAR::R, scal, src, _) => regs_of(vec![Reg::R(RegR::R256, scal), Reg::R(RegR::R512, src)]),
            Secp256k1Op::Add(src, srcdst) => regs_of(vec![Reg::R(RegR::R512, src), Reg::R(RegR::R512, srcdst.to_reg32())]),
            Secp256k1Op::Neg(src, _) => regs_of(vec![Reg::R(RegR::R512, src)]),
        }
    }

    fn dst_regs(&self) -> (r: Vec<Reg>) {
        match *self {
            Secp256k1Op::Gen(_, dst) | Secp256k1Op::Add(_, dst) | Secp256k1Op::Neg(_, dst) => regs_of(vec![Reg::R(RegR::R512, dst.to_reg32())]),
            Secp256k1Op::Mul(_, _, _, dst) => regs_of(vec![Reg::R(RegR::R512, dst)]),
        }
    }

    fn regs(&self) -> (r: Vec<Reg>) {
        merge_regs(self.src_regs(), self.dst_regs())
    }

    /// Curve instructions weigh 1000.
    fn complexity(&self) -> (r: u64)
        ensures
            r == 1000,
    {
        1000
    }

    open spec fn runs(&self, m: RegsModel) -> bool {
        true
    }

    fn runs_exec(&self, regs: &CoreRegs) -> (r: bool) {
        true
    }

    /// Executes the instruction (see [`secp_step`]).
    fn exec(&self, regs: &mut CoreRegs, _site: LibSite) -> (r: ExecStep)
        ensures
            final(regs).wf(),
            final(regs)@ == secp_step(*self, old(regs)@),
            r == ExecStep::Next,
    {
        let r512 = RegAR::R(RegR::R512);
        let (dst, res): (Reg32, Option<Vec<u8>>) = match *self {
            Secp256k1Op::Gen(src, dst) => (dst.to_reg32(), match regs.get_n(RegAR::R(RegR::R256), src) {
                Some(x) => secp_gen(reverse_vec(&x.to_vec()).as_slice()),
                None => None,
            }),
            Secp256k1Op::Mul(block, scal, src, dst) => {
                let sreg = match block {
                    RegBlockAR::A => RegAR::A(RegA::A256),
                    RegBlockAR::R => RegAR::R(RegR::R256),
                };
                (dst, match (regs.get_n(sreg, scal), regs.get_n(r512, src)) {
                    (Some(s), Some(p)) => secp_mul(&to_array32(&s.to_vec()), p.to_vec().as_slice()),
                    _ => None,
                })
            },
            Secp256k1Op::Add(src, srcdst) => {
                let d = srcdst.to_reg32();
                (d, match (regs.get_n(r512, src), regs.get_n(r512, d)) {
                    (Some(p), Some(q)) => secp_add(p.to_vec().as_slice(), q.to_vec().as_slice()),
                    _ => None,
                })
            },
            Secp256k1Op::Neg(src, dst) => (dst.to_reg32(), match regs.get_n(r512, src) {
                Some(p) => secp_neg(p.to_vec().as_slice()),
                None => None,
            }),
        };
        let n = point_number(res);
        regs.set_n(r512, dst, n);
        ExecStep::Next
    }
}

} // verus!
