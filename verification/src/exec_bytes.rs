//! Execution of byte string instructions.

use vstd::prelude::*;

use crate::bytestr::{content, padded, ByteStr, ByteStrModel, STR_CAP};
use crate::instr::{merge_regs, no_regs, regs_of, InstructionSet};
use crate::library::LibSite;
use crate::isa::{BytesOp, ExecStep, ExtendFlag};
use crate::layout::{IntLayout, Layout};
use crate::num::{le_bytes, le_val, pow256};
use crate::number::{Number, NumberModel};
use crate::reg::{Reg, Reg32, RegA, RegAR};
use crate::regs::{num, stored, with_num, with_str, CoreRegs, RegsModel};

verus! {

broadcast use crate::num::lemma_le_bytes_len;

/// Unsigned value of an arithmetic register, if set.
pub open spec fn a_val(m: RegsModel, reg: RegA, idx: Reg32) -> Option<nat> {
    match num(m, RegAR::A(reg), idx) {
        Some(x) => Some(le_val(x.bytes)),
        None => None,
    }
}

/// Unsigned number of `n` bytes holding `v`.
pub open spec fn uint_model(v: nat, n: u16) -> NumberModel {
    NumberModel { layout: Layout::Integer(IntLayout { signed: false, bytes: n }), bytes: le_bytes(v as int, n as nat) }
}

/// Registers after a failed string operation that clears a numeric register.
pub open spec fn fail_num(m: RegsModel, reg: RegAR, idx: Reg32) -> RegsModel {
    with_num(RegsModel { st0: false, ..m }, reg, idx, None)
}

/// Registers after a failed string operation that clears a string register.
pub open spec fn fail_str(m: RegsModel, i: u8) -> RegsModel {
    with_str(RegsModel { st0: false, ..m }, i, None)
}

/// Empty string with a zeroed buffer.
pub open spec fn empty_str() -> ByteStrModel {
    ByteStrModel { len: 0, buf: padded(Seq::empty()) }
}

/// A string with `start..end` set to `val` and the length raised to `end` when shorter.
pub open spec fn filled(s: ByteStrModel, start: nat, end: nat, val: u8) -> ByteStrModel {
    ByteStrModel {
        len: if end > s.len { end } else { s.len },
        buf: Seq::new(STR_CAP as nat, |i: int| if start <= i < end { val } else { s.buf[i] }),
    }
}

/// A string with its bytes in reverse order; the buffer beyond its length is kept.
pub open spec fn reversed(s: ByteStrModel) -> ByteStrModel {
    ByteStrModel {
        len: s.len,
        buf: Seq::new(STR_CAP as nat, |i: int| if i < s.len { s.buf[s.len - 1 - i] } else { s.buf[i] }),
    }
}

/// Number of bytes of `s` equal to `v`.
pub open spec fn count_byte(s: Seq<u8>, v: u8) -> nat
    decreases s.len(),
{
    if s.len() == 0 {
        0
    } else {
        count_byte(s.drop_last(), v) + if s.last() == v { 1nat } else { 0nat }
    }
}

/// Number of positions below `k` where `b` occurs in `a`.
pub open spec fn occurrences_below(a: Seq<u8>, b: Seq<u8>, k: nat) -> nat
    decreases k,
{
    if k == 0 {
        0
    } else {
        occurrences_below(a, b, (k - 1) as nat) + if a.subrange(k - 1, k - 1 + b.len()) == b {
            1nat
        } else {
            0nat
        }
    }
}

/// Number of occurrences (overlapping ones included) of a non-empty `b` in `a`.
pub open spec fn occurrences(a: Seq<u8>, b: Seq<u8>) -> nat {
    if b.len() > a.len() {
        0
    } else {
        occurrences_below(a, b, (a.len() - b.len() + 1) as nat)
    }
}

/// First position at or after `p`, below `size`, where the agreement of `a` and `b` is not `v`;
/// `size` when there is none.
pub open spec fn skip_eq(a: Seq<u8>, b: Seq<u8>, size: nat, p: nat, v: bool) -> nat
    decreases size - p,
{
    if p >= size {
        size
    } else if (a[p as int] == b[p as int]) == v {
        skip_eq(a, b, size, p + 1, v)
    } else {
        p
    }
}

/// Position after a run of agreement `v` starting at `p` and the position that ends it.
pub open spec fn past_run(a: Seq<u8>, b: Seq<u8>, size: nat, p: nat, v: bool) -> nat {
    let q = skip_eq(a, b, size, p, v);
    if q < size {
        q + 1
    } else {
        q
    }
}

/// Position reached from `p` after passing `n` times a run of disagreement and then a run of
/// agreement, each with the position that ends it.
pub open spec fn fragment_start(a: Seq<u8>, b: Seq<u8>, size: nat, p: nat, n: nat) -> nat
    decreases n,
{
    if n == 0 {
        p
    } else {
        fragment_start(a, b, size, past_run(a, b, size, past_run(a, b, size, p, false), true), (n - 1) as nat)
    }
}

/// Offset and length of fragment `n` where two strings agree byte by byte, counted from the
/// first agreeing position; `None` when there is no such fragment.
pub open spec fn common_fragment(a: Seq<u8>, b: Seq<u8>, n: nat) -> Option<(nat, nat)> {
    let size = if a.len() < b.len() { a.len() } else { b.len() };
    let p = fragment_start(a, b, size, skip_eq(a, b, size, 0, false), n);
    if p < size {
        Some((p, (skip_eq(a, b, size, p + 1, true) - p) as nat))
    } else {
        None
    }
}

/// Whether a string instruction runs without failing: the filled range must not be reversed,
/// a searched fragment must not be empty, and injecting or joining a non-empty string is left
/// out, as the instruction then writes outside the string.
pub open spec fn bytes_op_runs(op: BytesOp, m: RegsModel) -> bool {
    match op {
        BytesOp::Fill(_, o1, o2, _, _) => match (a_val(m, RegA::A16, o1), a_val(m, RegA::A16, o2)) {
            (Some(a), Some(b)) => a <= b,
            _ => true,
        },
        BytesOp::Find(r1, r2) => match (m.s[r1 as int], m.s[r2 as int]) {
            (Some(_), Some(t)) => t.len > 0,
            _ => true,
        },
        BytesOp::Inj(src, dst, index, offset) => m.s[src as int] is None || num(m, dst, index) is None
            || a_val(m, RegA::A16, offset) is None,
        BytesOp::Join(s1, s2, _) => match (m.s[s1 as int], m.s[s2 as int]) {
            (Some(a), Some(b)) => a.len + b.len > STR_CAP || b.len == 0,
            _ => true,
        },
        BytesOp::Splt(..) | BytesOp::Ins(..) | BytesOp::Del(..) => false,
        BytesOp::Put(_, s, _) => s.wf(),
        _ => true,
    }
}

/// Outcome of a string instruction.
pub open spec fn bytes_step(op: BytesOp, m: RegsModel) -> RegsModel {
    let a16 = RegAR::A(RegA::A16);
    match op {
        BytesOp::Put(i, s, flag) => {
            let n = with_str(m, i, Some(s@));
            if flag {
                RegsModel { st0: false, ..n }
            } else {
                n
            }
        },
        BytesOp::Mov(r1, r2) => with_str(with_str(m, r1, None), r2, m.s[r1 as int]),
        BytesOp::Swp(r1, r2) => with_str(with_str(m, r1, m.s[r2 as int]), r2, m.s[r1 as int]),
        BytesOp::Fill(reg, o1, o2, v, flag) => match (
            a_val(m, RegA::A16, o1),
            a_val(m, RegA::A16, o2),
            a_val(m, RegA::A8, v),
        ) {
            (Some(a), Some(b), Some(x)) => {
                let s = match m.s[reg as int] {
                    Some(s) => s,
                    None => empty_str(),
                };
                let n = with_str(m, reg, Some(s));
                if s.len <= b && flag == ExtendFlag::Fail {
                    RegsModel { st0: false, ..n }
                } else {
                    with_str(n, reg, Some(filled(s, a, b, x as u8)))
                }
            },
            _ => RegsModel { st0: false, ..m },
        },
        BytesOp::Len(src, reg, dst) => match m.s[src as int] {
            Some(s) => if s.len < pow256(reg.spec_bytes() as nat) {
                with_num(m, RegAR::A(reg), dst, stored(Some(uint_model(s.len, 4)), RegAR::A(reg)))
            } else {
                fail_num(m, RegAR::A(reg), dst)
            },
            None => fail_num(m, RegAR::A(reg), dst),
        },
        BytesOp::Cnt(src, byte, dst) => match (a_val(m, RegA::A8, byte), m.s[src as int]) {
            (Some(v), Some(s)) => with_num(
                m,
                a16,
                dst,
                stored(Some(uint_model(count_byte(content(s), v as u8), 4)), a16),
            ),
            _ => fail_num(m, a16, dst),
        },
        BytesOp::Eq(r1, r2) => RegsModel {
            st0: match (m.s[r1 as int], m.s[r2 as int]) {
                (Some(a), Some(b)) => a == b,
                (None, None) => true,
                _ => false,
            },
            ..m
        },
        BytesOp::Find(r1, r2) => match (m.s[r1 as int], m.s[r2 as int]) {
            (Some(a), Some(b)) => with_num(
                m,
                a16,
                Reg32::Reg0,
                stored(Some(uint_model(occurrences(content(a), content(b)), 2)), a16),
            ),
            _ => fail_num(m, a16, Reg32::Reg0),
        },
        BytesOp::Rev(r1, r2) => match m.s[r1 as int] {
            Some(s) => with_str(m, r2, Some(reversed(s))),
            None => fail_str(m, r2),
        },
        BytesOp::Con(r1, r2, n, off, len) => match (m.s[r1 as int], m.s[r2 as int], a_val(m, RegA::A16, n)) {
            (Some(a), Some(b), Some(k)) => match common_fragment(content(a), content(b), k) {
                Some((o, l)) => with_num(
                    with_num(m, a16, off, Some(uint_model(o, 2))),
                    a16,
                    len,
                    Some(uint_model(l, 2)),
                ),
                None => with_num(fail_num(m, a16, off), a16, len, None),
            },
            _ => with_num(fail_num(m, a16, off), a16, len, None),
        },
        BytesOp::Extr(src, dst, index, offset) => match (m.s[src as int], a_val(m, RegA::A16, offset)) {
            (Some(s), Some(o)) => if o < s.len {
                let end: nat = o + dst.spec_bytes() as nat;
                let (e, n): (nat, RegsModel) = if end < s.len {
                    (end, m)
                } else {
                    (s.len, RegsModel { st0: false, ..m })
                };
                let v = NumberModel {
                    layout: Layout::Integer(IntLayout { signed: false, bytes: (e - o) as u16 }),
                    bytes: content(s).subrange(o as int, e as int),
                };
                with_num(n, dst, index, stored(Some(v), dst))
            } else {
                fail_num(m, dst, index)
            },
            _ => fail_num(m, dst, index),
        },
        BytesOp::Inj(_, dst, index, _) => fail_num(m, dst, index),
        BytesOp::Join(s1, s2, dst) => match (m.s[s1 as int], m.s[s2 as int]) {
            (Some(a), Some(b)) => if a.len + b.len > STR_CAP {
                fail_str(m, dst)
            } else {
                with_str(m, dst, Some(ByteStrModel { len: a.len, buf: padded(content(a)) }))
            },
            _ => fail_str(m, dst),
        },
        _ => m,
    }
}

/// Unsigned value of an `a8` or `a16` register, if set.
fn a_small(regs: &CoreRegs, reg: RegA, idx: Reg32) -> (r: Option<u16>)
    requires
        regs.wf(),
        reg == RegA::A8 || reg == RegA::A16,
    ensures
        r is Some <==> a_val(regs@, reg, idx) is Some,
        r matches Some(v) ==> a_val(regs@, reg, idx) == Some(v as nat),
        reg == RegA::A8 ==> (r matches Some(v) ==> v < 256),
{
    let r = regs.a_u16(reg, idx);
    let g = regs.get_n(RegAR::A(reg), idx);
    proof {
        if reg == RegA::A8 {
            if let Some(x) = g {
                crate::num::lemma_le_val_bound(x@.bytes);
                crate::num::lemma_pow256_values();
            }
        }
    }
    r
}

/// Writes a small count into an arithmetic register as an unsigned number of `n` bytes.
fn put_count(regs: &mut CoreRegs, reg: RegA, idx: Reg32, v: u16, n: u16)
    requires
        old(regs).wf(),
        n == 2 || n == 4,
    ensures
        final(regs).wf(),
        final(regs)@ == with_num(old(regs)@, RegAR::A(reg), idx, stored(Some(uint_model(v as nat, n)), RegAR::A(reg))),
{
    let x = if n == 2 {
        Number::from_u16(v)
    } else {
        Number::from_u32(v as u32)
    };
    assert(x@ == uint_model(v as nat, n));
    regs.set_n(RegAR::A(reg), idx, Some(x));
}

/// Number of bytes equal to `v`.
fn count_in(s: &Vec<u8>, v: u8) -> (r: u16)
    requires
        s@.len() <= STR_CAP,
    ensures
        r == count_byte(s@, v),
{
    let mut c: u16 = 0;
    let mut i: usize = 0;
    while i < s.len()
        invariant
            i <= s@.len(),
            s@.len() <= STR_CAP,
            c == count_byte(s@.subrange(0, i as int), v),
            c <= i,
        decreases s@.len() - i,
    {
        proof {
            assert(s@.subrange(0, i as int + 1).drop_last() =~= s@.subrange(0, i as int));
        }
        if s[i] == v {
            c = c + 1;
        }
        i = i + 1;
    }
    assert(s@.subrange(0, s@.len() as int) =~= s@);
    c
}

/// Whether `b` occurs in `a` at position `k`.
fn occurs_at(a: &Vec<u8>, b: &Vec<u8>, k: usize) -> (r: bool)
    requires
        k + b@.len() <= a@.len(),
    ensures
        r == (a@.subrange(k as int, k + b@.len()) == b@),
{
    let mut i: usize = 0;
    while i < b.len()
        invariant
            i <= b@.len(),
            k + b@.len() <= a@.len(),
            a@.len() == a.len(),
            forall|j: int| 0 <= j < i ==> #[trigger] a@[k + j] == b@[j],
        decreases b@.len() - i,
    {
        if a[k + i] != b[i] {
            assert(a@.subrange(k as int, k + b@.len())[i as int] != b@[i as int]);
            return false;
        }
        i = i + 1;
    }
    assert forall|j: int| 0 <= j < b@.len() implies a@.subrange(k as int, k + b@.len())[j] == b@[j] by {
        assert(a@[k + j] == b@[j]);
    }
    assert(a@.subrange(k as int, k + b@.len()) =~= b@);
    true
}

/// Number of occurrences of `b` in `a`.
fn count_occurrences(a: &Vec<u8>, b: &Vec<u8>) -> (r: u16)
    requires
        a@.len() <= STR_CAP,
        b@.len() > 0,
    ensures
        r == occurrences(a@, b@),
{
    if b.len() > a.len() {
        return 0;
    }
    let windows = a.len() - b.len() + 1;
    let mut c: u16 = 0;
    let mut k: usize = 0;
    while k < windows
        invariant
            k <= windows,
            windows == a@.len() - b@.len() + 1,
            b@.len() <= a@.len() <= STR_CAP,
            b@.len() > 0,
            c == occurrences_below(a@, b@, k as nat),
            c <= k,
        decreases windows - k,
    {
        if occurs_at(a, b, k) {
            c = c + 1;
        }
        k = k + 1;
    }
    c
}

/// First position at or after `p`, below `size`, where the agreement is not `v`.
fn skip_agreement(a: &Vec<u8>, b: &Vec<u8>, size: usize, p: usize, v: bool) -> (r: usize)
    requires
        size <= a@.len(),
        size <= b@.len(),
        p <= size,
    ensures
        r == skip_eq(a@, b@, size as nat, p as nat, v),
        p <= r <= size,
{
    let mut q = p;
    while q < size && (a[q] == b[q]) == v
        invariant
            p <= q <= size,
            size <= a@.len(),
            size <= b@.len(),
            skip_eq(a@, b@, size as nat, p as nat, v) == skip_eq(a@, b@, size as nat, q as nat, v),
        decreases size - q,
    {
        q = q + 1;
    }
    q
}

/// Position after a run of agreement `v` and the position that ends it.
fn pass_run(a: &Vec<u8>, b: &Vec<u8>, size: usize, p: usize, v: bool) -> (r: usize)
    requires
        size <= a@.len(),
        size <= b@.len(),
        p <= size,
    ensures
        r == past_run(a@, b@, size as nat, p as nat, v),
        p <= r <= size,
{
    let q = skip_agreement(a, b, size, p, v);
    if q < size {
        q + 1
    } else {
        q
    }
}

/// Offset and length of fragment `n` of agreement (see [`common_fragment`]).
fn find_fragment(a: &Vec<u8>, b: &Vec<u8>, n: u16) -> (r: Option<(u16, u16)>)
    requires
        a@.len() <= STR_CAP,
        b@.len() <= STR_CAP,
    ensures
        r matches Some((o, l)) ==> common_fragment(a@, b@, n as nat) == Some((o as nat, l as nat)),
        r is None ==> common_fragment(a@, b@, n as nat) is None,
{
    let size = if a.len() < b.len() {
        a.len()
    } else {
        b.len()
    };
    let mut p = skip_agreement(a, b, size, 0, false);
    let ghost p0 = p as nat;
    let mut k: u16 = 0;
    while k < n
        invariant
            k <= n,
            p <= size,
            size <= a@.len(),
            size <= b@.len(),
            size == (if a@.len() < b@.len() { a@.len() } else { b@.len() }),
            fragment_start(a@, b@, size as nat, p0, n as nat) == fragment_start(
                a@,
                b@,
                size as nat,
                p as nat,
                (n - k) as nat,
            ),
        decreases n - k,
    {
        let q = pass_run(a, b, size, p, false);
        p = pass_run(a, b, size, q, true);
        k = k + 1;
    }
    if p < size {
        let e = skip_agreement(a, b, size, p + 1, true);
        Some((p as u16, (e - p) as u16))
    } else {
        None
    }
}

/// Copy of `v[a..b]`.
fn sub_vec(v: &Vec<u8>, a: usize, b: usize) -> (r: Vec<u8>)
    requires
        a <= b <= v@.len(),
    ensures
        r@ == v@.subrange(a as int, b as int),
{
    let mut out: Vec<u8> = Vec::new();
    let mut i = a;
    while i < b
        invariant
            a <= i <= b,
            b <= v@.len(),
            out@ == v@.subrange(a as int, i as int),
        decreases b - i,
    {
        out.push(v[i]);
        i = i + 1;
        assert(out@ =~= v@.subrange(a as int, i as int));
    }
    out
}

/// Clears the status and a numeric register.
fn fail_num_exec(regs: &mut CoreRegs, reg: RegAR, idx: Reg32)
    requires
        old(regs).wf(),
    ensures
        final(regs).wf(),
        final(regs)@ == fail_num(old(regs)@, reg, idx),
{
    regs.set_st0(false);
    regs.set_n(reg, idx, None);
}

/// Clears the status and a string register.
fn fail_str_exec(regs: &mut CoreRegs, i: u8)
    requires
        old(regs).wf(),
    ensures
        final(regs).wf(),
        final(regs)@ == fail_str(old(regs)@, i),
{
    regs.set_st0(false);
    regs.set_s(i, None);
}

/// Fills a range of a string register.
fn op_fill(regs: &mut CoreRegs, reg: u8, o1: Reg32, o2: Reg32, v: Reg32, flag: ExtendFlag)
    requires
        old(regs).wf(),
        bytes_op_runs(BytesOp::Fill(reg, o1, o2, v, flag), old(regs)@),
    ensures
        final(regs).wf(),
        final(regs)@ == bytes_step(BytesOp::Fill(reg, o1, o2, v, flag), old(regs)@),
{
    match (a_small(regs, RegA::A16, o1), a_small(regs, RegA::A16, o2), a_small(regs, RegA::A8, v)) {
        (Some(a), Some(b), Some(x)) => {
            let ghost m = regs@;
            let mut s = match regs.get_s(reg) {
                Some(s) => s,
                None => ByteStr::new(),
            };
            let ghost s0 = s@;
            assert(s0 == (match m.s[reg as int] {
                Some(t) => t,
                None => empty_str(),
            }));
            regs.set_s(reg, Some(s.clone_str()));
            let ghost n = regs@;
            assert(n == with_str(m, reg, Some(s0)));
            let fail = match flag {
                ExtendFlag::Fail => true,
                ExtendFlag::Extend => false,
            };
            if s.len() <= b && fail {
                regs.set_st0(false);
            } else {
                s.fill(a, b, x as u8);
                assert(s@.buf =~= filled(s0, a as nat, b as nat, x as u8).buf);
                assert(s@ == filled(s0, a as nat, b as nat, x as u8));
                regs.set_s(reg, Some(s));
            }
        },
        _ => {
            regs.set_st0(false);
        },
    }
}

/// Puts the length of a string into an arithmetic register.
fn op_len(regs: &mut CoreRegs, src: u8, reg: RegA, dst: Reg32)
    requires
        old(regs).wf(),
    ensures
        final(regs).wf(),
        final(regs)@ == bytes_step(BytesOp::Len(src, reg, dst), old(regs)@),
{
    match regs.get_s(src) {
        Some(s) => {
            let len = s.len();
            if reg.int_layout().fits_usize(len as usize) {
                put_count(regs, reg, dst, len, 4);
            } else {
                fail_num_exec(regs, RegAR::A(reg), dst);
            }
        },
        None => fail_num_exec(regs, RegAR::A(reg), dst),
    }
}

/// Counts a byte in a string.
fn op_cnt(regs: &mut CoreRegs, src: u8, byte: Reg32, dst: Reg32)
    requires
        old(regs).wf(),
    ensures
        final(regs).wf(),
        final(regs)@ == bytes_step(BytesOp::Cnt(src, byte, dst), old(regs)@),
{
    match (a_small(regs, RegA::A8, byte), regs.get_s(src)) {
        (Some(v), Some(s)) => {
            let c = count_in(&s.to_vec(), v as u8);
            put_count(regs, RegA::A16, dst, c, 4);
        },
        _ => fail_num_exec(regs, RegAR::A(RegA::A16), dst),
    }
}

/// Counts the occurrences of one string in another.
fn op_find(regs: &mut CoreRegs, r1: u8, r2: u8)
    requires
        old(regs).wf(),
        bytes_op_runs(BytesOp::Find(r1, r2), old(regs)@),
    ensures
        final(regs).wf(),
        final(regs)@ == bytes_step(BytesOp::Find(r1, r2), old(regs)@),
{
    match (regs.get_s(r1), regs.get_s(r2)) {
        (Some(a), Some(b)) => {
            let c = count_occurrences(&a.to_vec(), &b.to_vec());
            put_count(regs, RegA::A16, Reg32::Reg0, c, 2);
        },
        _ => fail_num_exec(regs, RegAR::A(RegA::A16), Reg32::Reg0),
    }
}

/// Puts the reversed string into another register.
fn op_rev(regs: &mut CoreRegs, r1: u8, r2: u8)
    requires
        old(regs).wf(),
    ensures
        final(regs).wf(),
        final(regs)@ == bytes_step(BytesOp::Rev(r1, r2), old(regs)@),
{
    match regs.get_s(r1) {
        Some(s) => {
            let ghost orig = s@;
            let mut s = s;
            let v = s.to_vec();
            let n = s.len();
            let mut i: u16 = 0;
            while i < n
                invariant
                    i <= n,
                    n == orig.len,
                    v@ == content(orig),
                    s.wf(),
                    s@.len == orig.len,
                    orig.buf.len() == STR_CAP,
                    forall|k: int|
                        0 <= k < STR_CAP ==> #[trigger] s@.buf[k] == (if k < i {
                            orig.buf[n - 1 - k]
                        } else {
                            orig.buf[k]
                        }),
                decreases n - i,
            {
                s.set_byte(i, v[(n - 1 - i) as usize]);
                i = i + 1;
            }
            assert(s@.buf =~= reversed(orig).buf);
            assert(s@ == reversed(orig));
            regs.set_s(r2, Some(s));
        },
        None => fail_str_exec(regs, r2),
    }
}

/// Finds a fragment of agreement of two strings.
fn op_con(regs: &mut CoreRegs, r1: u8, r2: u8, n: Reg32, off: Reg32, len: Reg32)
    requires
        old(regs).wf(),
    ensures
        final(regs).wf(),
        final(regs)@ == bytes_step(BytesOp::Con(r1, r2, n, off, len), old(regs)@),
{
    let a16 = RegAR::A(RegA::A16);
    match (regs.get_s(r1), regs.get_s(r2), a_small(regs, RegA::A16, n)) {
        (Some(a), Some(b), Some(k)) => match find_fragment(&a.to_vec(), &b.to_vec(), k) {
            Some((o, l)) => {
                regs.set_n(a16, off, Some(Number::from_u16(o)));
                regs.set_n(a16, len, Some(Number::from_u16(l)));
            },
            None => {
                fail_num_exec(regs, a16, off);
                regs.set_n(a16, len, None);
            },
        },
        _ => {
            fail_num_exec(regs, a16, off);
            regs.set_n(a16, len, None);
        },
    }
}

/// Extracts a value from a string into a numeric register.
fn op_extr(regs: &mut CoreRegs, src: u8, dst: RegAR, index: Reg32, offset: Reg32)
    requires
        old(regs).wf(),
    ensures
        final(regs).wf(),
        final(regs)@ == bytes_step(BytesOp::Extr(src, dst, index, offset), old(regs)@),
{
    match (regs.get_s(src), a_small(regs, RegA::A16, offset)) {
        (Some(s), Some(o)) => {
            if o < s.len() {
                let end: u32 = o as u32 + dst.bytes() as u32;
                let e: u16 = if end < s.len() as u32 {
                    end as u16
                } else {
                    regs.set_st0(false);
                    s.len()
                };
                let v = s.to_vec();
                let part = sub_vec(&v, o as usize, e as usize);
                let x = Number::from_slice(part.as_slice());
                regs.set_n(dst, index, Some(x));
            } else {
                fail_num_exec(regs, dst, index);
            }
        },
        _ => fail_num_exec(regs, dst, index),
    }
}

/// Joins two strings.
fn op_join(regs: &mut CoreRegs, s1: u8, s2: u8, dst: u8)
    requires
        old(regs).wf(),
        bytes_op_runs(BytesOp::Join(s1, s2, dst), old(regs)@),
    ensures
        final(regs).wf(),
        final(regs)@ == bytes_step(BytesOp::Join(s1, s2, dst), old(regs)@),
{
    match (regs.get_s(s1), regs.get_s(s2)) {
        (Some(a), Some(b)) => {
            if a.len() as u32 + b.len() as u32 > STR_CAP as u32 {
                fail_str_exec(regs, dst);
            } else {
                let d = ByteStr::with(a.to_vec().as_slice());
                regs.set_s(dst, Some(d));
            }
        },
        _ => fail_str_exec(regs, dst),
    }
}

impl InstructionSet for BytesOp {
    open spec fn src_set(&self) -> Set<Reg> {
        match *self {
            BytesOp::Put(..) => Set::empty(),
            BytesOp::Swp(r1, r2) | BytesOp::Find(r1, r2) | BytesOp::Eq(r1, r2)
            | BytesOp::Join(r1, r2, _) => set![Reg::S(r1), Reg::S(r2)],
            BytesOp::Mov(r1, _) | BytesOp::Rev(r1, _) => set![Reg::S(r1)],
            BytesOp::Fill(r, o1, o2, v, _) => set![
                Reg::S(r),
                Reg::A(RegA::A16, o1),
                Reg::A(RegA::A16, o2),
                Reg::A(RegA::A8, v),
            ],
            BytesOp::Len(src, _, _) => set![Reg::S(src)],
            BytesOp::Cnt(src, byte, _) => set![Reg::S(src), Reg::A(RegA::A8, byte)],
            BytesOp::Con(r1, r2, no, _, _) => set![Reg::S(r1), Reg::S(r2), Reg::A(RegA::A16, no)],
            BytesOp::Extr(src, _, _, off) => set![Reg::S(src), Reg::A(RegA::A16, off)],
            BytesOp::Inj(src1, src2, idx, off) => set![
                Reg::S(src1),
                Reg::spec_new(src2, idx),
                Reg::A(RegA::A16, off),
            ],
            BytesOp::Splt(_, off, src, _, _) | BytesOp::Ins(_, off, src, _) => set![
                Reg::A(RegA::A16, off),
                Reg::S(src),
            ],
            BytesOp::Del(_, r1, o1, r2, o2, _, _, src, _) => set![
                Reg::A(r1.spec_reg(), o1),
                Reg::A(r2.spec_reg(), o2),
                Reg::S(src),
            ],
        }
    }

    open spec fn dst_set(&self) -> Set<Reg> {
        match *self {
            BytesOp::Put(r, _, _) | BytesOp::Fill(r, _, _, _, _) | BytesOp::Inj(r, _, _, _) => set![Reg::S(r)],
            BytesOp::Swp(r1, r2) | BytesOp::Find(r1, r2) => set![Reg::S(r1), Reg::S(r2)],
            BytesOp::Mov(_, r2) | BytesOp::Rev(_, r2) => set![Reg::S(r2)],
            BytesOp::Len(_, reg, dst) => set![Reg::A(reg, dst)],
            BytesOp::Cnt(_, _, cnt) => set![Reg::A(RegA::A16, cnt)],
            BytesOp::Eq(..) => Set::empty(),
            BytesOp::Con(_, _, _, off, len) => set![Reg::A(RegA::A16, off), Reg::A(RegA::A16, len)],
            BytesOp::Extr(_, dst, idx, _) => set![Reg::spec_new(dst, idx)],
            BytesOp::Join(_, _, dst) | BytesOp::Ins(_, _, _, dst)
            | BytesOp::Del(_, _, _, _, _, _, _, _, dst) => set![Reg::S(dst)],
            BytesOp::Splt(_, _, _, d1, d2) => set![Reg::S(d1), Reg::S(d2)],
        }
    }

    fn src_regs(&self) -> (r: Vec<Reg>) {
        match self {
            BytesOp::Put(..) => no_regs(),
            BytesOp::Swp(r1, r2) | BytesOp::Find(r1, r2) | BytesOp::Eq(r1, r2)
            | BytesOp::Join(r1, r2, _) => regs_of(vec![Reg::S(*r1), Reg::S(*r2)]),
            BytesOp::Mov(r1, _) | BytesOp::Rev(r1, _) => regs_of(vec![Reg::S(*r1)]),
            BytesOp::Fill(r, o1, o2, v, _) => regs_of(vec![
                Reg::S(*r),
                Reg::A(RegA::A16, *o1),
                Reg::A(RegA::A16, *o2),
                Reg::A(RegA::A8, *v),
            ]),
            BytesOp::Len(src, _, _) => regs_of(vec![Reg::S(*src)]),
            BytesOp::Cnt(src, byte, _) => regs_of(vec![Reg::S(*src), Reg::A(RegA::A8, *byte)]),
            BytesOp::Con(r1, r2, no, _, _) => regs_of(vec![Reg::S(*r1), Reg::S(*r2), Reg::A(RegA::A16, *no)]),
            BytesOp::Extr(src, _, _, off) => regs_of(vec![Reg::S(*src), Reg::A(RegA::A16, *off)]),
            BytesOp::Inj(src1, src2, idx, off) => regs_of(vec![
                Reg::S(*src1),
                Reg::new(*src2, *idx),
                Reg::A(RegA::A16, *off),
            ]),
            BytesOp::Splt(_, off, src, _, _) | BytesOp::Ins(_, off, src, _) => regs_of(vec![
                Reg::A(RegA::A16, *off),
                Reg::S(*src),
            ]),
            BytesOp::Del(_, r1, o1, r2, o2, _, _, src, _) => regs_of(vec![
                Reg::A(r1.reg(), *o1),
                Reg::A(r2.reg(), *o2),
                Reg::S(*src),
            ]),
        }
    }

    fn dst_regs(&self) -> (r: Vec<Reg>) {
        match self {
            BytesOp::Put(r, _, _) | BytesOp::Fill(r, _, _, _, _) | BytesOp::Inj(r, _, _, _) => regs_of(vec![Reg::S(*r)]),
            BytesOp::Swp(r1, r2) | BytesOp::Find(r1, r2) => regs_of(vec![Reg::S(*r1), Reg::S(*r2)]),
            BytesOp::Mov(_, r2) | BytesOp::Rev(_, r2) => regs_of(vec![Reg::S(*r2)]),
            BytesOp::Len(_, reg, dst) => regs_of(vec![Reg::A(*reg, *dst)]),
            BytesOp::Cnt(_, _, cnt) => regs_of(vec![Reg::A(RegA::A16, *cnt)]),
            BytesOp::Eq(..) => no_regs(),
            BytesOp::Con(_, _, _, off, len) => regs_of(vec![Reg::A(RegA::A16, *off), Reg::A(RegA::A16, *len)]),
            BytesOp::Extr(_, dst, idx, _) => regs_of(vec![Reg::new(*dst, *idx)]),
            BytesOp::Join(_, _, dst) | BytesOp::Ins(_, _, _, dst)
            | BytesOp::Del(_, _, _, _, _, _, _, _, dst) => regs_of(vec![Reg::S(*dst)]),
            BytesOp::Splt(_, _, _, d1, d2) => regs_of(vec![Reg::S(*d1), Reg::S(*d2)]),
        }
    }

    fn regs(&self) -> (r: Vec<Reg>) {
        merge_regs(self.src_regs(), self.dst_regs())
    }

    /// String instructions weigh 5.
    fn complexity(&self) -> (r: u64)
        ensures
            r == 5,
    {
        5
    }

    open spec fn runs(&self, m: RegsModel) -> bool {
        bytes_op_runs(*self, m)
    }

    fn runs_exec(&self, regs: &CoreRegs) -> (r: bool) {
        match self {
            BytesOp::Fill(_, o1, o2, _, _) => match (regs.a_u16(RegA::A16, *o1), regs.a_u16(RegA::A16, *o2)) {
                (Some(a), Some(b)) => a <= b,
                _ => true,
            },
            BytesOp::Find(r1, r2) => match (regs.get_s(*r1), regs.get_s(*r2)) {
                (Some(_), Some(t)) => t.len() > 0,
                _ => true,
            },
            BytesOp::Inj(src, dst, index, offset) => regs.get_s(*src).is_none() || regs.get_n(*dst, *index).is_none()
                || regs.a_u16(RegA::A16, *offset).is_none(),
            BytesOp::Join(s1, s2, _) => match (regs.get_s(*s1), regs.get_s(*s2)) {
                (Some(a), Some(b)) => a.len() as usize + b.len() as usize > STR_CAP || b.len() == 0,
                _ => true,
            },
            BytesOp::Splt(..) | BytesOp::Ins(..) | BytesOp::Del(..) => false,
            BytesOp::Put(_, s, _) => s.wf_exec(),
            _ => true,
        }
    }

    /// Executes the instruction (see [`bytes_step`]).
    fn exec(&self, regs: &mut CoreRegs, _site: LibSite) -> (r: ExecStep)
        ensures
            final(regs).wf(),
            final(regs)@ == bytes_step(*self, old(regs)@),
            r == ExecStep::Next,
    {
        match self {
            BytesOp::Put(i, s, flag) => {
                regs.set_s(*i, Some(s.clone_str()));
                if *flag {
                    regs.set_st0(false);
                }
            },
            BytesOp::Mov(r1, r2) => {
                let v = regs.get_s(*r1);
                regs.set_s(*r1, None);
                regs.set_s(*r2, v);
            },
            BytesOp::Swp(r1, r2) => {
                let v1 = regs.get_s(*r1);
                let v2 = regs.get_s(*r2);
                regs.set_s(*r1, v2);
                regs.set_s(*r2, v1);
            },
            BytesOp::Fill(reg, o1, o2, v, flag) => op_fill(regs, *reg, *o1, *o2, *v, *flag),
            BytesOp::Len(src, reg, dst) => op_len(regs, *src, *reg, *dst),
            BytesOp::Cnt(src, byte, dst) => op_cnt(regs, *src, *byte, *dst),
            BytesOp::Eq(r1, r2) => {
                let st = match (regs.get_s(*r1), regs.get_s(*r2)) {
                    (Some(a), Some(b)) => a == b,
                    (None, None) => true,
                    _ => false,
                };
                regs.set_st0(st);
            },
            BytesOp::Find(r1, r2) => op_find(regs, *r1, *r2),
            BytesOp::Rev(r1, r2) => op_rev(regs, *r1, *r2),
            BytesOp::Con(r1, r2, n, off, len) => op_con(regs, *r1, *r2, *n, *off, *len),
            BytesOp::Extr(src, dst, index, offset) => op_extr(regs, *src, *dst, *index, *offset),
            BytesOp::Inj(_, dst, index, _) => fail_num_exec(regs, *dst, *index),
            BytesOp::Join(s1, s2, dst) => op_join(regs, *s1, *s2, *dst),
            BytesOp::Splt(..) | BytesOp::Ins(..) | BytesOp::Del(..) => {},
        }
        ExecStep::Next
    }
}

} // verus!
