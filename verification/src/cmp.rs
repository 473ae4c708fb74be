//! Ordering of numbers.

use vstd::prelude::*;

use core::cmp::Ordering;

use crate::layout::{FloatLayout, Layout};
use crate::num::le_val;
use crate::number::{le_compare, sign_bit_bytes, Number, NumberModel};

verus! {

/// Three-way comparison of natural numbers.
pub open spec fn nat_order(a: nat, b: nat) -> Ordering {
    if a < b {
        Ordering::Less
    } else if a > b {
        Ordering::Greater
    } else {
        Ordering::Equal
    }
}

/// Reverse of an ordering.
pub open spec fn reverse_order(o: Ordering) -> Ordering {
    match o {
        Ordering::Less => Ordering::Greater,
        Ordering::Greater => Ordering::Less,
        Ordering::Equal => Ordering::Equal,
    }
}

/// Whether the sign bit of the most significant byte is set.
pub open spec fn sign_bit(s: Seq<u8>) -> bool {
    s.last() & 0x80 != 0
}

/// Order of two numbers of one layout. Integers: a non-negative number is above a negative
/// one, otherwise the bytes compare as unsigned values. Floats: sign and magnitude, with both
/// zeros equal.
pub open spec fn number_order(a: NumberModel, b: NumberModel) -> Ordering {
    match a.layout {
        Layout::Integer(l) => {
            let pa = !l.signed || !sign_bit(a.bytes);
            let pb = !l.signed || !sign_bit(b.bytes);
            if pa && !pb {
                Ordering::Greater
            } else if !pa && pb {
                Ordering::Less
            } else {
                nat_order(le_val(a.bytes), le_val(b.bytes))
            }
        },
        Layout::Float(_) => {
            let ma = le_val(sign_bit_bytes(a.bytes, false));
            let mb = le_val(sign_bit_bytes(b.bytes, false));
            let sa = sign_bit(a.bytes);
            let sb = sign_bit(b.bytes);
            if ma == 0 && mb == 0 {
                Ordering::Equal
            } else if !sa && !sb {
                nat_order(ma, mb)
            } else if sa && sb {
                nat_order(mb, ma)
            } else if sa {
                Ordering::Less
            } else {
                Ordering::Greater
            }
        },
    }
}

/// Whether two numbers can be ordered: one layout, other than the 256-bit and tapered floats.
pub open spec fn orderable(a: NumberModel, b: NumberModel) -> bool {
    a.layout == b.layout && a.layout != Layout::Float(FloatLayout::IeeeOct) && a.layout
        != Layout::Float(FloatLayout::FloatTapered)
}

/// Compares two byte strings of one length as little-endian unsigned values.
pub fn compare_le(a: &Vec<u8>, b: &Vec<u8>) -> (r: Ordering)
    requires
        a@.len() == b@.len(),
    ensures
        r == nat_order(le_val(a@), le_val(b@)),
{
    let d = le_compare(a, b);
    if d < 0 {
        Ordering::Less
    } else if d > 0 {
        Ordering::Greater
    } else {
        Ordering::Equal
    }
}

impl Number {
    /// Compares two numbers of one layout (see [`number_order`]).
    pub fn cmp_number(&self, other: &Number) -> (r: Ordering)
        requires
            self.wf(),
            other.wf(),
            orderable(self@, other@),
        ensures
            r == number_order(self@, other@),
    {
        match self.layout() {
            Layout::Integer(l) => {
                let a = self.to_vec();
                let b = other.to_vec();
                let top_a = a[a.len() - 1];
                let top_b = b[b.len() - 1];
                let pa = !l.signed || top_a & 0x80 == 0;
                let pb = !l.signed || top_b & 0x80 == 0;
                if pa && !pb {
                    Ordering::Greater
                } else if !pa && pb {
                    Ordering::Less
                } else {
                    compare_le(&a, &b)
                }
            },
            Layout::Float(_) => {
                let a = self.to_vec();
                let b = other.to_vec();
                let sa = a[a.len() - 1] & 0x80 != 0;
                let sb = b[b.len() - 1] & 0x80 != 0;
                let ma = self.clone_number().with_sign_bit(false);
                let mb = other.clone_number().with_sign_bit(false);
                let va = ma.to_vec();
                let vb = mb.to_vec();
                let za = ma.is_zero();
                let zb = mb.is_zero();
                proof {
                    crate::number::lemma_le_val_zero(va@);
                    crate::number::lemma_le_val_zero(vb@);
                    let ta = va@.last();
                    let tb = vb@.last();
                    assert(ta & 0x80 == 0 ==> (ta == 0 || ta != 0x80)) by (bit_vector);
                    assert(tb & 0x80 == 0 ==> (tb == 0 || tb != 0x80)) by (bit_vector);
                    let la = a@.last();
                    let lb = b@.last();
                    assert((la & 0x7F) & 0x80 == 0) by (bit_vector);
                    assert((lb & 0x7F) & 0x80 == 0) by (bit_vector);
                }
                if za && zb {
                    Ordering::Equal
                } else if !sa && !sb {
                    compare_le(&va, &vb)
                } else if sa && sb {
                    compare_le(&vb, &va)
                } else if sa {
                    Ordering::Less
                } else {
                    Ordering::Greater
                }
            },
        }
    }

    /// Compares two integers of one layout; the name recalls that float layouts would ignore
    /// their last significand bit.
    pub fn rounding_cmp(&self, other: &Number) -> (r: Ordering)
        requires
            self.wf(),
            other.wf(),
            self@.layout == other@.layout,
            self@.layout is Integer,
        ensures
            r == number_order(self@, other@),
    {
        self.cmp_number(other)
    }

    /// Whether two integers of one layout compare equal under [`Number::rounding_cmp`].
    pub fn rounding_eq(&self, other: &Number) -> (r: bool)
        requires
            self.wf(),
            other.wf(),
            self@.layout == other@.layout,
            self@.layout is Integer,
        ensures
            r == (number_order(self@, other@) == Ordering::Equal),
    {
        match self.rounding_cmp(other) {
            Ordering::Equal => true,
            Ordering::Less => false,
            Ordering::Greater => false,
        }
    }
}

impl PartialOrd for Number {
    fn partial_cmp(&self, other: &Self) -> (r: Option<Ordering>) {
        if self.wf_exec() && other.wf_exec() && self.layout() == other.layout() && self.layout()
            != Layout::Float(FloatLayout::IeeeOct) && self.layout() != Layout::Float(
            FloatLayout::FloatTapered,
        ) {
            Some(self.cmp_number(other))
        } else {
            None
        }
    }
}

impl vstd::std_specs::cmp::PartialOrdSpecImpl for Number {
    open spec fn obeys_partial_cmp_spec() -> bool {
        true
    }

    open spec fn partial_cmp_spec(&self, other: &Self) -> Option<Ordering> {
        if self.wf() && other.wf() && orderable(self@, other@) {
            Some(number_order(self@, other@))
        } else {
            None
        }
    }
}

} // verus!
