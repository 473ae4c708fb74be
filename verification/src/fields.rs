//! Sequences of bytecode fields (bit fields, bytes, little-endian words) written and read in
//! order through a [`Cursor`].

use vstd::prelude::*;

use crate::codec::CursorError;
use crate::cursor::{
    read_bits_step, read_u16_step, read_u8_step, write_bits_step, write_u16_step, write_u8_step,
    Cursor, CursorModel, Step,
};

verus! {

/// A field to write.
#[derive(Clone, Copy, PartialEq, Eq, Structural, Debug, Hash)]
pub enum Field {
    /// The low bits of a value, as many as the width (1 to 7).
    Bits(u8, u8),
    /// A byte.
    Byte(u8),
    /// A little-endian word.
    Word(u16),
}

/// The shape of a field to read.
#[derive(Clone, Copy, PartialEq, Eq, Structural, Debug, Hash)]
pub enum Kind {
    /// Bit field of a width (1 to 7).
    Bits(u8),
    /// A byte.
    Byte,
    /// A little-endian word.
    Word,
}

/// Writing one field.
pub open spec fn field_step(m: CursorModel, f: Field) -> Step<()> {
    match f {
        Field::Bits(v, w) => write_bits_step(m, v, w),
        Field::Byte(v) => write_u8_step(m, v),
        Field::Word(v) => write_u16_step(m, v),
    }
}

/// Writing fields in order, stopping at the first failure.
pub open spec fn fields_step(m: CursorModel, fs: Seq<Field>) -> Step<()>
    decreases fs.len(),
{
    if fs.len() == 0 {
        (m, Ok(()))
    } else {
        let (m1, r1) = fields_step(m, fs.drop_last());
        match r1 {
            Ok(_) => field_step(m1, fs.last()),
            Err(e) => (m1, Err(e)),
        }
    }
}

/// What writing a field needs of the cursor: a bit field of 1 to 7 bits within the bytecode;
/// a byte or a word at a byte boundary, within the bytecode.
pub open spec fn field_pre(m: CursorModel, f: Field) -> bool {
    match f {
        Field::Bits(_, w) => 1 <= w < 8 && m.byte_pos < m.bytes.len(),
        Field::Byte(_) => m.bit_pos == 0 && m.byte_pos < m.bytes.len(),
        Field::Word(_) => m.bit_pos == 0 && m.byte_pos + 2 <= m.bytes.len(),
    }
}

/// Whether each field, reached by writing the ones before it without a failure, can be
/// written (see [`field_pre`]).
pub open spec fn fields_fit(m: CursorModel, fs: Seq<Field>) -> bool
    decreases fs.len(),
{
    fs.len() == 0 || (fields_fit(m, fs.drop_last()) && (fields_step(m, fs.drop_last()).1 is Ok
        ==> field_pre(fields_step(m, fs.drop_last()).0, fs.last())))
}

/// Reading one field, as a word.
pub open spec fn read_field_step(m: CursorModel, k: Kind) -> Step<u16> {
    match k {
        Kind::Bits(w) => match read_bits_step(m, w) {
            (m1, Ok(v)) => (m1, Ok(v as u16)),
            (m1, Err(e)) => (m1, Err(e)),
        },
        Kind::Byte => match read_u8_step(m) {
            (m1, Ok(v)) => (m1, Ok(v as u16)),
            (m1, Err(e)) => (m1, Err(e)),
        },
        Kind::Word => read_u16_step(m),
    }
}

/// Reading fields in order, stopping at the first failure.
pub open spec fn reads_step(m: CursorModel, ks: Seq<Kind>) -> Step<Seq<u16>>
    decreases ks.len(),
{
    if ks.len() == 0 {
        (m, Ok(Seq::empty()))
    } else {
        let (m1, r1) = reads_step(m, ks.drop_last());
        match r1 {
            Ok(vs) => match read_field_step(m1, ks.last()) {
                (m2, Ok(v)) => (m2, Ok(vs.push(v))),
                (m2, Err(e)) => (m2, Err(e)),
            },
            Err(e) => (m1, Err(e)),
        }
    }
}

/// What reading a field needs of the cursor, unless it is at its end: a bit field of 1 to 7
/// bits within the bytecode; a byte or a word at a byte boundary, within the bytecode.
pub open spec fn read_pre(m: CursorModel, k: Kind) -> bool {
    match k {
        Kind::Bits(w) => 1 <= w < 8 && (!m.eof ==> m.byte_pos < m.bytes.len()),
        Kind::Byte => !m.eof ==> m.bit_pos == 0 && m.byte_pos < m.bytes.len(),
        Kind::Word => !m.eof ==> m.bit_pos == 0 && m.byte_pos + 2 <= m.bytes.len(),
    }
}

/// Whether each field, reached by reading the ones before it without a failure, can be read.
pub open spec fn reads_fit(m: CursorModel, ks: Seq<Kind>) -> bool
    decreases ks.len(),
{
    ks.len() == 0 || (reads_fit(m, ks.drop_last()) && (reads_step(m, ks.drop_last()).1 is Ok
        ==> read_pre(reads_step(m, ks.drop_last()).0, ks.last())))
}

/// A list that fits fits in each of its prefixes.
proof fn lemma_fields_fit_prefix(m: CursorModel, fs: Seq<Field>, k: int)
    requires
        fields_fit(m, fs),
        0 <= k <= fs.len(),
    ensures
        fields_fit(m, fs.take(k)),
    decreases fs.len(),
{
    if k < fs.len() {
        assert(fs.drop_last().take(k) =~= fs.take(k));
        lemma_fields_fit_prefix(m, fs.drop_last(), k);
    } else {
        assert(fs.take(k) =~= fs);
    }
}

/// A failure while writing a prefix is the failure of writing the whole list.
proof fn lemma_fields_fail(m: CursorModel, fs: Seq<Field>, k: int)
    requires
        0 <= k <= fs.len(),
        fields_step(m, fs.take(k)).1 is Err,
    ensures
        fields_step(m, fs) == fields_step(m, fs.take(k)),
    decreases fs.len(),
{
    if k < fs.len() {
        assert(fs.drop_last().take(k) =~= fs.take(k));
        lemma_fields_fail(m, fs.drop_last(), k);
    } else {
        assert(fs.take(k) =~= fs);
    }
}

/// A list that fits fits in each of its prefixes.
proof fn lemma_reads_fit_prefix(m: CursorModel, ks: Seq<Kind>, k: int)
    requires
        reads_fit(m, ks),
        0 <= k <= ks.len(),
    ensures
        reads_fit(m, ks.take(k)),
    decreases ks.len(),
{
    if k < ks.len() {
        assert(ks.drop_last().take(k) =~= ks.take(k));
        lemma_reads_fit_prefix(m, ks.drop_last(), k);
    } else {
        assert(ks.take(k) =~= ks);
    }
}

/// A failure while reading a prefix is the failure of reading the whole list.
proof fn lemma_reads_fail(m: CursorModel, ks: Seq<Kind>, k: int)
    requires
        0 <= k <= ks.len(),
        reads_step(m, ks.take(k)).1 is Err,
    ensures
        reads_step(m, ks) == reads_step(m, ks.take(k)),
    decreases ks.len(),
{
    if k < ks.len() {
        assert(ks.drop_last().take(k) =~= ks.take(k));
        lemma_reads_fail(m, ks.drop_last(), k);
    } else {
        assert(ks.take(k) =~= ks);
    }
}

/// The values read are one per field.
pub(crate) proof fn lemma_reads_len(m: CursorModel, ks: Seq<Kind>)
    ensures
        reads_step(m, ks).1 matches Ok(vs) ==> vs.len() == ks.len(),
    decreases ks.len(),
{
    if ks.len() > 0 {
        lemma_reads_len(m, ks.drop_last());
    }
}

/// Writes one field.
fn write_field(c: &mut Cursor, f: Field) -> (r: Result<(), CursorError>)
    requires
        old(c).wf(),
        field_pre(old(c)@, f),
    ensures
        final(c).wf(),
        (final(c)@, r) == field_step(old(c)@, f),
{
    match f {
        Field::Bits(v, w) => c.write_bits(v, w),
        Field::Byte(v) => c.write_u8(v),
        Field::Word(v) => c.write_u16(v),
    }
}

/// Writes fields in order, stopping at the first failure (see [`fields_step`]).
pub fn write_fields(c: &mut Cursor, fs: &Vec<Field>) -> (r: Result<(), CursorError>)
    requires
        old(c).wf(),
        fields_fit(old(c)@, fs@),
    ensures
        final(c).wf(),
        (final(c)@, r) == fields_step(old(c)@, fs@),
{
    let ghost m = c@;
    let mut i: usize = 0;
    assert(fs@.take(0) =~= Seq::<Field>::empty());
    while i < fs.len()
        invariant
            c.wf(),
            i <= fs@.len(),
            fields_fit(m, fs@),
            m == old(c)@,
            fields_step(m, fs@.take(i as int)) == (c@, Ok::<(), CursorError>(())),
        decreases fs@.len() - i,
    {
        proof {
            lemma_fields_fit_prefix(m, fs@, i + 1);
            assert(fs@.take(i + 1).drop_last() =~= fs@.take(i as int));
            assert(fs@.take(i + 1).last() == fs@[i as int]);
        }
        let ghost before = c@;
        let ghost at = fs@.take(i + 1);
        assert(fields_step(m, at) == field_step(before, fs@[i as int]));
        match write_field(c, fs[i]) {
            Ok(()) => {},
            Err(e) => {
                proof {
                    lemma_fields_fail(m, fs@, i + 1);
                }
                return Err(e);
            },
        }
        i = i + 1;
    }
    assert(fs@.take(fs@.len() as int) =~= fs@);
    Ok(())
}

/// Reads one field, as a word.
fn read_field(c: &mut Cursor, k: Kind) -> (r: Result<u16, CursorError>)
    requires
        old(c).wf(),
        read_pre(old(c)@, k),
    ensures
        final(c).wf(),
        (final(c)@, r) == read_field_step(old(c)@, k),
{
    match k {
        Kind::Bits(w) => match c.read_bits(w) {
            Ok(v) => Ok(v as u16),
            Err(e) => Err(e),
        },
        Kind::Byte => match c.read_u8() {
            Ok(v) => Ok(v as u16),
            Err(e) => Err(e),
        },
        Kind::Word => c.read_u16(),
    }
}

/// Reads fields in order, stopping at the first failure (see [`reads_step`]).
pub fn read_fields(c: &mut Cursor, ks: &Vec<Kind>) -> (r: Result<Vec<u16>, CursorError>)
    requires
        old(c).wf(),
        reads_fit(old(c)@, ks@),
    ensures
        final(c).wf(),
        final(c)@ == reads_step(old(c)@, ks@).0,
        match reads_step(old(c)@, ks@).1 {
            Ok(vs) => r matches Ok(w) && w@ == vs,
            Err(e) => r == Err::<Vec<u16>, CursorError>(e),
        },
{
    let ghost m = c@;
    let mut out: Vec<u16> = Vec::new();
    let mut i: usize = 0;
    assert(ks@.take(0) =~= Seq::<Kind>::empty());
    while i < ks.len()
        invariant
            c.wf(),
            i <= ks@.len(),
            reads_fit(m, ks@),
            m == old(c)@,
            reads_step(m, ks@.take(i as int)) == (c@, Ok::<Seq<u16>, CursorError>(out@)),
        decreases ks@.len() - i,
    {
        proof {
            lemma_reads_fit_prefix(m, ks@, i + 1);
            assert(ks@.take(i + 1).drop_last() =~= ks@.take(i as int));
            assert(ks@.take(i + 1).last() == ks@[i as int]);
        }
        let ghost before = c@;
        let ghost at = ks@.take(i + 1);
        assert(reads_step(m, at) == (match read_field_step(before, ks@[i as int]) {
            (m2, Ok(v)) => (m2, Ok(out@.push(v))),
            (m2, Err(e)) => (m2, Err(e)),
        }));
        match read_field(c, ks[i]) {
            Ok(v) => {
                out.push(v);
            },
            Err(e) => {
                proof {
                    lemma_reads_fail(m, ks@, i + 1);
                }
                return Err(e);
            },
        }
        i = i + 1;
    }
    assert(ks@.take(ks@.len() as int) =~= ks@);
    Ok(out)
}

/// Number of bits a field takes.
pub open spec fn field_bits(f: Field) -> nat {
    match f {
        Field::Bits(_, w) => w as nat,
        Field::Byte(_) => 8,
        Field::Word(_) => 16,
    }
}

/// Number of bits fields take.
pub open spec fn fields_bits(fs: Seq<Field>) -> nat
    decreases fs.len(),
{
    if fs.len() == 0 {
        0
    } else {
        fields_bits(fs.drop_last()) + field_bits(fs.last())
    }
}

/// Whether fields are well shaped: bit fields of 1 to 7 bits, and bytes and words only where
/// the fields before them end on a byte boundary.
pub open spec fn fields_ok(fs: Seq<Field>) -> bool
    decreases fs.len(),
{
    fs.len() == 0 || (fields_ok(fs.drop_last()) && match fs.last() {
        Field::Bits(_, w) => 1 <= w < 8,
        _ => fields_bits(fs.drop_last()) % 8 == 0,
    })
}

/// Bytes holding all the bits of fields.
pub open spec fn fields_room(fs: Seq<Field>) -> nat {
    (fields_bits(fs) + 7) / 8
}

/// Well-shaped fields written from a byte boundary with room for them can be written, and the
/// cursor ends as many bits further as they take.
pub proof fn lemma_fields_write(m: CursorModel, fs: Seq<Field>)
    requires
        !m.eof,
        m.bit_pos == 0,
        fields_ok(fs),
        m.byte_pos + fields_room(fs) <= m.bytes.len(),
        m.bytes.len() <= u16::MAX,
    ensures
        fields_fit(m, fs),
        fields_step(m, fs).1 is Ok,
        fields_step(m, fs).0.byte_pos == m.byte_pos + fields_bits(fs) / 8,
        fields_step(m, fs).0.bit_pos == fields_bits(fs) % 8,
        !fields_step(m, fs).0.eof,
        fields_step(m, fs).0.bytes.len() == m.bytes.len(),
    decreases fs.len(),
{
    if fs.len() > 0 {
        let p = fs.drop_last();
        lemma_fields_write(m, p);
        let m1 = fields_step(m, p).0;
        let b = fields_bits(p);
        assert(m1.byte_pos == m.byte_pos + b / 8);
        match fs.last() {
            Field::Bits(v, w) => {
                assert(m1.byte_pos < m.bytes.len());
            },
            Field::Byte(v) => {},
            Field::Word(v) => {},
        }
    }
}

/// Number of bits a field of a shape takes.
pub open spec fn kind_bits(k: Kind) -> nat {
    match k {
        Kind::Bits(w) => w as nat,
        Kind::Byte => 8,
        Kind::Word => 16,
    }
}

/// Number of bits fields of the shapes take.
pub open spec fn kinds_bits(ks: Seq<Kind>) -> nat
    decreases ks.len(),
{
    if ks.len() == 0 {
        0
    } else {
        kinds_bits(ks.drop_last()) + kind_bits(ks.last())
    }
}

/// Whether field shapes are well formed (see [`fields_ok`]).
pub open spec fn kinds_ok(ks: Seq<Kind>) -> bool
    decreases ks.len(),
{
    ks.len() == 0 || (kinds_ok(ks.drop_last()) && match ks.last() {
        Kind::Bits(w) => 1 <= w < 8,
        _ => kinds_bits(ks.drop_last()) % 8 == 0,
    })
}

/// Well-shaped fields read from a byte boundary with room for them can be read, and the cursor
/// ends as many bits further as they take.
pub proof fn lemma_reads(m: CursorModel, ks: Seq<Kind>)
    requires
        !m.eof,
        m.bit_pos == 0,
        kinds_ok(ks),
        m.byte_pos + (kinds_bits(ks) + 7) / 8 <= m.bytes.len(),
        m.bytes.len() <= u16::MAX,
    ensures
        reads_fit(m, ks),
        reads_step(m, ks).1 is Ok,
        reads_step(m, ks).0.byte_pos == m.byte_pos + kinds_bits(ks) / 8,
        reads_step(m, ks).0.bit_pos == kinds_bits(ks) % 8,
        !reads_step(m, ks).0.eof,
        reads_step(m, ks).0.bytes == m.bytes,
    decreases ks.len(),
{
    if ks.len() > 0 {
        let p = ks.drop_last();
        lemma_reads(m, p);
        let m1 = reads_step(m, p).0;
        let b = kinds_bits(p);
        assert(m1.byte_pos == m.byte_pos + b / 8);
        match ks.last() {
            Kind::Bits(w) => {
                assert(m1.byte_pos < m.bytes.len());
            },
            _ => {},
        }
    }
}

/// Whether every shape is a bit field of 1 to 7 bits.
pub open spec fn bits_only(ks: Seq<Kind>) -> bool {
    forall|i: int| 0 <= i < ks.len() ==> (#[trigger] ks[i] matches Kind::Bits(w) && 1 <= w < 8)
}

/// Bit fields read from any bit offset with room for them can be read, and the cursor ends as
/// many bits further as they take.
pub proof fn lemma_bit_reads(m: CursorModel, ks: Seq<Kind>)
    requires
        !m.eof,
        m.bit_pos < 8,
        bits_only(ks),
        8 * m.byte_pos + m.bit_pos + kinds_bits(ks) <= 8 * m.bytes.len(),
        m.bytes.len() <= u16::MAX,
    ensures
        reads_fit(m, ks),
        reads_step(m, ks).1 is Ok,
        8 * reads_step(m, ks).0.byte_pos + reads_step(m, ks).0.bit_pos == 8 * m.byte_pos
            + m.bit_pos + kinds_bits(ks),
        reads_step(m, ks).0.bit_pos < 8,
        !reads_step(m, ks).0.eof,
        reads_step(m, ks).0.bytes == m.bytes,
    decreases ks.len(),
{
    if ks.len() > 0 {
        let p = ks.drop_last();
        assert forall|i: int| 0 <= i < p.len() implies (#[trigger] p[i] matches Kind::Bits(w) && 1
            <= w < 8) by {
            assert(p[i] == ks[i]);
        }
        assert(ks.last() == ks[ks.len() - 1]);
        lemma_bit_reads(m, p);
        let m1 = reads_step(m, p).0;
        if let Kind::Bits(w) = ks.last() {
            assert(8 * m1.byte_pos + m1.bit_pos + w <= 8 * m.bytes.len());
            assert(m1.byte_pos < m.bytes.len());
        }
    }
}

/// Number of whole bytes that fields of the shapes take, a partly used last byte counted.
pub fn kinds_bytes(ks: &Vec<Kind>) -> (r: usize)
    requires
        ks@.len() <= 64,
    ensures
        r == (kinds_bits(ks@) + 7) / 8,
        r <= 2048,
{
    (kinds_bit_count(ks) + 7) / 8
}

/// Number of bits that fields of the shapes take.
pub fn kinds_bit_count(ks: &Vec<Kind>) -> (r: usize)
    requires
        ks@.len() <= 64,
    ensures
        r == kinds_bits(ks@),
        r <= 16384,
{
    let mut bits: usize = 0;
    let mut i: usize = 0;
    while i < ks.len()
        invariant
            i <= ks@.len() <= 64,
            bits == kinds_bits(ks@.take(i as int)),
            bits <= 256 * i,
        decreases ks.len() - i,
    {
        let w: usize = match ks[i] {
            Kind::Bits(w) => w as usize,
            Kind::Byte => 8,
            Kind::Word => 16,
        };
        proof {
            assert(ks@.take(i + 1).drop_last() =~= ks@.take(i as int));
            assert(ks@.take(i + 1).last() == ks@[i as int]);
        }
        bits = bits + w;
        i += 1;
    }
    assert(ks@.take(ks@.len() as int) =~= ks@);
    bits
}

/// Whether shapes are well formed, and whether they are bit fields only, checked at run time.
pub fn kinds_shape(ks: &Vec<Kind>) -> (r: (bool, bool))
    requires
        ks@.len() <= 64,
    ensures
        r.0 == kinds_ok(ks@),
        r.1 == bits_only(ks@),
{
    let mut bits: usize = 0;
    let mut ok = true;
    let mut only = true;
    let mut i: usize = 0;
    while i < ks.len()
        invariant
            i <= ks@.len() <= 64,
            bits == kinds_bits(ks@.take(i as int)),
            bits <= 256 * i,
            ok == kinds_ok(ks@.take(i as int)),
            only == bits_only(ks@.take(i as int)),
        decreases ks.len() - i,
    {
        let k = ks[i];
        let (w, fits, is_bits): (usize, bool, bool) = match k {
            Kind::Bits(w) => (w as usize, 1 <= w && w < 8, true),
            Kind::Byte => (8, bits % 8 == 0, false),
            Kind::Word => (16, bits % 8 == 0, false),
        };
        proof {
            let t = ks@.take(i + 1);
            assert(t.drop_last() =~= ks@.take(i as int));
            assert(t.last() == ks@[i as int]);
            if only && k is Bits && fits {
                assert forall|j: int| 0 <= j < t.len() implies (#[trigger] t[j] matches Kind::Bits(
                    w,
                ) && 1 <= w < 8) by {
                    if j < i {
                        assert(t[j] == ks@.take(i as int)[j]);
                    }
                }
            }
            if !(only && k is Bits && fits) {
                if !only {
                    let j = choose|j: int| 0 <= j < i && !(#[trigger] ks@.take(i as int)[j] matches Kind::Bits(
                        w,
                    ) && 1 <= w < 8);
                    assert(t[j] == ks@.take(i as int)[j]);
                } else {
                    assert(t[i as int] == k);
                }
            }
        }
        ok = ok && fits;
        only = only && is_bits && fits;
        bits = bits + w;
        i += 1;
    }
    assert(ks@.take(ks@.len() as int) =~= ks@);
    (ok, only)
}

/// Reading fields keeps the bytes and never moves the cursor back.
pub proof fn lemma_reads_keep(m: CursorModel, ks: Seq<Kind>)
    ensures
        reads_step(m, ks).0.bytes == m.bytes,
        reads_step(m, ks).0.byte_pos >= m.byte_pos,
    decreases ks.len(),
{
    if ks.len() > 0 {
        lemma_reads_keep(m, ks.drop_last());
    }
}

} // verus!
