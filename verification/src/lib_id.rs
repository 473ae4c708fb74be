//! Library identifiers: a tagged SHA-256 hash of a library's segments.

use vstd::prelude::*;

use crate::bytecode::{be16, lib_id_of};
use crate::bytestr::content;
use crate::library::{Lib, LibId};

verus! {

/// Midstate of the tagged SHA-256 hash that identifies libraries, after the 64 bytes of the
/// doubled tag hash.
pub const LIB_ID_MIDSTATE: [u8; 32] = [
    156, 224, 228, 230, 124, 17, 108, 57, 56, 179, 202, 242, 195, 15, 80, 137, 211, 243, 147, 108,
    71, 99, 110, 96, 125, 179, 62, 234, 221, 198, 240, 201,
];

/// SHA-256 digest of a message hashed on from a midstate reached after `prefix` bytes.
pub uninterp spec fn sha256_from_midstate_of(midstate: Seq<u8>, prefix: nat, msg: Seq<u8>) -> Seq<u8>;

/// Calls `bitcoin_hashes::sha256::HashEngine::from_midstate` on `midstate` and `prefix`, feeds
/// it `msg` and finishes it with `sha256::Hash::from_engine`. The contract claims that the
/// digest is 32 bytes and depends on the three arguments alone; it says nothing of the bytes
/// themselves. `from_midstate` panics unless `prefix` is a multiple of 64.
#[verifier::external_body]
fn sha256_from_midstate(midstate: &[u8; 32], prefix: usize, msg: &[u8]) -> (r: Vec<u8>)
    requires
        prefix % 64 == 0,
    ensures
        r@ == sha256_from_midstate_of(midstate@, prefix as nat, msg@),
        r@.len() == 32,
{
    let mid = bitcoin_hashes::sha256::Midstate::from_byte_array(*midstate);
    let mut engine = bitcoin_hashes::sha256::HashEngine::from_midstate(mid, prefix);
    bitcoin_hashes::HashEngine::input(&mut engine, msg);
    let hash = <bitcoin_hashes::sha256::Hash as bitcoin_hashes::Hash>::from_engine(engine);
    <bitcoin_hashes::sha256::Hash as bitcoin_hashes::Hash>::to_byte_array(hash).to_vec()
}

/// The bytes hashed into a library identifier: the length of the instruction set string in a
/// byte, that string, the code length in two bytes, the code, the data length in three bytes
/// and the data, lengths little-endian.
pub open spec fn lib_id_message(isae: Seq<u8>, code: Seq<u8>, data: Seq<u8>) -> Seq<u8> {
    seq![(isae.len() % 256) as u8] + isae + seq![(code.len() % 256) as u8, ((code.len() / 256)
        % 256) as u8] + code + seq![
        (data.len() % 256) as u8,
        ((data.len() / 256) % 256) as u8,
        ((data.len() / 65536) % 256) as u8,
    ] + data
}

/// Identifier of a library of the given instruction set string, code and data.
pub open spec fn lib_id_for(isae: Seq<u8>, code: Seq<u8>, data: Seq<u8>) -> LibId {
    lib_id_of(sha256_from_midstate_of(LIB_ID_MIDSTATE@, 64, lib_id_message(isae, code, data)))
}

/// Appends the bytes of a slice.
fn push_all(v: &mut Vec<u8>, s: &[u8])
    ensures
        final(v)@ == old(v)@ + s@,
{
    let ghost start = v@;
    let n = s.len();
    let mut i: usize = 0;
    while i < n
        invariant
            i <= n,
            n == s@.len(),
            v@ == start + s@.subrange(0, i as int),
        decreases n - i,
    {
        v.push(s[i]);
        i = i + 1;
        assert(v@ =~= start + s@.subrange(0, i as int));
    }
    assert(s@.subrange(0, n as int) =~= s@);
}

impl Lib {
    /// Identifier of the library: the tagged SHA-256 hash of the instruction set string `isae`,
    /// the code and the data, each after its length.
    pub fn id(&self, isae: &[u8]) -> (r: LibId)
        requires
            self.wf(),
        ensures
            r == lib_id_for(isae@, content(self.spec_code()@), self.spec_data()),
    {
        let code = self.code_segment();
        let data = self.data_segment();
        let mut msg: Vec<u8> = Vec::new();
        msg.push((isae.len() % 256) as u8);
        push_all(&mut msg, isae);
        let cl = code.len();
        msg.push((cl % 256) as u8);
        msg.push(((cl / 256) % 256) as u8);
        push_all(&mut msg, code.as_slice());
        let dl = data.len();
        msg.push((dl % 256) as u8);
        msg.push(((dl / 256) % 256) as u8);
        msg.push(((dl / 65536) % 256) as u8);
        push_all(&mut msg, data);
        assert(msg@ =~= lib_id_message(isae@, content(self.spec_code()@), self.spec_data()));
        let h = sha256_from_midstate(&LIB_ID_MIDSTATE, 64, msg.as_slice());
        let hi = be16(&h, 0);
        let lo = be16(&h, 16);
        LibId { hi, lo }
    }
}

} // verus!
