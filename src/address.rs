use vstd::prelude::*;

verus! {

/// Number of bytes of an account address.
pub const ADDRESS_BYTES_LEN: usize = 20;

/// Number of bytes of the digest an address is cut from.
pub const HASH_BYTES_LEN: usize = 32;

/// The network marker placed in the high nibble of an address's first byte.
pub const ADDRESS_MARKER: u8 = 0x10;

/// The address made of the low-order `ADDRESS_BYTES_LEN` bytes of `hash`,
/// with the high nibble of its first byte replaced by the network marker.
pub open spec fn address_of(hash: Seq<u8>) -> Seq<u8> {
    let tail = hash.subrange(HASH_BYTES_LEN - ADDRESS_BYTES_LEN, HASH_BYTES_LEN as int);
    tail.update(0, (tail[0] & 0x0f) | ADDRESS_MARKER)
}

/// Cuts an account address out of the 256-bit digest of a public key.
pub fn format_address(hash: &[u8; 32]) -> (r: [u8; 20])
    ensures
        r@ == address_of(hash@),
{
    let mut out: [u8; 20] = [0u8; 20];
    let mut i: usize = 0;
    while i < ADDRESS_BYTES_LEN
        invariant
            i <= ADDRESS_BYTES_LEN,
            out@.len() == ADDRESS_BYTES_LEN,
            hash@.len() == HASH_BYTES_LEN,
            forall|j: int| 0 <= j < i ==> out@[j] == hash@[HASH_BYTES_LEN - ADDRESS_BYTES_LEN + j],
        decreases ADDRESS_BYTES_LEN - i,
    {
        out[i] = hash[HASH_BYTES_LEN - ADDRESS_BYTES_LEN + i];
        i += 1;
    }
    out[0] = (out[0] & 0x0f) | ADDRESS_MARKER;
    assert(out@ =~= address_of(hash@));
    out
}

/// Every address is `ADDRESS_BYTES_LEN` bytes long, its first byte carries the
/// network marker in its high nibble, and it depends only on the low-order
/// bytes of the digest: equal digests, or digests that agree there, give the
/// same address.
pub proof fn lemma_address_marker(hash: Seq<u8>, other: Seq<u8>)
    requires
        hash.len() == HASH_BYTES_LEN,
        other.len() == HASH_BYTES_LEN,
    ensures
        address_of(hash).len() == ADDRESS_BYTES_LEN,
        address_of(hash)[0] >> 4u8 == ADDRESS_MARKER >> 4u8,
        hash.subrange(12, 32) == other.subrange(12, 32) ==> address_of(hash) == address_of(other),
{
    let b = hash[HASH_BYTES_LEN - ADDRESS_BYTES_LEN];
    assert(((b & 0x0f) | 0x10u8) >> 4u8 == 0x10u8 >> 4u8) by (bit_vector);
    assert(address_of(hash)[0] == (b & 0x0f) | ADDRESS_MARKER);
    if hash.subrange(12, 32) == other.subrange(12, 32) {
        assert(address_of(hash) =~= address_of(other));
    }
}

} // verus!
