use vstd::prelude::*;

verus! {

/// Unsigned value of the big-endian byte string `b`.
pub open spec fn be_value(b: Seq<u8>) -> nat
    decreases b.len(),
{
    if b.len() == 0 {
        0
    } else {
        be_value(b.drop_last()) * 256 + b.last() as nat
    }
}

/// A signature component: 32 big-endian bytes holding a non-zero value.
pub open spec fn is_component(v: Seq<u8>) -> bool {
    &&& v.len() == 32
    &&& be_value(v) > 0
}

/// `v` without its leading zero bytes.
pub open spec fn strip_zeros(v: Seq<u8>) -> Seq<u8>
    decreases v.len(),
{
    if v.len() > 0 && v[0] == 0 {
        strip_zeros(v.drop_first())
    } else {
        v
    }
}

/// Content octets of the DER INTEGER holding the unsigned big-endian value `v`:
/// the shortest two's-complement form, so a zero byte is put in front of a
/// leading byte with its high bit set.
pub open spec fn der_uint(v: Seq<u8>) -> Seq<u8> {
    let m = strip_zeros(v);
    if m.len() == 0 {
        seq![0u8]
    } else if m[0] >= 0x80 {
        seq![0u8] + m
    } else {
        m
    }
}

/// A DER INTEGER: tag, one length byte, content.
pub open spec fn der_integer(v: Seq<u8>) -> Seq<u8> {
    seq![0x02u8, der_uint(v).len() as u8] + der_uint(v)
}

/// The DER encoding of the signature `(r, s)`: a SEQUENCE of two INTEGERs.
pub open spec fn der_signature(r: Seq<u8>, s: Seq<u8>) -> Seq<u8> {
    let body = der_integer(r) + der_integer(s);
    seq![0x30u8, body.len() as u8] + body
}

/// `b` is the DER encoding of a signature whose components are `r` and `s`.
pub open spec fn encodes_signature(b: Seq<u8>, r: Seq<u8>, s: Seq<u8>) -> bool {
    &&& is_component(r)
    &&& is_component(s)
    &&& b == der_signature(r, s)
}

/// The components that `b` encodes, if it is a well-formed signature.
pub open spec fn decoded_signature(b: Seq<u8>) -> Option<(Seq<u8>, Seq<u8>)> {
    if exists|r: Seq<u8>, s: Seq<u8>| encodes_signature(b, r, s) {
        Some(choose|r: Seq<u8>, s: Seq<u8>| encodes_signature(b, r, s))
    } else {
        None
    }
}

/// `b` is the strict DER encoding of the two 32-byte values `r` and `s`.
pub open spec fn is_der_pair(b: Seq<u8>, r: Seq<u8>, s: Seq<u8>) -> bool {
    &&& r.len() == 32
    &&& s.len() == 32
    &&& b == der_signature(r, s)
}

/// Relies on `k256::ecdsa::DerSignature::from_bytes`, which accepts exactly
/// the strict DER encodings of two unsigned integers of at most 32 value
/// bytes: one SEQUENCE with a minimal length, two minimal non-negative
/// INTEGERs, no trailing bytes. It puts no bound on the values themselves.
#[verifier::external_body]
fn is_strict_der(der: &[u8]) -> (ok: bool)
    ensures
        ok == exists|r: Seq<u8>, s: Seq<u8>| #[trigger] is_der_pair(der@, r, s),
{
    k256::ecdsa::DerSignature::from_bytes(der).is_ok()
}

/// The value is zero exactly when every byte is.
proof fn lemma_be_value_zero(v: Seq<u8>)
    ensures
        (be_value(v) == 0) == (forall|j: int| 0 <= j < v.len() ==> v[j] == 0),
    decreases v.len(),
{
    if v.len() > 0 {
        let d = v.drop_last();
        lemma_be_value_zero(d);
        if be_value(v) == 0 {
            assert forall|j: int| 0 <= j < v.len() implies v[j] == 0 by {
                if j < v.len() - 1 {
                    assert(v[j] == d[j]);
                }
            }
        }
        if forall|j: int| 0 <= j < v.len() ==> v[j] == 0 {
            assert forall|j: int| 0 <= j < d.len() implies d[j] == 0 by {
                assert(v[j] == d[j]);
            }
            assert(v[v.len() - 1] == 0);
        }
    }
}

/// Whether the 32-byte value `v` is non-zero.
fn is_nonzero(v: &[u8; 32]) -> (r: bool)
    ensures
        r == (be_value(v@) > 0),
{
    let mut i: usize = 0;
    while i < 32
        invariant
            i <= 32,
            v@.len() == 32,
            forall|j: int| 0 <= j < i ==> v@[j] == 0,
        decreases 32 - i,
    {
        if v[i] != 0 {
            proof {
                lemma_be_value_zero(v@);
                assert(v@[i as int] != 0);
            }
            return true;
        }
        i += 1;
    }
    proof {
        lemma_be_value_zero(v@);
    }
    false
}

/// Reads the INTEGER content octets `der[start..start + len]` back into the
/// 32-byte value `v` that they encode.
fn read_component(der: &[u8], start: usize, len: usize, Ghost(v): Ghost<Seq<u8>>) -> (r: [u8; 32])
    requires
        start + len <= der@.len(),
        v.len() == 32,
        der@.subrange(start as int, start + len) == der_uint(v),
    ensures
        r@ == v,
{
    proof {
        lemma_der_uint(v);
        lemma_strip_zeros(v);
    }
    let ghost seg = der@.subrange(start as int, start + len);
    let (from, n) = if len > 0 && der[start] == 0 {
        assert(der@.subrange(start + 1, start + len) =~= seg.drop_first());
        (start + 1, len - 1)
    } else {
        (start, len)
    };
    let ghost digits = strip_zeros(v);
    assert(der@.subrange(from as int, from + n) == digits);
    let total: usize = der.len();
    let pad: usize = 32 - n;
    let mut out: [u8; 32] = [0u8; 32];
    let mut i: usize = 0;
    while i < n
        invariant
            i <= n,
            pad + n == 32,
            from + n <= total,
            total == der@.len(),
            der@.subrange(from as int, from + n) == digits,
            out@.len() == 32,
            forall|j: int| 0 <= j < pad ==> out@[j] == 0,
            forall|j: int| 0 <= j < i ==> out@[pad + j] == digits[j],
        decreases n - i,
    {
        assert(der@[from + i] == digits[i as int]);
        out[pad + i] = der[from + i];
        i += 1;
    }
    assert(out@ =~= Seq::new(pad as nat, |j: int| 0u8) + digits);
    out
}

/// Decodes a DER-encoded ECDSA signature into its two 32-byte big-endian
/// components, each left-padded with zero bytes. On failure neither output
/// buffer is touched.
pub fn decode_der_sig(der_sig: &[u8], r_bytes: &mut [u8; 32], s_bytes: &mut [u8; 32]) -> (res:
    Result<(), &'static str>)
    ensures
        match decoded_signature(der_sig@) {
            Some((r, s)) => {
                &&& res == Ok::<(), &'static str>(())
                &&& final(r_bytes)@ == r
                &&& final(s_bytes)@ == s
            },
            None => {
                &&& res == Err::<(), &'static str>("der_sig decode failed")
                &&& *final(r_bytes) == *old(r_bytes)
                &&& *final(s_bytes) == *old(s_bytes)
            },
        },
{
    if !is_strict_der(der_sig) {
        proof {
            if decoded_signature(der_sig@) is Some {
                let (r, s) = choose|r: Seq<u8>, s: Seq<u8>| encodes_signature(der_sig@, r, s);
                assert(is_der_pair(der_sig@, r, s));
            }
        }
        return Err("der_sig decode failed");
    }
    let ghost (gr, gs) = choose|r: Seq<u8>, s: Seq<u8>| is_der_pair(der_sig@, r, s);
    proof {
        lemma_der_signature_fields(gr, gs);
        if decoded_signature(der_sig@) is Some {
            let (r, s) = choose|r: Seq<u8>, s: Seq<u8>| encodes_signature(der_sig@, r, s);
            lemma_der_signature_injective(gr, gs, r, s);
        }
    }
    let lr = der_sig[3] as usize;
    let r = read_component(der_sig, 4, lr, Ghost(gr));
    let s = read_component(der_sig, 6 + lr, der_sig.len() - (6 + lr), Ghost(gs));
    if !is_nonzero(&r) || !is_nonzero(&s) {
        return Err("der_sig decode failed");
    }
    assert(encodes_signature(der_sig@, gr, gs));
    *r_bytes = r;
    *s_bytes = s;
    Ok(())
}

/// `v` is its stripped form with the stripped zeros put back in front, and the
/// stripped form starts with a non-zero byte.
proof fn lemma_strip_zeros(v: Seq<u8>)
    ensures
        strip_zeros(v).len() <= v.len(),
        v == Seq::new((v.len() - strip_zeros(v).len()) as nat, |i: int| 0u8) + strip_zeros(v),
        strip_zeros(v).len() == 0 || strip_zeros(v)[0] != 0,
    decreases v.len(),
{
    if v.len() > 0 && v[0] == 0 {
        let d = v.drop_first();
        lemma_strip_zeros(d);
        let m = strip_zeros(v);
        let k = (v.len() - m.len()) as nat;
        let zd = Seq::new((k - 1) as nat, |i: int| 0u8);
        assert(d == zd + m);
        assert forall|i: int| 0 <= i < v.len() implies v[i] == (Seq::new(k, |j: int| 0u8) + m)[i] by {
            if i > 0 {
                assert(v[i] == d[i - 1]);
                assert(d[i - 1] == (zd + m)[i - 1]);
            }
        }
        assert(v =~= Seq::new(k, |i: int| 0u8) + m);
    } else {
        assert(v =~= Seq::new(0, |i: int| 0u8) + strip_zeros(v));
    }
}

/// The value bytes of an INTEGER's content octets: the leading zero byte, if
/// any, taken off.
spec fn uint_digits(u: Seq<u8>) -> Seq<u8> {
    if u.len() > 0 && u[0] == 0 {
        u.drop_first()
    } else {
        u
    }
}

proof fn lemma_der_uint(v: Seq<u8>)
    ensures
        uint_digits(der_uint(v)) == strip_zeros(v),
        1 <= der_uint(v).len() <= v.len() + 1,
{
    lemma_strip_zeros(v);
    let m = strip_zeros(v);
    if m.len() == 0 {
        assert(uint_digits(seq![0u8]) =~= m);
    } else if m[0] >= 0x80 {
        assert((seq![0u8] + m).drop_first() =~= m);
    }
}

/// Two byte strings of one length with the same INTEGER encoding are equal.
proof fn lemma_der_uint_injective(v: Seq<u8>, w: Seq<u8>)
    requires
        v.len() == w.len(),
        der_uint(v) == der_uint(w),
    ensures
        v == w,
{
    lemma_der_uint(v);
    lemma_der_uint(w);
    lemma_strip_zeros(v);
    lemma_strip_zeros(w);
}

/// The fields of an encoded signature sit where its length bytes say.
proof fn lemma_der_signature_fields(r: Seq<u8>, s: Seq<u8>)
    requires
        r.len() == 32,
        s.len() == 32,
    ensures
        ({
            let b = der_signature(r, s);
            &&& b.len() >= 6
            &&& b[0] == 0x30
            &&& b[1] as int == b.len() - 2
            &&& b[2] == 0x02
            &&& b[3] as int == der_uint(r).len() <= 33
            &&& 4 + b[3] + 2 <= b.len()
            &&& b.subrange(4, 4 + b[3]) == der_uint(r)
            &&& b.subrange(6 + b[3], b.len() as int) == der_uint(s)
        }),
{
    lemma_der_uint(r);
    lemma_der_uint(s);
    let b = der_signature(r, s);
    let ur = der_uint(r);
    let us = der_uint(s);
    assert(b =~= seq![0x30u8, (4 + ur.len() + us.len()) as u8, 0x02u8, ur.len() as u8] + ur + seq![
        0x02u8,
        us.len() as u8,
    ] + us);
    assert(b.subrange(4, 4 + b[3]) =~= ur);
    assert(b.subrange(6 + b[3], b.len() as int) =~= us);
}

/// A signature encoding determines its components.
proof fn lemma_der_signature_injective(r1: Seq<u8>, s1: Seq<u8>, r2: Seq<u8>, s2: Seq<u8>)
    requires
        r1.len() == 32,
        s1.len() == 32,
        r2.len() == 32,
        s2.len() == 32,
        der_signature(r1, s1) == der_signature(r2, s2),
    ensures
        r1 == r2,
        s1 == s2,
{
    lemma_der_signature_fields(r1, s1);
    lemma_der_signature_fields(r2, s2);
    lemma_der_uint_injective(r1, r2);
    lemma_der_uint_injective(s1, s2);
}

/// Decoding the DER encoding of two valid components gives back exactly those
/// components, each as 32 big-endian bytes.
pub proof fn lemma_decode_round_trip(r: Seq<u8>, s: Seq<u8>)
    requires
        is_component(r),
        is_component(s),
    ensures
        decoded_signature(der_signature(r, s)) == Some((r, s)),
{
    let b = der_signature(r, s);
    assert(encodes_signature(b, r, s));
    let (r2, s2) = choose|r2: Seq<u8>, s2: Seq<u8>| encodes_signature(b, r2, s2);
    lemma_der_signature_injective(r, s, r2, s2);
}

/// Every well-formed signature encoding starts with the SEQUENCE tag, gives
/// the length of the rest in its second byte, and holds no INTEGER field of
/// more than 33 content bytes (32 value bytes and a sign byte).
proof fn lemma_well_formed_shape(b: Seq<u8>)
    requires
        decoded_signature(b) is Some,
    ensures
        b.len() >= 6,
        b[0] == 0x30,
        b[1] as int == b.len() - 2,
        b[3] <= 33,
{
    let (r, s) = choose|r: Seq<u8>, s: Seq<u8>| encodes_signature(b, r, s);
    lemma_der_signature_fields(r, s);
}

/// A buffer that does not start with the SEQUENCE tag is rejected.
pub proof fn lemma_decode_rejects_wrong_tag(b: Seq<u8>)
    requires
        b.len() == 0 || b[0] != 0x30,
    ensures
        decoded_signature(b) is None,
{
    if decoded_signature(b) is Some {
        lemma_well_formed_shape(b);
    }
}

/// A buffer whose length disagrees with its length byte, because it was cut
/// short or carries trailing bytes, is rejected.
pub proof fn lemma_decode_rejects_bad_length(b: Seq<u8>)
    requires
        b.len() < 2 || b[1] as int != b.len() - 2,
    ensures
        decoded_signature(b) is None,
{
    if decoded_signature(b) is Some {
        lemma_well_formed_shape(b);
    }
}

/// A buffer whose first INTEGER field is wider than 32 value bytes is rejected.
pub proof fn lemma_decode_rejects_wide_integer(b: Seq<u8>)
    requires
        b.len() > 3,
        b[3] > 33,
    ensures
        decoded_signature(b) is None,
{
    if decoded_signature(b) is Some {
        lemma_well_formed_shape(b);
    }
}

} // verus!
