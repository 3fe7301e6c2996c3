//! MQTT Variable Byte Integer: 7 bits per byte, least significant group first, the
//! high bit of a byte set when another byte follows.
use crate::mqtt::result_code::MqttError;
use vstd::prelude::*;

verus! {

/// The largest value a Variable Byte Integer can hold (four bytes).
pub const VBI_MAX: u32 = 268435455;

/// The encoding of `v`.
pub open spec fn vbi_encode(v: nat) -> Seq<u8>
    decreases v,
{
    if v < 128 {
        seq![v as u8]
    } else {
        seq![(v % 128 + 128) as u8] + vbi_encode(v / 128)
    }
}

/// The value of the 7-bit groups of `s`, least significant group first.
pub open spec fn vbi_digits(s: Seq<u8>) -> nat
    decreases s.len(),
{
    if s.len() == 0 {
        0
    } else {
        (s[0] % 128) as nat + 128 * vbi_digits(s.drop_first())
    }
}

/// Whether `s` is a complete encoding: every byte but the last has the high bit set.
pub open spec fn vbi_well_formed(s: Seq<u8>) -> bool {
    &&& s.len() >= 1
    &&& s.last() < 128
    &&& forall|i: int| 0 <= i < s.len() - 1 ==> #[trigger] s[i] >= 128
}

/// The encoding is well formed and its digits give the value back.
pub proof fn lemma_vbi_encode(v: nat)
    ensures
        vbi_well_formed(vbi_encode(v)),
        vbi_digits(vbi_encode(v)) == v,
        vbi_encode(v).len() == (if v < 128 { 1int } else if v < 16384 { 2int } else if v
            < 2097152 { 3int } else if v < 268435456 { 4int } else { vbi_encode(v).len() as int }),
    decreases v,
{
    if v < 128 {
        assert(vbi_encode(v).drop_first() =~= Seq::<u8>::empty());
        assert(vbi_digits(Seq::<u8>::empty()) == 0);
        assert(vbi_digits(vbi_encode(v)) == (v % 128) as nat + 128 * vbi_digits(vbi_encode(v).drop_first()));
    } else {
        lemma_vbi_encode(v / 128);
        let s = vbi_encode(v);
        let t = vbi_encode(v / 128);
        assert(s.drop_first() =~= t);
        assert(s[0] == (v % 128 + 128) as u8);
        assert((v % 128 + 128) % 128 == v % 128);
        assert(v == 128 * (v / 128) + v % 128);
        assert(s[0] % 128 == v % 128);
        assert(vbi_digits(s) == (s[0] % 128) as nat + 128 * vbi_digits(s.drop_first()));
        assert(vbi_digits(t) == v / 128);
        assert forall|i: int| 0 <= i < s.len() - 1 implies #[trigger] s[i] >= 128 by {
            if i > 0 {
                assert(s[i] == t[i - 1]);
            }
        }
    }
}

/// An MQTT Variable Byte Integer together with its wire form.
#[derive(Debug, PartialEq, Eq)]
pub struct VariableByteInteger {
    value: u32,
    encoded: Vec<u8>,
}

impl VariableByteInteger {
    /// The value and its wire form agree.
    pub closed spec fn wf(&self) -> bool {
        &&& self.value <= VBI_MAX
        &&& self.encoded@ == vbi_encode(self.value as nat)
    }

    /// The encoded value.
    pub closed spec fn value(&self) -> nat {
        self.value as nat
    }

    /// The wire form.
    pub closed spec fn bytes(&self) -> Seq<u8> {
        self.encoded@
    }

    /// A well-formed integer's wire form is the encoding of its value.
    pub proof fn lemma_wf(&self)
        requires
            self.wf(),
        ensures
            self.bytes() == vbi_encode(self.value()),
            self.value() <= VBI_MAX,
    {
    }

    /// Encodes `v`; `None` when it exceeds the four-byte maximum.
    pub fn from_u32(v: u32) -> (r: Option<Self>)
        ensures
            r is Some <==> v <= VBI_MAX,
            r matches Some(x) ==> x.wf() && x.value() == v && x.bytes() == vbi_encode(v as nat),
    {
        if v > VBI_MAX {
            return None;
        }
        let mut encoded: Vec<u8> = Vec::new();
        let mut rest: u32 = v;
        while rest >= 128
            invariant
                rest <= VBI_MAX,
                encoded@ + vbi_encode(rest as nat) == vbi_encode(v as nat),
            decreases rest,
        {
            let ghost old_enc = encoded@;
            encoded.push((rest % 128 + 128) as u8);
            proof {
                assert(vbi_encode(rest as nat) == seq![(rest % 128 + 128) as u8] + vbi_encode(
                    (rest / 128) as nat,
                ));
                assert(encoded@ + vbi_encode((rest / 128) as nat) =~= old_enc + vbi_encode(
                    rest as nat,
                ));
            }
            rest = rest / 128;
        }
        encoded.push(rest as u8);
        proof {
            assert(encoded@ =~= vbi_encode(v as nat));
        }
        Some(Self { value: v, encoded })
    }

    /// Encodes a value known to fit.
    pub fn from_value(v: u32) -> (r: Self)
        requires
            v <= VBI_MAX,
        ensures
            r.wf(),
            r.value() == v,
            r.bytes() == vbi_encode(v as nat),
    {
        match Self::from_u32(v) {
            Some(x) => x,
            None => {
                proof {
                    assert(false);
                }
                Self { value: 0, encoded: Vec::new() }
            },
        }
    }

    /// The value.
    pub fn to_u32(&self) -> (r: u32)
        requires
            self.wf(),
        ensures
            r == self.value(),
            r <= VBI_MAX,
    {
        self.value
    }

    /// The number of bytes of the wire form.
    pub fn size(&self) -> (r: usize)
        requires
            self.wf(),
        ensures
            r == self.bytes().len(),
            r == vbi_encode(self.value()).len(),
            1 <= r <= 4,
    {
        proof {
            lemma_vbi_encode(self.value());
        }
        self.encoded.len()
    }

    /// The wire form.
    pub fn as_bytes(&self) -> (r: &[u8])
        requires
            self.wf(),
        ensures
            r@ == self.bytes(),
            r@ == vbi_encode(self.value()),
    {
        self.encoded.as_slice()
    }

    /// Decodes a Variable Byte Integer from the start of `data`, returning it and
    /// the number of bytes it takes. Fails with `MalformedPacket` when `data` ends
    /// before the last byte or when more than four bytes would be needed.
    pub fn decode(data: &[u8]) -> (r: Result<(Self, usize), MqttError>)
        ensures
            match r {
                Ok((x, n)) => {
                    &&& x.wf()
                    &&& 1 <= n <= 4
                    &&& n <= data@.len()
                    &&& vbi_well_formed(data@.subrange(0, n as int))
                    &&& x.value() == vbi_digits(data@.subrange(0, n as int))
                },
                Err(e) => {
                    &&& e == MqttError::MalformedPacket
                    &&& forall|n: int| 1 <= n <= 4 && n <= data@.len() ==> !vbi_well_formed(
                        #[trigger] data@.subrange(0, n),
                    )
                },
            },
    {
        let mut value: u32 = 0;
        let mut multiplier: u32 = 1;
        let mut i: usize = 0;
        while i < 4 && i < data.len()
            invariant
                0 <= i <= 4,
                i <= data@.len(),
                i < 4 ==> multiplier == pow128(i as nat),
                value == vbi_digits(data@.subrange(0, i as int)),
                value < pow128(i as nat),
                forall|j: int| 0 <= j < i ==> #[trigger] data@[j] >= 128,
            decreases 4 - i,
        {
            let b = data[i];
            proof {
                lemma_vbi_digits_append(data@.subrange(0, i as int), b);
                assert(data@.subrange(0, i as int + 1) =~= data@.subrange(0, i as int).push(b));
                reveal_with_fuel(pow128, 5);
                assert(pow128(i as nat) <= 2097152);
                let c = (b % 128) as nat;
                let m = multiplier as nat;
                assert(c * m <= 127 * 2097152) by (nonlinear_arith)
                    requires
                        c <= 127,
                        m <= 2097152,
                ;
                assert(value + c * m < 128 * m) by (nonlinear_arith)
                    requires
                        c <= 127,
                        value < m,
                ;
            }
            value = value + ((b % 128) as u32) * multiplier;
            if b < 128 {
                let ghost pre = data@.subrange(0, i + 1);
                let x = VariableByteInteger::from_u32(value);
                match x {
                    Some(x) => {
                        proof {
                            assert forall|j: int| 0 <= j < pre.len() - 1 implies #[trigger] pre[j] >= 128 by {
                                assert(pre[j] == data@[j]);
                            }
                        }
                        return Ok((x, i + 1));
                    },
                    None => {
                        return Err(MqttError::MalformedPacket);
                    },
                }
            }
            if i < 3 {
                multiplier = multiplier * 128;
            }
            i = i + 1;
        }
        proof {
            assert forall|n: int| 1 <= n <= 4 && n <= data@.len() implies !vbi_well_formed(
                #[trigger] data@.subrange(0, n),
            ) by {
                assert(data@.subrange(0, n).last() == data@[n - 1]);
            }
        }
        Err(MqttError::MalformedPacket)
    }
}

impl Clone for VariableByteInteger {
    fn clone(&self) -> (r: Self)
        ensures
            self.wf() ==> r.wf() && r.value() == self.value() && r.bytes() == self.bytes(),
    {
        if self.value <= VBI_MAX {
            Self::from_value(self.value)
        } else {
            Self { value: self.value, encoded: Vec::new() }
        }
    }
}

/// `128` raised to `n`.
pub open spec fn pow128(n: nat) -> nat
    decreases n,
{
    if n == 0 {
        1
    } else {
        128 * pow128((n - 1) as nat)
    }
}

/// Appending a byte adds its low 7 bits at the next power of 128.
pub proof fn lemma_vbi_digits_append(s: Seq<u8>, b: u8)
    ensures
        vbi_digits(s.push(b)) == vbi_digits(s) + (b % 128) as nat * pow128(s.len()),
    decreases s.len(),
{
    if s.len() == 0 {
        assert(s.push(b).drop_first() =~= Seq::<u8>::empty());
        assert(vbi_digits(Seq::<u8>::empty()) == 0);
        assert(s.push(b)[0] == b);
        assert(vbi_digits(s.push(b)) == (b % 128) as nat + 128 * vbi_digits(s.push(b).drop_first()));
        assert(pow128(0) == 1);
    } else {
        lemma_vbi_digits_append(s.drop_first(), b);
        assert(s.push(b).drop_first() =~= s.drop_first().push(b));
        assert(s.push(b)[0] == s[0]);
        let x = vbi_digits(s.drop_first());
        let p = pow128((s.len() - 1) as nat);
        assert(pow128(s.len()) == 128 * p);
        let c = (b % 128) as nat;
        assert(128 * (x + c * p) == 128 * x + c * (128 * p)) by (nonlinear_arith);
        assert(vbi_digits(s.drop_first().push(b)) == x + c * p);
        assert(vbi_digits(s.push(b)) == (s[0] % 128) as nat + 128 * vbi_digits(s.drop_first().push(b)));
        assert(vbi_digits(s) == (s[0] % 128) as nat + 128 * x);
    }
}

} // verus!
