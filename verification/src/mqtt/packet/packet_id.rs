//! Packet identifier types and their big-endian wire encoding.
use vstd::prelude::*;

verus! {

/// The `width` lowest base-256 digits of `v`, most significant first.
pub open spec fn be_bytes(v: nat, width: nat) -> Seq<u8>
    decreases width,
{
    if width == 0 {
        Seq::empty()
    } else {
        be_bytes(v / 256, (width - 1) as nat).push((v % 256) as u8)
    }
}

/// The number whose big-endian base-256 digits are `s`.
pub open spec fn be_value(s: Seq<u8>) -> nat
    decreases s.len(),
{
    if s.len() == 0 {
        0
    } else {
        be_value(s.drop_last()) * 256 + s.last() as nat
    }
}

/// `256` raised to `width`.
pub open spec fn pow256(width: nat) -> nat
    decreases width,
{
    if width == 0 {
        1
    } else {
        256 * pow256((width - 1) as nat)
    }
}

/// Encoding a value that fits in `width` bytes and decoding it gives the value back.
pub proof fn lemma_be_roundtrip(v: nat, width: nat)
    requires
        v < pow256(width),
    ensures
        be_bytes(v, width).len() == width,
        be_value(be_bytes(v, width)) == v,
    decreases width,
{
    if width > 0 {
        assert(v / 256 < pow256((width - 1) as nat)) by (nonlinear_arith)
            requires
                v < 256 * pow256((width - 1) as nat),
        ;
        lemma_be_roundtrip(v / 256, (width - 1) as nat);
        let s = be_bytes(v, width);
        assert(s.drop_last() =~= be_bytes(v / 256, (width - 1) as nat));
    }
}

/// Decoding `s` and encoding the result with `s.len()` digits gives `s` back.
pub proof fn lemma_be_value_roundtrip(s: Seq<u8>)
    ensures
        be_value(s) < pow256(s.len()),
        be_bytes(be_value(s), s.len()) =~= s,
    decreases s.len(),
{
    if s.len() > 0 {
        lemma_be_value_roundtrip(s.drop_last());
        let p = be_value(s.drop_last());
        let w = (s.len() - 1) as nat;
        assert(p * 256 + s.last() < 256 * pow256(w)) by (nonlinear_arith)
            requires
                p < pow256(w),
                s.last() < 256,
        ;
        assert((p * 256 + s.last() as nat) / 256 == p) by (nonlinear_arith)
            requires
                s.last() < 256,
        ;
        assert((p * 256 + s.last() as nat) % 256 == s.last()) by (nonlinear_arith)
            requires
                s.last() < 256,
        ;
        assert(s =~= s.drop_last().push(s.last()));
    }
}

/// Every byte of `s` is zero.
pub open spec fn all_zero(s: Seq<u8>) -> bool {
    forall|i: int| 0 <= i < s.len() ==> #[trigger] s[i] == 0
}

/// A big-endian number is zero exactly when all its bytes are.
pub proof fn lemma_be_value_zero(s: Seq<u8>)
    ensures
        be_value(s) == 0 <==> all_zero(s),
    decreases s.len(),
{
    if s.len() > 0 {
        lemma_be_value_zero(s.drop_last());
        if all_zero(s) {
            assert(all_zero(s.drop_last())) by {
                assert forall|i: int| 0 <= i < s.drop_last().len() implies #[trigger] s.drop_last()[i] == 0 by {
                    assert(s[i] == 0);
                }
            }
            assert(s.last() == s[s.len() - 1]);
        }
        if be_value(s) == 0 {
            assert(be_value(s.drop_last()) == 0);
            assert forall|i: int| 0 <= i < s.len() implies #[trigger] s[i] == 0 by {
                if i < s.len() - 1 {
                    assert(s.drop_last()[i] == 0);
                }
            }
        }
    }
}

/// Whether the first `n` bytes of `data` are all zero.
pub fn leading_bytes_zero(data: &[u8], n: usize) -> (r: bool)
    requires
        n <= data@.len(),
    ensures
        r == all_zero(data@.subrange(0, n as int)),
{
    let mut i: usize = 0;
    while i < n
        invariant
            i <= n <= data@.len(),
            all_zero(data@.subrange(0, i as int)),
        decreases n - i,
    {
        if data[i] != 0 {
            proof {
                assert(data@.subrange(0, n as int)[i as int] == data@[i as int]);
            }
            return false;
        }
        i = i + 1;
        proof {
            assert forall|j: int| 0 <= j < i implies #[trigger] data@.subrange(0, i as int)[j] == 0 by {
                if j < i - 1 {
                    assert(data@.subrange(0, i - 1)[j] == 0);
                }
            }
        }
    }
    true
}

/// The two powers used by identifier widths.
pub proof fn lemma_pow256_values()
    ensures
        pow256(2) == 65536,
        pow256(4) == 4294967296,
{
    reveal_with_fuel(pow256, 5);
}

/// Types usable as MQTT packet identifiers (`u16` as standardised, `u32` for
/// broker clusters).
pub trait IsPacketId: Copy + Sized {
    /// The numeric value of the identifier.
    spec fn id_value(&self) -> nat;

    /// The number of bytes the identifier occupies on the wire.
    spec fn id_width() -> nat;

    /// The number of bytes of the wire form.
    fn width() -> (r: usize)
        ensures
            r == Self::id_width(),
    ;

    /// The largest identifier value.
    fn max_id() -> (r: Self)
        ensures
            r.id_value() == pow256(Self::id_width()) - 1,
    ;

    /// The value as a `u32`.
    fn to_u32(&self) -> (r: u32)
        ensures
            r == self.id_value(),
    ;

    /// The identifier with value `v`.
    fn from_u32(v: u32) -> (r: Self)
        requires
            v < pow256(Self::id_width()),
        ensures
            r.id_value() == v,
    ;

    /// Big-endian wire form of the identifier.
    fn to_buffer(&self) -> (r: Vec<u8>)
        ensures
            r@ == be_bytes(self.id_value(), Self::id_width()),
    ;

    /// Reads an identifier from the first `width` bytes of `buf`; zero when `buf`
    /// is shorter.
    fn from_buffer(buf: &[u8]) -> (r: Self)
        ensures
            buf@.len() >= Self::id_width() ==> r.id_value() == be_value(
                buf@.subrange(0, Self::id_width() as int),
            ),
            buf@.len() < Self::id_width() ==> r.id_value() == 0,
    ;

    /// Identifiers are two or four bytes wide.
    proof fn lemma_width()
        ensures
            Self::id_width() == 2 || Self::id_width() == 4,
    ;

    /// Facts that hold of every identifier type.
    proof fn lemma_id_facts(a: Self, b: Self)
        ensures
            Self::id_width() == 2 || Self::id_width() == 4,
            a.id_value() < pow256(Self::id_width()),
            a.id_value() == b.id_value() ==> a == b,
    ;
}

impl IsPacketId for u16 {
    open spec fn id_value(&self) -> nat {
        *self as nat
    }

    open spec fn id_width() -> nat {
        2
    }

    fn width() -> (r: usize) {
        2
    }

    fn max_id() -> (r: Self) {
        proof {
            lemma_pow256_values();
        }
        65535
    }

    fn to_u32(&self) -> (r: u32) {
        *self as u32
    }

    fn from_u32(v: u32) -> (r: Self) {
        proof {
            lemma_pow256_values();
        }
        v as u16
    }

    fn to_buffer(&self) -> (r: Vec<u8>) {
        let hi = (*self / 256) as u8;
        let lo = (*self % 256) as u8;
        let mut v = Vec::new();
        v.push(hi);
        v.push(lo);
        proof {
            reveal_with_fuel(be_bytes, 3);
            assert(v@ =~= be_bytes(self.id_value(), 2));
        }
        v
    }

    fn from_buffer(buf: &[u8]) -> (r: Self) {
        if buf.len() >= 2 {
            let r = (buf[0] as u16) * 256 + (buf[1] as u16);
            proof {
                reveal_with_fuel(be_value, 3);
                let s = buf@.subrange(0, 2);
                assert(s.drop_last().drop_last() =~= Seq::<u8>::empty());
                assert(s.drop_last().last() == buf@[0]);
            }
            r
        } else {
            0
        }
    }

    proof fn lemma_width() {
    }

    proof fn lemma_id_facts(a: Self, b: Self) {
        lemma_pow256_values();
    }
}

impl IsPacketId for u32 {
    open spec fn id_value(&self) -> nat {
        *self as nat
    }

    open spec fn id_width() -> nat {
        4
    }

    fn width() -> (r: usize) {
        4
    }

    fn max_id() -> (r: Self) {
        proof {
            lemma_pow256_values();
        }
        4294967295
    }

    fn to_u32(&self) -> (r: u32) {
        *self
    }

    fn from_u32(v: u32) -> (r: Self) {
        v
    }

    fn to_buffer(&self) -> (r: Vec<u8>) {
        let x = *self;
        let b0 = (x / 16777216) as u8;
        let b1 = ((x / 65536) % 256) as u8;
        let b2 = ((x / 256) % 256) as u8;
        let b3 = (x % 256) as u8;
        let mut v = Vec::new();
        v.push(b0);
        v.push(b1);
        v.push(b2);
        v.push(b3);
        proof {
            reveal_with_fuel(be_bytes, 5);
            let n = x as nat;
            assert(n / 256 / 256 == n / 65536);
            assert(n / 256 / 256 / 256 == n / 16777216);
            assert(n / 256 / 256 / 256 % 256 == n / 16777216);
            assert(v@ =~= be_bytes(self.id_value(), 4));
        }
        v
    }

    fn from_buffer(buf: &[u8]) -> (r: Self) {
        if buf.len() >= 4 {
            let r = (buf[0] as u32) * 16777216 + (buf[1] as u32) * 65536 + (buf[2] as u32) * 256
                + (buf[3] as u32);
            proof {
                reveal_with_fuel(be_value, 5);
                let s = buf@.subrange(0, 4);
                assert(s.drop_last().drop_last().drop_last().drop_last() =~= Seq::<u8>::empty());
                assert(s.drop_last().drop_last().drop_last().last() == buf@[0]);
                assert(s.drop_last().drop_last().last() == buf@[1]);
                assert(s.drop_last().last() == buf@[2]);
            }
            r
        } else {
            0
        }
    }

    proof fn lemma_width() {
    }

    proof fn lemma_id_facts(a: Self, b: Self) {
        lemma_pow256_values();
    }
}

} // verus!
