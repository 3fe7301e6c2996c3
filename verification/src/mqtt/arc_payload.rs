//! Payload bytes held in a shared, reference-counted buffer (plain struct form).
use crate::mqtt::common::shared_bytes::{arc_as_slice, arc_clone, arc_from_slice, arc_from_vec};
use std::sync::Arc;
use vstd::prelude::*;
use vstd::string::StringSliceAdditionalSpecFns;

verus! {

/// A slice view `[start, start + length)` of a shared byte buffer.
pub struct ArcPayload {
    data: Arc<[u8]>,
    start: usize,
    length: usize,
}

impl ArcPayload {
    #[verifier::type_invariant]
    spec fn inv(&self) -> bool {
        self.start + self.length <= (*self.data)@.len()
    }

    /// The payload bytes.
    pub closed spec fn bytes(&self) -> Seq<u8> {
        (*self.data)@.subrange(self.start as int, self.start + self.length)
    }

    /// The whole shared buffer.
    pub closed spec fn buffer(&self) -> Seq<u8> {
        (*self.data)@
    }

    /// A view of `length` bytes of `data` starting at `start`.
    pub fn new(data: Arc<[u8]>, start: usize, length: usize) -> (r: Self)
        requires
            start + length <= (*data)@.len(),
        ensures
            r.bytes() == (*data)@.subrange(start as int, start + length),
            r.buffer() == (*data)@,
    {
        ArcPayload { data, start, length }
    }

    /// The payload bytes.
    pub fn as_slice(&self) -> (r: &[u8])
        ensures
            r@ == self.bytes(),
    {
        proof {
            use_type_invariant(self);
        }
        let all = arc_as_slice(&self.data);
        let _n = all.len();
        vstd::slice::slice_subrange(all, self.start, self.start + self.length)
    }

    /// The number of payload bytes.
    pub fn len(&self) -> (r: usize)
        ensures
            r == self.bytes().len(),
    {
        proof {
            use_type_invariant(self);
        }
        self.length
    }

    /// Whether the payload is empty.
    pub fn is_empty(&self) -> (r: bool)
        ensures
            r == (self.bytes().len() == 0),
    {
        proof {
            use_type_invariant(self);
        }
        self.length == 0
    }

    /// The whole shared buffer, not just the viewed bytes.
    pub fn arc_data(&self) -> (r: &Arc<[u8]>)
        ensures
            (**r)@ == self.buffer(),
    {
        &self.data
    }
}

impl Clone for ArcPayload {
    fn clone(&self) -> (r: Self)
        ensures
            r.bytes() == self.bytes(),
            r.buffer() == self.buffer(),
    {
        proof {
            use_type_invariant(self);
        }
        ArcPayload { data: arc_clone(&self.data), start: self.start, length: self.length }
    }
}

impl Default for ArcPayload {
    fn default() -> (r: Self)
        ensures
            r.bytes() == Seq::<u8>::empty(),
    {
        ArcPayload { data: arc_from_vec(Vec::new()), start: 0, length: 0 }
    }
}

/// Values that can become a payload.
pub trait IntoPayload: Sized {
    /// The bytes the payload will hold.
    spec fn payload_bytes(&self) -> Seq<u8>;

    /// Converts the value into a payload holding [`Self::payload_bytes`].
    fn into_payload(self) -> (r: ArcPayload)
        ensures
            r.bytes() == self.payload_bytes(),
    ;
}

/// A payload holding a copy of `s`.
fn payload_of_slice(s: &[u8]) -> (r: ArcPayload)
    ensures
        r.bytes() == s@,
{
    let r = ArcPayload::new(arc_from_slice(s), 0, s.len());
    proof {
        assert(s@.subrange(0, s@.len() as int) =~= s@);
    }
    r
}

impl<'a> IntoPayload for &'a str {
    open spec fn payload_bytes(&self) -> Seq<u8> {
        (*self).spec_bytes()
    }

    fn into_payload(self) -> (r: ArcPayload) {
        payload_of_slice(self.as_bytes())
    }
}

impl IntoPayload for String {
    open spec fn payload_bytes(&self) -> Seq<u8> {
        vstd::utf8::encode_utf8(self@)
    }

    fn into_payload(self) -> (r: ArcPayload) {
        payload_of_slice(self.as_str().as_bytes())
    }
}

impl<'a> IntoPayload for &'a [u8] {
    open spec fn payload_bytes(&self) -> Seq<u8> {
        (*self)@
    }

    fn into_payload(self) -> (r: ArcPayload) {
        payload_of_slice(self)
    }
}

impl IntoPayload for Vec<u8> {
    open spec fn payload_bytes(&self) -> Seq<u8> {
        self@
    }

    fn into_payload(self) -> (r: ArcPayload) {
        let len = self.len();
        let ghost v = self@;
        let r = ArcPayload::new(arc_from_vec(self), 0, len);
        proof {
            assert(v.subrange(0, len as int) =~= v);
        }
        r
    }
}

impl<'a> IntoPayload for &'a Vec<u8> {
    open spec fn payload_bytes(&self) -> Seq<u8> {
        (*self)@
    }

    fn into_payload(self) -> (r: ArcPayload) {
        payload_of_slice(self.as_slice())
    }
}

impl<'a, const N: usize> IntoPayload for &'a [u8; N] {
    open spec fn payload_bytes(&self) -> Seq<u8> {
        (*self)@
    }

    fn into_payload(self) -> (r: ArcPayload) {
        payload_of_slice(self.as_slice())
    }
}

impl IntoPayload for Arc<[u8]> {
    open spec fn payload_bytes(&self) -> Seq<u8> {
        (**self)@
    }

    fn into_payload(self) -> (r: ArcPayload) {
        let len = arc_as_slice(&self).len();
        let ghost v = (*self)@;
        let r = ArcPayload::new(self, 0, len);
        proof {
            assert(v.subrange(0, len as int) =~= v);
        }
        r
    }
}

impl IntoPayload for () {
    open spec fn payload_bytes(&self) -> Seq<u8> {
        Seq::empty()
    }

    fn into_payload(self) -> (r: ArcPayload) {
        ArcPayload::default()
    }
}

impl IntoPayload for ArcPayload {
    open spec fn payload_bytes(&self) -> Seq<u8> {
        self.bytes()
    }

    fn into_payload(self) -> (r: ArcPayload) {
        self
    }
}

/// Every conversion into a payload keeps all the bytes of what it converts, in
/// order: a byte container's own bytes, the UTF-8 bytes of text, nothing for `()`,
/// and a payload's bytes for a payload.
pub proof fn lemma_into_payload_keeps_bytes(
    t: &str,
    st: String,
    s: &[u8],
    v: Vec<u8>,
    rv: &Vec<u8>,
    a: Arc<[u8]>,
    p: ArcPayload,
)
    ensures
        t.payload_bytes() == t.spec_bytes(),
        st.payload_bytes() == vstd::utf8::encode_utf8(st@),
        s.payload_bytes() == s@,
        v.payload_bytes() == v@ && v.payload_bytes().len() == v@.len(),
        rv.payload_bytes() == rv@,
        a.payload_bytes() == (*a)@,
        ().payload_bytes() == Seq::<u8>::empty(),
        p.payload_bytes() == p.bytes(),
{
}

/// Converting a byte array into a payload keeps all its bytes.
pub proof fn lemma_array_into_payload_keeps_bytes<const N: usize>(arr: &[u8; N])
    ensures
        arr.payload_bytes() == arr@,
{
}

} // verus!
