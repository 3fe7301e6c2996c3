//! Payload bytes held in a shared, reference-counted buffer.
use crate::mqtt::common::shared_bytes::{arc_as_slice, arc_from_slice, arc_from_vec};
use std::sync::Arc;
use vstd::prelude::*;
use vstd::string::StringSliceAdditionalSpecFns;

verus! {

broadcast use vstd::array::group_array_axioms;

/// A slice view `[start, start + length)` of a shared byte buffer.
///
/// Copies share the buffer instead of the bytes.
#[derive(Clone)]
pub enum ArcPayload {
    /// A view into a shared buffer.
    Large { data: Arc<[u8]>, start: usize, length: usize },
}

impl ArcPayload {
    /// The view lies inside the buffer.
    pub open spec fn wf(&self) -> bool {
        match self {
            ArcPayload::Large { data, start, length } => *start + *length <= (**data)@.len(),
        }
    }

    /// The payload bytes.
    pub open spec fn bytes(&self) -> Seq<u8> {
        match self {
            ArcPayload::Large { data, start, length } => (**data)@.subrange(
                *start as int,
                *start + *length,
            ),
        }
    }

    /// A view of `length` bytes of `data` starting at `start`.
    pub fn new(data: Arc<[u8]>, start: usize, length: usize) -> (r: Self)
        requires
            start + length <= (*data)@.len(),
        ensures
            r.wf(),
            r.bytes() == (*data)@.subrange(start as int, start + length),
    {
        ArcPayload::Large { data, start, length }
    }

    /// The payload bytes.
    pub fn as_slice(&self) -> (r: &[u8])
        requires
            self.wf(),
        ensures
            r@ == self.bytes(),
    {
        match self {
            ArcPayload::Large { data, start, length } => {
                let all = arc_as_slice(data);
                let _n = all.len();
                vstd::slice::slice_subrange(all, *start, *start + *length)
            },
        }
    }

    /// The number of payload bytes.
    pub fn len(&self) -> (r: usize)
        requires
            self.wf(),
        ensures
            r == self.bytes().len(),
    {
        match self {
            ArcPayload::Large { length, .. } => *length,
        }
    }

    /// Whether the payload is empty.
    pub fn is_empty(&self) -> (r: bool)
        requires
            self.wf(),
        ensures
            r == (self.bytes().len() == 0),
    {
        self.len() == 0
    }

    /// The shared buffer the payload is a view of.
    pub fn arc_data(&self) -> (r: Option<&Arc<[u8]>>)
        ensures
            r matches Some(a) && self matches ArcPayload::Large { data, .. } && *a == data,
    {
        match self {
            ArcPayload::Large { data, .. } => Some(data),
        }
    }
}

impl Default for ArcPayload {
    fn default() -> (r: Self)
        ensures
            r.wf(),
            r.bytes() == Seq::<u8>::empty(),
    {
        let data = arc_from_vec(Vec::new());
        ArcPayload::Large { data, start: 0, length: 0 }
    }
}

/// Values that can become a payload.
pub trait IntoPayload: Sized {
    /// The bytes the payload will hold.
    spec fn payload_bytes(&self) -> Seq<u8>;

    /// Whether the value can be converted.
    spec fn payload_ok(&self) -> bool;

    /// Converts the value into a payload holding [`Self::payload_bytes`].
    fn into_payload(self) -> (r: ArcPayload)
        requires
            self.payload_ok(),
        ensures
            r.wf(),
            r.bytes() == self.payload_bytes(),
    ;
}

impl<'a> IntoPayload for &'a str {
    open spec fn payload_bytes(&self) -> Seq<u8> {
        (*self).spec_bytes()
    }

    open spec fn payload_ok(&self) -> bool {
        true
    }

    fn into_payload(self) -> (r: ArcPayload) {
        let bytes = self.as_bytes();
        let r = ArcPayload::Large { data: arc_from_slice(bytes), start: 0, length: bytes.len() };
        proof {
            assert(bytes@.subrange(0, bytes@.len() as int) =~= bytes@);
        }
        r
    }
}

impl IntoPayload for String {
    open spec fn payload_bytes(&self) -> Seq<u8> {
        vstd::utf8::encode_utf8(self@)
    }

    open spec fn payload_ok(&self) -> bool {
        true
    }

    fn into_payload(self) -> (r: ArcPayload) {
        let bytes = self.as_str().as_bytes();
        let r = ArcPayload::Large { data: arc_from_slice(bytes), start: 0, length: bytes.len() };
        proof {
            assert(bytes@.subrange(0, bytes@.len() as int) =~= bytes@);
        }
        r
    }
}

impl<'a> IntoPayload for &'a [u8] {
    open spec fn payload_bytes(&self) -> Seq<u8> {
        (*self)@
    }

    open spec fn payload_ok(&self) -> bool {
        true
    }

    fn into_payload(self) -> (r: ArcPayload) {
        let r = ArcPayload::Large { data: arc_from_slice(self), start: 0, length: self.len() };
        proof {
            assert(self@.subrange(0, self@.len() as int) =~= self@);
        }
        r
    }
}

impl IntoPayload for Vec<u8> {
    open spec fn payload_bytes(&self) -> Seq<u8> {
        self@
    }

    open spec fn payload_ok(&self) -> bool {
        true
    }

    fn into_payload(self) -> (r: ArcPayload) {
        let len = self.len();
        let ghost v = self@;
        let r = ArcPayload::Large { data: arc_from_vec(self), start: 0, length: len };
        proof {
            assert(v.subrange(0, len as int) =~= v);
        }
        r
    }
}

impl<'a> IntoPayload for &'a Vec<u8> {
    open spec fn payload_bytes(&self) -> Seq<u8> {
        (*self)@
    }

    open spec fn payload_ok(&self) -> bool {
        true
    }

    fn into_payload(self) -> (r: ArcPayload) {
        let slice = self.as_slice();
        let r = ArcPayload::Large { data: arc_from_slice(slice), start: 0, length: slice.len() };
        proof {
            assert(slice@.subrange(0, slice@.len() as int) =~= slice@);
        }
        r
    }
}

impl<'a, const N: usize> IntoPayload for &'a [u8; N] {
    open spec fn payload_bytes(&self) -> Seq<u8> {
        (*self)@
    }

    open spec fn payload_ok(&self) -> bool {
        true
    }

    fn into_payload(self) -> (r: ArcPayload) {
        let slice = self.as_slice();
        let r = ArcPayload::Large { data: arc_from_slice(slice), start: 0, length: slice.len() };
        proof {
            assert(slice@.subrange(0, slice@.len() as int) =~= slice@);
        }
        r
    }
}

impl IntoPayload for Arc<[u8]> {
    open spec fn payload_bytes(&self) -> Seq<u8> {
        (**self)@
    }

    open spec fn payload_ok(&self) -> bool {
        true
    }

    fn into_payload(self) -> (r: ArcPayload) {
        let len = arc_as_slice(&self).len();
        let ghost v = (*self)@;
        let r = ArcPayload::Large { data: self, start: 0, length: len };
        proof {
            assert(v.subrange(0, len as int) =~= v);
        }
        r
    }
}

impl IntoPayload for () {
    open spec fn payload_bytes(&self) -> Seq<u8> {
        Seq::empty()
    }

    open spec fn payload_ok(&self) -> bool {
        true
    }

    fn into_payload(self) -> (r: ArcPayload) {
        ArcPayload::default()
    }
}

impl IntoPayload for ArcPayload {
    open spec fn payload_bytes(&self) -> Seq<u8> {
        self.bytes()
    }

    open spec fn payload_ok(&self) -> bool {
        self.wf()
    }

    fn into_payload(self) -> (r: ArcPayload) {
        self
    }
}

/// Every conversion into a payload keeps all the bytes of what it converts, in
/// order, and accepts any value: a byte container's own bytes, the UTF-8 bytes of
/// text, nothing for `()`, and a payload's bytes for a (well-formed) payload.
pub proof fn lemma_into_payload_keeps_bytes(
    t: &str,
    st: String,
    s: &[u8],
    v: Vec<u8>,
    rv: &Vec<u8>,
    a: Arc<[u8]>,
    p: ArcPayload,
)
    ensures
        t.payload_ok() && t.payload_bytes() == t.spec_bytes(),
        st.payload_ok() && st.payload_bytes() == vstd::utf8::encode_utf8(st@),
        s.payload_ok() && s.payload_bytes() == s@,
        v.payload_ok() && v.payload_bytes() == v@ && v.payload_bytes().len() == v@.len(),
        rv.payload_ok() && rv.payload_bytes() == rv@,
        a.payload_ok() && a.payload_bytes() == (*a)@,
        ().payload_ok() && ().payload_bytes() == Seq::<u8>::empty(),
        p.wf() ==> p.payload_ok() && p.payload_bytes() == p.bytes(),
{
}

/// Converting a byte array into a payload keeps all its bytes.
pub proof fn lemma_array_into_payload_keeps_bytes<const N: usize>(arr: &[u8; N])
    ensures
        arr.payload_ok(),
        arr.payload_bytes() == arr@,
{
}

} // verus!
