use core::marker::PhantomData;
use vstd::prelude::*;
use vstd::std_specs::cmp::PartialEqSpecImpl;
use crate::crypto::merkle_tree::digest::Digest;
use crate::error::CoreError;
use crate::utils::hex::decode_hex;
use crate::utils::hex::encode_hex;
use crate::utils::hex::spec_decode_hex;
use crate::utils::hex::spec_encode_hex;

verus! {

/// An output of the digest `D`: exactly `D::spec_output_size()` bytes.
///
/// The view of a hash is its bytes.
#[derive(Debug)]
pub struct Hash<D: Digest> {
    bytes: Vec<u8>,
    marker: PhantomData<D>,
}

impl<D: Digest> View for Hash<D> {
    type V = Seq<u8>;

    closed spec fn view(&self) -> Seq<u8> {
        self.bytes@
    }
}

impl<D: Digest> Hash<D> {
    /// Every hash has the length of its digest's output.
    #[verifier::type_invariant]
    pub closed spec fn wf(&self) -> bool {
        self.bytes@.len() == D::spec_output_size()
    }

    /// A hash's length is its digest's output size.
    pub proof fn lemma_wf_len(&self)
        requires
            self.wf(),
        ensures
            self@.len() == D::spec_output_size(),
    {
    }

    /// Wraps the output of a digest.
    pub(crate) fn from_output(output: Vec<u8>) -> (hash: Self)
        requires
            output@.len() == D::spec_output_size(),
        ensures
            hash@ == output@,
            hash.wf(),
    {
        Hash { bytes: output, marker: PhantomData }
    }

    /// The hash that holds the bytes of `slice`, if they are as many as the
    /// digest puts out; nothing is cut or filled.
    pub fn from_slice(slice: &[u8]) -> (out: Option<Self>)
        ensures
            out is Some <==> slice@.len() == D::spec_output_size(),
            out matches Some(hash) ==> hash@ == slice@ && hash.wf(),
    {
        if slice.len() != D::output_size() {
            return None;
        }
        let mut bytes: Vec<u8> = Vec::with_capacity(slice.len());
        let mut i: usize = 0;
        while i < slice.len()
            invariant
                i <= slice@.len(),
                bytes@ == slice@.subrange(0, i as int),
            decreases slice@.len() - i,
        {
            bytes.push(slice[i]);
            i = i + 1;
            assert(bytes@ =~= slice@.subrange(0, i as int));
        }
        assert(bytes@ =~= slice@);
        Some(Hash { bytes, marker: PhantomData })
    }

    /// The hash as text: lowercase hexadecimal, two digits for every byte.
    pub fn to_hex(&self) -> (text: String)
        ensures
            text@ == spec_encode_hex(self@),
            text@.len() == 2 * D::spec_output_size(),
    {
        proof {
            use_type_invariant(self);
        }
        encode_hex(self.bytes.as_slice())
    }

    /// The hash that hexadecimal text stands for. Text that is not
    /// hexadecimal is refused as such, and text for more or fewer bytes than
    /// the digest puts out is refused as no hash.
    pub fn from_hex(text: &str) -> (out: Result<Self, CoreError>)
        ensures
            match out {
                Ok(hash) => spec_decode_hex(text@) == Some(hash@) && hash.wf(),
                Err(e) => match spec_decode_hex(text@) {
                    None => e == CoreError::DecodeBase16,
                    Some(bytes) => e == CoreError::InvalidHash && bytes.len()
                        != D::spec_output_size(),
                },
            },
    {
        let bytes = match decode_hex(text) {
            Ok(bytes) => bytes,
            Err(e) => { return Err(e); },
        };
        match Self::from_slice(bytes.as_slice()) {
            Some(hash) => Ok(hash),
            None => Err(CoreError::InvalidHash),
        }
    }

    /// The bytes of the hash.
    pub fn as_slice(&self) -> (bytes: &[u8])
        ensures
            bytes@ == self@,
            bytes@.len() == D::spec_output_size(),
    {
        proof {
            use_type_invariant(self);
        }
        self.bytes.as_slice()
    }
}

impl<D: Digest> Clone for Hash<D> {
    fn clone(&self) -> (copy: Self)
        ensures
            copy@ == self@,
    {
        proof {
            use_type_invariant(self);
        }
        Hash { bytes: self.bytes.clone(), marker: PhantomData }
    }
}

impl<D: Digest> Default for Hash<D> {
    /// The hash whose bytes are all zero.
    fn default() -> (hash: Self)
        ensures
            hash@ == Seq::new(D::spec_output_size(), |i: int| 0u8),
    {
        let size = D::output_size();
        let mut bytes: Vec<u8> = Vec::with_capacity(size);
        let mut i: usize = 0;
        while i < size
            invariant
                i <= size,
                size == D::spec_output_size(),
                bytes@ == Seq::new(i as nat, |k: int| 0u8),
            decreases size - i,
        {
            bytes.push(0u8);
            i = i + 1;
            assert(bytes@ =~= Seq::new(i as nat, |k: int| 0u8));
        }
        Hash { bytes, marker: PhantomData }
    }
}

impl<D: Digest> PartialEq for Hash<D> {
    /// Whether the two hashes hold the same bytes. The comparison may stop
    /// at the first difference.
    fn eq(&self, other: &Self) -> (same: bool) {
        let a = self.bytes.as_slice();
        let b = other.bytes.as_slice();
        if a.len() != b.len() {
            return false;
        }
        let mut i: usize = 0;
        while i < a.len()
            invariant
                i <= a@.len(),
                a@.len() == b@.len(),
                a@ == self@,
                b@ == other@,
                a@.subrange(0, i as int) == b@.subrange(0, i as int),
            decreases a@.len() - i,
        {
            if a[i] != b[i] {
                assert(a@[i as int] != b@[i as int]);
                return false;
            }
            i = i + 1;
            assert(a@.subrange(0, i as int) =~= a@.subrange(0, i - 1).push(a@[i - 1]));
            assert(b@.subrange(0, i as int) =~= b@.subrange(0, i - 1).push(b@[i - 1]));
        }
        assert(a@ =~= a@.subrange(0, i as int));
        assert(b@ =~= b@.subrange(0, i as int));
        true
    }
}

impl<D: Digest> PartialEqSpecImpl for Hash<D> {
    open spec fn obeys_eq_spec() -> bool {
        true
    }

    open spec fn eq_spec(&self, other: &Self) -> bool {
        self@ == other@
    }
}

impl<D: Digest> Eq for Hash<D> {
}

} // verus!
