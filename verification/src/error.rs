use vstd::prelude::*;

verus! {

/// What can go wrong in this crate.
#[derive(Clone, Copy, Debug, PartialEq, Eq, Structural)]
pub enum CoreError {
    /// A proof was asked for a leaf that the tree does not have.
    InvalidNode,
    /// A signer was asked to verify, or a verifier to sign.
    InvalidState,
    /// A signature holds no `.` between its proof and the signature proper.
    InvalidSignatureFormat,
    /// The bytes of a proof are not a proof, or the proof does not lead to
    /// the root.
    InvalidProof,
    /// A root does not have the length of a hash.
    InvalidRoot,
    /// A hash does not have the length that its digest puts out.
    InvalidHash,
    /// A text is not hexadecimal.
    DecodeBase16,
    /// A text is not base58.
    DecodeBase58,
    /// A text is not multibase.
    DecodeMultibase,
    /// A text is not JSON.
    DecodeJson,
    /// A JSON document lacks a member that must be there.
    MissingField,
    /// A JSON document, or a member of it, is of the wrong kind.
    InvalidField,
}

impl CoreError {
    /// A short description of the error.
    pub open spec fn spec_message(self) -> Seq<char> {
        match self {
            CoreError::InvalidNode => "Merkle Key Invalid Node"@,
            CoreError::InvalidState => "Invalid Merkle Key State"@,
            CoreError::InvalidSignatureFormat => "Merkle Key Invalid Signature"@,
            CoreError::InvalidProof => "Merkle Key Invalid Proof"@,
            CoreError::InvalidRoot => "Merkle Key Invalid Root Hash"@,
            CoreError::InvalidHash => "Merkle Tree Invalid Hash"@,
            CoreError::DecodeBase16 => "Failed to decode base16 data"@,
            CoreError::DecodeBase58 => "Failed to decode base58 data"@,
            CoreError::DecodeMultibase => "Failed to decode multibase data"@,
            CoreError::DecodeJson => "Failed to decode JSON"@,
            CoreError::MissingField => "Missing JSON field"@,
            CoreError::InvalidField => "Invalid JSON field"@,
        }
    }

    /// A short description of the error.
    pub fn message(&self) -> (text: &'static str)
        ensures
            text@ == self.spec_message(),
    {
        match self {
            CoreError::InvalidNode => "Merkle Key Invalid Node",
            CoreError::InvalidState => "Invalid Merkle Key State",
            CoreError::InvalidSignatureFormat => "Merkle Key Invalid Signature",
            CoreError::InvalidProof => "Merkle Key Invalid Proof",
            CoreError::InvalidRoot => "Merkle Key Invalid Root Hash",
            CoreError::InvalidHash => "Merkle Tree Invalid Hash",
            CoreError::DecodeBase16 => "Failed to decode base16 data",
            CoreError::DecodeBase58 => "Failed to decode base58 data",
            CoreError::DecodeMultibase => "Failed to decode multibase data",
            CoreError::DecodeJson => "Failed to decode JSON",
            CoreError::MissingField => "Missing JSON field",
            CoreError::InvalidField => "Invalid JSON field",
        }
    }
}

} // verus!
