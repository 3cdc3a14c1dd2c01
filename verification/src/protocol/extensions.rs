//! The extensions of the protocol.

use vstd::prelude::*;

verus! {

/// An extension of the protocol that a server may offer.
#[derive(Clone, Copy, Debug, PartialEq, Eq, Structural)]
pub enum Extensions {
    /// Uploads can be created.
    Creation,
    /// The length of an upload can be told after its creation.
    CreationDeferLength,
    /// An upload can be created with its first bytes.
    CreationWithUpload,
    /// Uploads can be removed.
    Termination,
    /// Uploads can be made of others.
    Concatenation,
    /// Uploads can be downloaded.
    Getting,
    /// Bytes can come with a checksum.
    Checksum,
}

impl Extensions {
    /// The name under which the server advertises the extension.
    pub open spec fn name(self) -> Seq<char> {
        match self {
            Extensions::Creation => "creation"@,
            Extensions::CreationDeferLength => "creation-defer-length"@,
            Extensions::CreationWithUpload => "creation-with-upload"@,
            Extensions::Termination => "termination"@,
            Extensions::Concatenation => "concatenation"@,
            Extensions::Getting => "getting"@,
            Extensions::Checksum => "checksum"@,
        }
    }

    /// The name under which the server advertises the extension.
    pub fn to_string(&self) -> (r: String)
        ensures
            r@ == self.name(),
    {
        match self {
            Extensions::Creation => "creation".to_owned(),
            Extensions::CreationDeferLength => "creation-defer-length".to_owned(),
            Extensions::CreationWithUpload => "creation-with-upload".to_owned(),
            Extensions::Termination => "termination".to_owned(),
            Extensions::Concatenation => "concatenation".to_owned(),
            Extensions::Getting => "getting".to_owned(),
            Extensions::Checksum => "checksum".to_owned(),
        }
    }
}

} // verus!
