//! The schema model: one encrypted document-encryption-key (EDEK) record and
//! the errors of the record parser.

use vstd::prelude::*;

verus! {

/// One wrapped document-encryption key: the identifier of the key-management
/// configuration that wrapped it, and the (possibly empty) serialized record
/// of the leased key that rewrapped it. An empty `leased_key_data` means no
/// lease is present, a valid terminal state.
#[derive(Debug)]
pub struct EncryptedDek {
    pub kms_config_id: i32,
    pub leased_key_data: Vec<u8>,
}

/// The mathematical value of an [`EncryptedDek`].
pub struct DekView {
    pub kms_config_id: i32,
    pub leased_key_data: Seq<u8>,
}

impl View for EncryptedDek {
    type V = DekView;

    open spec fn view(&self) -> DekView {
        DekView { kms_config_id: self.kms_config_id, leased_key_data: self.leased_key_data@ }
    }
}

/// Why a byte blob failed to parse as an encrypted-key container.
#[derive(Clone, Copy, PartialEq, Eq, Structural, Debug)]
pub enum ParseError {
    /// The bytes do not follow the wire schema of an encrypted-key container.
    InvalidSchema,
    /// The container is well formed but holds no encrypted key.
    NoKeysProvided,
}

} // verus!
