//! The errors that the operations on a store return.

use crate::version::ValueKind;
use vstd::prelude::*;
use vstd::std_specs::convert::FromSpecImpl;
use vstd::string::StringExecFns;

verus! {

/// The cipher could not be set up for encryption.
#[derive(Debug, Clone, Copy, PartialEq, Eq, Structural)]
pub struct EncryptError;

impl EncryptError {
    /// The message shown for this error.
    pub fn message(&self) -> (text: String)
        ensures
            text@ == "Encryption failed"@,
    {
        "Encryption failed".to_owned()
    }
}

/// Why a ciphertext could not be turned back into text.
#[derive(Debug, Clone, Copy, PartialEq, Eq, Structural)]
pub enum DecryptError {
    /// The cipher refused the ciphertext, or what came out holds no whole
    /// salt: the key is wrong or the data is damaged.
    BadCrypt,
    /// The decrypted bytes are not UTF-8, as happens under a wrong key.
    BadUtf8,
}

impl DecryptError {
    /// The message shown for this error.
    pub open spec fn spec_message(self) -> Seq<char> {
        match self {
            DecryptError::BadCrypt => "Decryption failed"@,
            DecryptError::BadUtf8 =>
                "Decryption result gave non UTF-8 bytes (likely incorrect key?)"@,
        }
    }

    /// The message shown for this error.
    pub fn message(&self) -> (text: String)
        ensures
            text@ == self.spec_message(),
    {
        match self {
            DecryptError::BadCrypt => "Decryption failed".to_owned(),
            DecryptError::BadUtf8 => "Decryption result gave non UTF-8 bytes (likely incorrect key?)".to_owned(),
        }
    }
}

/// What a store of an older format cannot hold.
#[derive(Debug, Clone, Copy, PartialEq, Eq, Structural)]
pub enum UnsupportedFeature {
    /// Seeds of one-time passwords.
    Totp,
}

impl UnsupportedFeature {
    /// The message shown for this error.
    pub fn message(&self) -> (text: String)
        ensures
            text@ == "TOTP values are not supported with your current file version"@,
    {
        "TOTP values are not supported with your current file version".to_owned()
    }
}

/// Why a field could not be set.
#[derive(Debug, Clone, Copy, PartialEq, Eq, Structural)]
pub enum SetFieldError {
    /// A value of the given kind has to be encrypted, and no password has
    /// been accepted yet.
    ContentsNotUnlocked(ValueKind),
}

impl SetFieldError {
    /// The message shown for this error.
    pub fn message(&self) -> (text: String)
        ensures
            text@ == match self {
                SetFieldError::ContentsNotUnlocked(kind) => "Cannot set "@ + kind.spec_name()
                    + " field: contents have not been decrypted"@,
            },
    {
        match self {
            SetFieldError::ContentsNotUnlocked(kind) => {
                let mut text = "Cannot set ".to_owned();
                text.append(kind.name());
                text.append(" field: contents have not been decrypted");
                text
            },
        }
    }
}

/// Why the value of a field could not be given.
#[derive(Debug, Clone, Copy, PartialEq, Eq, Structural)]
pub enum GetValueError {
    /// The value is encrypted, and no password has been accepted yet.
    ContentsNotUnlocked,
    /// The value could not be decrypted.
    Decrypt(DecryptError),
    /// The field holds no seed from which a one-time password can be
    /// computed.
    BadTotpSecret,
}

impl GetValueError {
    /// The message shown for this error.
    pub fn message(&self) -> (text: String)
        ensures
            text@ == match self {
                GetValueError::ContentsNotUnlocked =>
                    "Cannot view protected field: contents have not been decrypted"@,
                GetValueError::Decrypt(e) => e.spec_message(),
                GetValueError::BadTotpSecret => "This field has an invalid TOTP secret"@,
            },
    {
        match self {
            GetValueError::ContentsNotUnlocked => "Cannot view protected field: contents have not been decrypted".to_owned(),
            GetValueError::Decrypt(e) => e.message(),
            GetValueError::BadTotpSecret => "This field has an invalid TOTP secret".to_owned(),
        }
    }
}

/// Why a field could not be moved between plain and encrypted.
#[derive(Debug, Clone, Copy, PartialEq, Eq, Structural)]
pub enum SwapEncryptionError {
    /// No password has been accepted yet.
    ContentsNotUnlocked,
    /// The value could not be encrypted.
    Encrypt(EncryptError),
    /// The value could not be decrypted.
    Decrypt(DecryptError),
    /// The field holds the seed of a one-time password, which is never kept
    /// plain.
    IsTotp,
}

impl SwapEncryptionError {
    /// The message shown for this error.
    pub fn message(&self) -> (text: String)
        ensures
            text@ == match self {
                SwapEncryptionError::ContentsNotUnlocked => "Contents have not been decrypted"@,
                SwapEncryptionError::Encrypt(_) => "Encryption failed"@,
                SwapEncryptionError::Decrypt(e) => e.spec_message(),
                SwapEncryptionError::IsTotp => "Encryption cannot be disabled on TOTP fields"@,
            },
    {
        match self {
            SwapEncryptionError::ContentsNotUnlocked => "Contents have not been decrypted".to_owned(),
            SwapEncryptionError::Encrypt(e) => e.message(),
            SwapEncryptionError::Decrypt(e) => e.message(),
            SwapEncryptionError::IsTotp => "Encryption cannot be disabled on TOTP fields".to_owned(),
        }
    }
}

impl From<DecryptError> for GetValueError {
    fn from(e: DecryptError) -> (r: GetValueError) {
        GetValueError::Decrypt(e)
    }
}

impl FromSpecImpl<DecryptError> for GetValueError {
    open spec fn obeys_from_spec() -> bool {
        true
    }

    open spec fn from_spec(e: DecryptError) -> GetValueError {
        GetValueError::Decrypt(e)
    }
}

impl From<EncryptError> for SwapEncryptionError {
    fn from(e: EncryptError) -> (r: SwapEncryptionError) {
        SwapEncryptionError::Encrypt(e)
    }
}

impl FromSpecImpl<EncryptError> for SwapEncryptionError {
    open spec fn obeys_from_spec() -> bool {
        true
    }

    open spec fn from_spec(e: EncryptError) -> SwapEncryptionError {
        SwapEncryptionError::Encrypt(e)
    }
}

impl From<DecryptError> for SwapEncryptionError {
    fn from(e: DecryptError) -> (r: SwapEncryptionError) {
        SwapEncryptionError::Decrypt(e)
    }
}

impl FromSpecImpl<DecryptError> for SwapEncryptionError {
    open spec fn obeys_from_spec() -> bool {
        true
    }

    open spec fn from_spec(e: DecryptError) -> SwapEncryptionError {
        SwapEncryptionError::Decrypt(e)
    }
}

} // verus!
