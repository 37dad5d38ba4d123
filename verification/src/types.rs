//! The flat wire records and their capacity constants.
//!
//! All records are plain fixed-size byte aggregates: no heap allocation,
//! no variable-length fields, copy semantics, and an all-zero safe
//! default. For each record type, `SIZE` is the exact encoded byte
//! length of one record and `MAX` the most records of that type allowed
//! in one transaction; the boundary buffer for the type is always
//! `MAX * SIZE` bytes. Changing either constant is a breaking
//! wire-format change.

use vstd::prelude::*;

verus! {

/// Exact encoded byte length of one [`Proof`].
pub const PROOF_SIZE: usize = 1097;

/// Maximum amount of [`Proof`]s in one transaction.
pub const PROOF_MAX: usize = 1;

/// Exact encoded byte length of one [`PublicKey`].
pub const KEY_SIZE: usize = 64;

/// Maximum amount of [`PublicKey`]s in one transaction.
pub const KEY_MAX: usize = 1;

/// Exact encoded byte length of one [`BlindingFactorBytes`].
pub const BLINDING_SIZE: usize = 48;

/// Exact encoded byte length of one [`Note`].
pub const NOTE_SIZE: usize = 240;

/// Maximum amount of [`Note`]s in one transaction.
pub const NOTE_MAX: usize = 3;

/// Exact encoded byte length of one [`Input`].
pub const INPUT_SIZE: usize = 64;

/// Maximum amount of [`Input`]s in one transaction.
pub const INPUT_MAX: usize = 1;

/// Exact encoded byte length of one [`Nullifier`].
pub const NULLIFIER_SIZE: usize = 32;

/// Maximum amount of [`Nullifier`]s in one transaction.
pub const NULLIFIER_MAX: usize = 8;

/// Exact encoded byte length of one [`Item`].
pub const ITEM_SIZE: usize = 337;

/// Maximum amount of [`Item`]s in one transaction.
pub const ITEM_MAX: usize = 1;

/// An all-zero byte sequence of length `n`: the contents of unused
/// buffer slots and of default records.
pub open spec fn zero_bytes(n: nat) -> Seq<u8> {
    Seq::new(n, |i: int| 0u8)
}

/// An all-zero byte array, the default content of every record field.
pub open spec fn zero_arr<const N: usize>() -> [u8; N] {
    vstd::array::spec_array_fill_for_copy_type::<u8, N>(0u8)
}

/// The view of an all-zero array is an all-zero sequence.
pub proof fn lemma_zero_arr<const N: usize>()
    ensures
        zero_arr::<N>()@ =~= zero_bytes(N as nat),
{
    broadcast use vstd::array::group_array_axioms;

}

/// A serialized proof: an opaque fixed-size blob whose content the codec
/// never interprets. Its size is an externally versioned configuration
/// parameter of the proving system.
#[verifier::ext_equal]
#[derive(Clone, Copy, Debug, PartialEq, Eq)]
pub struct Proof {
    /// The serialized proof bytes.
    pub bytes: [u8; PROOF_SIZE],
}

impl View for Proof {
    type V = Seq<u8>;

    open spec fn view(&self) -> Seq<u8> {
        self.bytes@
    }
}

impl Proof {
    /// Builds a [`Proof`] from an array of bytes.
    pub fn from_bytes(bytes: [u8; PROOF_SIZE]) -> (p: Proof)
        ensures
            p@ == bytes@,
    {
        Proof { bytes }
    }

    /// Returns the [`Proof`] as an array of bytes.
    pub fn to_bytes(&self) -> (b: [u8; PROOF_SIZE])
        ensures
            b@ == self@,
    {
        self.bytes
    }
}

impl Default for Proof {
    /// The all-zero proof.
    fn default() -> (p: Proof)
        ensures
            p@ == zero_bytes(PROOF_SIZE as nat),
    {
        let p = Proof { bytes: [0u8; PROOF_SIZE] };
        proof {
            assert(p@ =~= zero_bytes(PROOF_SIZE as nat));
        }
        p
    }
}

/// A public key: two curve-point encodings of 32 bytes each, carried as
/// one 64-byte group. Whether each half decodes to a valid curve point
/// is the domain collaborator's concern, not the codec's.
#[verifier::ext_equal]
#[derive(Clone, Copy, Debug, PartialEq, Eq)]
pub struct PublicKey {
    /// The two 32-byte point encodings, concatenated.
    pub bytes: [u8; KEY_SIZE],
}

impl View for PublicKey {
    type V = Seq<u8>;

    open spec fn view(&self) -> Seq<u8> {
        self.bytes@
    }
}

impl PublicKey {
    /// Returns the [`PublicKey`] as an array of bytes.
    pub fn as_bytes(&self) -> (b: [u8; KEY_SIZE])
        ensures
            b@ == self@,
    {
        self.bytes
    }
}

impl From<[u8; KEY_SIZE]> for PublicKey {
    fn from(arr: [u8; KEY_SIZE]) -> (k: PublicKey) {
        PublicKey { bytes: arr }
    }
}

impl vstd::std_specs::convert::FromSpecImpl<[u8; KEY_SIZE]> for PublicKey {
    open spec fn obeys_from_spec() -> bool {
        true
    }

    open spec fn from_spec(arr: [u8; KEY_SIZE]) -> PublicKey {
        PublicKey { bytes: arr }
    }
}

impl Default for PublicKey {
    /// The all-zero public key.
    fn default() -> (k: PublicKey)
        ensures
            k@ == zero_bytes(KEY_SIZE as nat),
    {
        let k = PublicKey { bytes: [0u8; KEY_SIZE] };
        proof {
            assert(k@ =~= zero_bytes(KEY_SIZE as nat));
        }
        k
    }
}

/// The blinding factor carried on a note: either a plaintext scalar
/// encoding or an encrypted ciphertext, disambiguated by the note's
/// `value` field.
#[verifier::ext_equal]
#[derive(Clone, Copy, Debug, PartialEq, Eq)]
pub struct BlindingFactorBytes {
    /// The opaque 48-byte blob.
    pub bytes: [u8; BLINDING_SIZE],
}

impl View for BlindingFactorBytes {
    type V = Seq<u8>;

    open spec fn view(&self) -> Seq<u8> {
        self.bytes@
    }
}

impl From<[u8; BLINDING_SIZE]> for BlindingFactorBytes {
    fn from(arr: [u8; BLINDING_SIZE]) -> (b: BlindingFactorBytes) {
        BlindingFactorBytes { bytes: arr }
    }
}

impl vstd::std_specs::convert::FromSpecImpl<[u8; BLINDING_SIZE]> for BlindingFactorBytes {
    open spec fn obeys_from_spec() -> bool {
        true
    }

    open spec fn from_spec(arr: [u8; BLINDING_SIZE]) -> BlindingFactorBytes {
        BlindingFactorBytes { bytes: arr }
    }
}

impl Default for BlindingFactorBytes {
    /// The all-zero blinding factor.
    fn default() -> (b: BlindingFactorBytes)
        ensures
            b@ == zero_bytes(BLINDING_SIZE as nat),
    {
        let b = BlindingFactorBytes { bytes: [0u8; BLINDING_SIZE] };
        proof {
            assert(b@ =~= zero_bytes(BLINDING_SIZE as nat));
        }
        b
    }
}

/// A one-time token proving that a note has been spent, as a 32-byte
/// scalar encoding.
#[verifier::ext_equal]
#[derive(Clone, Copy, Debug, PartialEq, Eq)]
pub struct Nullifier {
    /// The 32-byte scalar encoding.
    pub bytes: [u8; NULLIFIER_SIZE],
}

impl View for Nullifier {
    type V = Seq<u8>;

    open spec fn view(&self) -> Seq<u8> {
        self.bytes@
    }
}

impl Nullifier {
    /// Returns the [`Nullifier`] as an array of bytes.
    pub fn as_bytes(&self) -> (b: [u8; NULLIFIER_SIZE])
        ensures
            b@ == self@,
    {
        self.bytes
    }
}

impl From<[u8; NULLIFIER_SIZE]> for Nullifier {
    fn from(arr: [u8; NULLIFIER_SIZE]) -> (n: Nullifier) {
        Nullifier { bytes: arr }
    }
}

impl vstd::std_specs::convert::FromSpecImpl<[u8; NULLIFIER_SIZE]> for Nullifier {
    open spec fn obeys_from_spec() -> bool {
        true
    }

    open spec fn from_spec(arr: [u8; NULLIFIER_SIZE]) -> Nullifier {
        Nullifier { bytes: arr }
    }
}

impl Default for Nullifier {
    /// The all-zero nullifier.
    fn default() -> (n: Nullifier)
        ensures
            n == Nullifier::zeroed(),
            n@ == zero_bytes(NULLIFIER_SIZE as nat),
    {
        let n = Nullifier { bytes: [0u8; NULLIFIER_SIZE] };
        proof {
            assert(n =~= Nullifier::zeroed());
            assert(n@ =~= zero_bytes(NULLIFIER_SIZE as nat));
        }
        n
    }
}

impl Nullifier {
    /// The all-zero nullifier, as a specification value.
    pub open spec fn zeroed() -> Nullifier {
        Nullifier { bytes: zero_arr::<32>() }
    }
}

/// A transaction output with every field found on a note. The flat
/// record makes no distinction between transparent and obfuscated notes
/// and carries the fields of both; the `value` field doubles as the
/// discriminant (`value == 0` means obfuscated), and the slots of the
/// variant not taken are all-zero filler.
#[verifier::ext_equal]
#[derive(Clone, Copy, Debug, PartialEq, Eq)]
pub struct Note {
    /// Commitment to the note's value, a 32-byte point encoding.
    pub value_commitment: [u8; 32],
    /// The encryption nonce.
    pub nonce: [u8; 24],
    /// The ephemeral point of the note, a 32-byte point encoding.
    pub r: [u8; 32],
    /// The recipient's point, a 32-byte point encoding.
    pub pk_r: [u8; 32],
    /// Position of the note in the ledger.
    pub idx: u64,
    /// Plaintext value; zero means the note is obfuscated and the value
    /// lives encrypted in `encrypted_value` instead.
    pub value: u64,
    /// Encrypted value, used if and only if `value == 0`.
    pub encrypted_value: [u8; 24],
    /// Plaintext blinding factor, used if and only if `value != 0`.
    pub blinding_factor: [u8; 32],
    /// Encrypted blinding factor, used if and only if `value == 0`.
    pub encrypted_blinding_factor: BlindingFactorBytes,
}

impl Default for Note {
    /// The all-zero note.
    fn default() -> (n: Note)
        ensures
            n == Note::zeroed(),
    {
        let n = Note {
            value_commitment: [0u8; 32],
            nonce: [0u8; 24],
            r: [0u8; 32],
            pk_r: [0u8; 32],
            idx: 0,
            value: 0,
            encrypted_value: [0u8; 24],
            blinding_factor: [0u8; 32],
            encrypted_blinding_factor: BlindingFactorBytes { bytes: [0u8; 48] },
        };
        proof {
            assert(n =~= Note::zeroed());
        }
        n
    }
}

impl Note {
    /// The all-zero note, as a specification value.
    pub open spec fn zeroed() -> Note {
        Note {
            value_commitment: zero_arr::<32>(),
            nonce: zero_arr::<24>(),
            r: zero_arr::<32>(),
            pk_r: zero_arr::<32>(),
            idx: 0,
            value: 0,
            encrypted_value: zero_arr::<24>(),
            blinding_factor: zero_arr::<32>(),
            encrypted_blinding_factor: BlindingFactorBytes { bytes: zero_arr::<48>() },
        }
    }
}

/// A transaction input: the non-sensitive half of a spend, a nullifier
/// paired with the merkle root it was proven against.
#[verifier::ext_equal]
#[derive(Clone, Copy, Debug, PartialEq, Eq)]
pub struct Input {
    /// The nullifier's 32-byte scalar encoding.
    pub nullifier: [u8; 32],
    /// The merkle root's 32-byte scalar encoding.
    pub merkle_root: [u8; 32],
}

impl Default for Input {
    /// The all-zero input.
    fn default() -> (i: Input)
        ensures
            i == Input::zeroed(),
    {
        let i = Input { nullifier: [0u8; 32], merkle_root: [0u8; 32] };
        proof {
            assert(i =~= Input::zeroed());
        }
        i
    }
}

impl Input {
    /// The all-zero input, as a specification value.
    pub open spec fn zeroed() -> Input {
        Input { nullifier: zero_arr::<32>(), merkle_root: zero_arr::<32>() }
    }
}

/// A combined record: a note, the key it is addressed to, the role the
/// note plays in the transaction, and its nullifier. The role tag must
/// be exactly [`ROLE_INPUT_TAG`] or [`ROLE_OUTPUT_TAG`]; any other tag
/// is a malformed record, and the decoder rejects it rather than fall
/// back to a default role.
#[verifier::ext_equal]
#[derive(Clone, Copy, Debug, PartialEq, Eq)]
pub struct Item {
    /// The note carried by this record.
    pub note: Note,
    /// The public key the note is addressed to.
    pub pk: PublicKey,
    /// The role tag: [`ROLE_INPUT_TAG`] for a spent input,
    /// [`ROLE_OUTPUT_TAG`] for an unspent output.
    pub role: u8,
    /// The nullifier of the note.
    pub nullifier: Nullifier,
}

/// The role tag of a spent input.
pub const ROLE_INPUT_TAG: u8 = 1;

/// The role tag of an unspent output.
pub const ROLE_OUTPUT_TAG: u8 = 2;

/// A structurally valid [`Item`] carries one of the two recognised role
/// tags.
pub open spec fn item_wf(it: Item) -> bool {
    it.role == ROLE_INPUT_TAG || it.role == ROLE_OUTPUT_TAG
}

} // verus!
