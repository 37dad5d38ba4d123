//! The tagged domain model and the lowering / raising conversions.
//!
//! The flat records of [`crate::types`] pack two logically distinct
//! note variants into one struct with always-present fields for both,
//! selected by a side-band discriminant: `value == 0` means the note is
//! obfuscated, any other value means it is transparent. This module is
//! the single place that maps between that wire shape and an explicit
//! tagged variant type, in both directions:
//!
//! - lowering routes each domain field to its plaintext or encrypted
//!   slot and zero-fills the slots of the variant not taken; it is
//!   total, and never fails;
//! - raising picks the variant by the decision rules — `value == 0`
//!   for obfuscated versus transparent, the role byte for input versus
//!   output — and rejects an unrecognised role tag with
//!   [`Error::DecodingMalformed`] rather than fall back to a default.
//!
//! The codec treats every curve-point and scalar field as an opaque
//! fixed-size byte group that it must carry faithfully: whether such a
//! group decodes to a canonical field element is checked by the domain
//! collaborator that owns the curve arithmetic, outside this crate.

use vstd::prelude::*;

use crate::codec::item_parses;
use crate::codec::item_wire;
use crate::codec::lemma_item_parses_unique;
use crate::codec::lemma_item_parses_wire;
use crate::codec::lemma_note_parses_unique;
use crate::codec::lemma_note_parses_wire;
use crate::codec::lemma_notes_round_trip;
use crate::codec::note_parses;
use crate::codec::note_slots;
use crate::codec::note_wire;
use crate::codec::packed;
use crate::error::Error;
use crate::types::item_wf;
use crate::types::zero_arr;
use crate::types::BlindingFactorBytes;
use crate::types::Input;
use crate::types::Item;
use crate::types::Note;
use crate::types::Nullifier;
use crate::types::PublicKey;
use crate::types::ROLE_INPUT_TAG;
use crate::types::ROLE_OUTPUT_TAG;

verus! {

broadcast use vstd::array::group_array_axioms;

/// A transparent note: its value and blinding factor are plaintext, and
/// the encrypted slots of its wire form are zero filler.
#[verifier::ext_equal]
#[derive(Clone, Copy, Debug, PartialEq, Eq)]
pub struct TransparentNote {
    /// Commitment to the note's value.
    pub value_commitment: [u8; 32],
    /// The encryption nonce.
    pub nonce: [u8; 24],
    /// The ephemeral point of the note.
    pub r_g: [u8; 32],
    /// The recipient's point.
    pub pk_r: [u8; 32],
    /// Position of the note in the ledger.
    pub idx: u64,
    /// The plaintext value; never zero, since a zero value would read
    /// back as the obfuscated variant.
    pub value: u64,
    /// The plaintext blinding factor.
    pub blinding_factor: [u8; 32],
}

/// An obfuscated note: its value and blinding factor are encrypted, and
/// the plaintext slots of its wire form are zero filler.
#[verifier::ext_equal]
#[derive(Clone, Copy, Debug, PartialEq, Eq)]
pub struct ObfuscatedNote {
    /// Commitment to the note's value.
    pub value_commitment: [u8; 32],
    /// The encryption nonce.
    pub nonce: [u8; 24],
    /// The ephemeral point of the note.
    pub r_g: [u8; 32],
    /// The recipient's point.
    pub pk_r: [u8; 32],
    /// Position of the note in the ledger.
    pub idx: u64,
    /// The encrypted value.
    pub encrypted_value: [u8; 24],
    /// The encrypted blinding factor.
    pub encrypted_blinding_factor: BlindingFactorBytes,
}

/// A note in the domain model: explicitly transparent or obfuscated,
/// instead of a flat record with a side-band discriminant.
#[verifier::ext_equal]
#[derive(Clone, Copy, Debug, PartialEq, Eq)]
pub enum NoteVariant {
    /// Value and blinding factor in plaintext.
    Transparent(TransparentNote),
    /// Value and blinding factor encrypted.
    Obfuscated(ObfuscatedNote),
}

impl NoteVariant {
    /// A well-formed domain note: a transparent note carries a nonzero
    /// value, since zero is the wire discriminant of the obfuscated
    /// variant.
    pub open spec fn wf(self) -> bool {
        match self {
            NoteVariant::Transparent(t) => t.value != 0,
            NoteVariant::Obfuscated(_) => true,
        }
    }

    /// The flat record this domain note lowers to: each field routed to
    /// its plaintext or encrypted slot, the slots of the other variant
    /// zero-filled.
    pub open spec fn lowered(self) -> Note {
        match self {
            NoteVariant::Transparent(t) => Note {
                value_commitment: t.value_commitment,
                nonce: t.nonce,
                r: t.r_g,
                pk_r: t.pk_r,
                idx: t.idx,
                value: t.value,
                encrypted_value: zero_arr::<24>(),
                blinding_factor: t.blinding_factor,
                encrypted_blinding_factor: BlindingFactorBytes { bytes: zero_arr::<48>() },
            },
            NoteVariant::Obfuscated(o) => Note {
                value_commitment: o.value_commitment,
                nonce: o.nonce,
                r: o.r_g,
                pk_r: o.pk_r,
                idx: o.idx,
                value: 0,
                encrypted_value: o.encrypted_value,
                blinding_factor: zero_arr::<32>(),
                encrypted_blinding_factor: o.encrypted_blinding_factor,
            },
        }
    }

    /// Lowers this domain note to its flat record. Total: every
    /// well-formed domain value has a wire form.
    pub fn lower(&self) -> (n: Note)
        ensures
            n == self.lowered(),
    {
        match self {
            NoteVariant::Transparent(t) => Note {
                value_commitment: t.value_commitment,
                nonce: t.nonce,
                r: t.r_g,
                pk_r: t.pk_r,
                idx: t.idx,
                value: t.value,
                encrypted_value: [0u8; 24],
                blinding_factor: t.blinding_factor,
                encrypted_blinding_factor: BlindingFactorBytes { bytes: [0u8; 48] },
            },
            NoteVariant::Obfuscated(o) => Note {
                value_commitment: o.value_commitment,
                nonce: o.nonce,
                r: o.r_g,
                pk_r: o.pk_r,
                idx: o.idx,
                value: 0,
                encrypted_value: o.encrypted_value,
                blinding_factor: [0u8; 32],
                encrypted_blinding_factor: o.encrypted_blinding_factor,
            },
        }
    }
}

impl Note {
    /// The domain note this flat record raises to, by the value-based
    /// decision rule: `value == 0` means obfuscated, anything else
    /// means transparent.
    pub open spec fn raised(self) -> NoteVariant {
        if self.value == 0 {
            NoteVariant::Obfuscated(
                ObfuscatedNote {
                    value_commitment: self.value_commitment,
                    nonce: self.nonce,
                    r_g: self.r,
                    pk_r: self.pk_r,
                    idx: self.idx,
                    encrypted_value: self.encrypted_value,
                    encrypted_blinding_factor: self.encrypted_blinding_factor,
                },
            )
        } else {
            NoteVariant::Transparent(
                TransparentNote {
                    value_commitment: self.value_commitment,
                    nonce: self.nonce,
                    r_g: self.r,
                    pk_r: self.pk_r,
                    idx: self.idx,
                    value: self.value,
                    blinding_factor: self.blinding_factor,
                },
            )
        }
    }

    /// Raises this flat record to its domain note. The variant follows
    /// the record's `value` field alone: zero raises to the obfuscated
    /// variant, anything else to the transparent one, and the result is
    /// always well formed.
    pub fn raise(&self) -> (v: NoteVariant)
        ensures
            v == self.raised(),
            v.wf(),
            v is Obfuscated <==> self.value == 0,
    {
        if self.value == 0 {
            NoteVariant::Obfuscated(
                ObfuscatedNote {
                    value_commitment: self.value_commitment,
                    nonce: self.nonce,
                    r_g: self.r,
                    pk_r: self.pk_r,
                    idx: self.idx,
                    encrypted_value: self.encrypted_value,
                    encrypted_blinding_factor: self.encrypted_blinding_factor,
                },
            )
        } else {
            NoteVariant::Transparent(
                TransparentNote {
                    value_commitment: self.value_commitment,
                    nonce: self.nonce,
                    r_g: self.r,
                    pk_r: self.pk_r,
                    idx: self.idx,
                    value: self.value,
                    blinding_factor: self.blinding_factor,
                },
            )
        }
    }
}

/// Raising the lowering of any well-formed domain note yields the note
/// back: the domain level of the round-trip law, and the variant is
/// preserved in both directions.
pub proof fn lemma_raise_of_lower(v: NoteVariant)
    requires
        v.wf(),
    ensures
        v.lowered().raised() == v,
{
    match v {
        NoteVariant::Transparent(_) => {
            assert(v.lowered().raised() =~= v);
        },
        NoteVariant::Obfuscated(_) => {
            assert(v.lowered().raised() =~= v);
        },
    }
}

/// The round-trip law from the domain model through the wire bytes and
/// back: lowering a well-formed domain note, serializing it, and
/// parsing and raising whatever slot comes back yields the identical
/// domain note.
pub proof fn lemma_variant_full_round_trip(v: NoteVariant, decoded: Note)
    requires
        v.wf(),
        note_parses(note_wire(v.lowered()), decoded),
    ensures
        decoded == v.lowered(),
        decoded.raised() == v,
{
    lemma_note_parses_wire(v.lowered());
    lemma_note_parses_unique(note_wire(v.lowered()), decoded, v.lowered());
    lemma_raise_of_lower(v);
}

/// The lowerings of a sequence of domain notes, in order.
pub open spec fn lowered_all(vs: Seq<NoteVariant>) -> Seq<Note> {
    Seq::new(vs.len(), |i: int| vs[i].lowered())
}

/// The round-trip law for a whole transaction's notes: lower up to
/// [`NOTE_MAX`](crate::types::NOTE_MAX) well-formed domain notes,
/// serialize them into the boundary buffer, decode each slot of that
/// buffer, and raise what came back — the original domain notes return
/// in order, and every padding slot raises to the all-zero obfuscated
/// default.
pub proof fn lemma_variants_buffer_round_trip(vs: Seq<NoteVariant>, decoded: Seq<Note>)
    requires
        vs.len() <= crate::types::NOTE_MAX,
        forall|i: int| 0 <= i < vs.len() ==> (#[trigger] vs[i]).wf(),
        decoded.len() == crate::types::NOTE_MAX,
        forall|i: int|
            0 <= i < crate::types::NOTE_MAX ==> note_parses(
                packed(
                    note_slots(lowered_all(vs)),
                    crate::types::NOTE_MAX as int,
                    crate::types::NOTE_SIZE as int,
                ).subrange(
                    i * crate::types::NOTE_SIZE,
                    (i + 1) * crate::types::NOTE_SIZE,
                ),
                #[trigger] decoded[i],
            ),
    ensures
        forall|i: int| 0 <= i < vs.len() ==> (#[trigger] decoded[i]).raised() == vs[i],
        forall|i: int|
            vs.len() <= i < crate::types::NOTE_MAX ==> #[trigger] decoded[i] == Note::zeroed(),
{
    lemma_notes_round_trip(lowered_all(vs), decoded);
    assert forall|i: int| 0 <= i < vs.len() implies (#[trigger] decoded[i]).raised() == vs[i] by {
        assert(decoded[i] == lowered_all(vs)[i]);
        lemma_raise_of_lower(vs[i]);
    }
}

/// The role a note plays in a transaction, the second, orthogonal
/// decision rule of the domain model.
#[derive(Clone, Copy, Debug, PartialEq, Eq, Structural)]
pub enum Role {
    /// A spent input, wire tag [`ROLE_INPUT_TAG`].
    Input,
    /// An unspent output, wire tag [`ROLE_OUTPUT_TAG`].
    Output,
}

impl Role {
    /// The wire tag of this role.
    pub open spec fn tag_spec(self) -> u8 {
        match self {
            Role::Input => ROLE_INPUT_TAG,
            Role::Output => ROLE_OUTPUT_TAG,
        }
    }

    /// Returns the wire tag of this role.
    pub fn tag(&self) -> (t: u8)
        ensures
            t == self.tag_spec(),
    {
        match self {
            Role::Input => ROLE_INPUT_TAG,
            Role::Output => ROLE_OUTPUT_TAG,
        }
    }

    /// Reads a role back from its wire tag. Fails with
    /// [`Error::DecodingMalformed`] if and only if the tag is neither
    /// recognised value: an unknown tag is rejected, never defaulted.
    pub fn from_tag(t: u8) -> (r: Result<Role, Error>)
        ensures
            t == ROLE_INPUT_TAG ==> r == Ok::<Role, Error>(Role::Input),
            t == ROLE_OUTPUT_TAG ==> r == Ok::<Role, Error>(Role::Output),
            t != ROLE_INPUT_TAG && t != ROLE_OUTPUT_TAG ==> r == Err::<Role, Error>(
                Error::DecodingMalformed,
            ),
    {
        if t == ROLE_INPUT_TAG {
            Ok(Role::Input)
        } else if t == ROLE_OUTPUT_TAG {
            Ok(Role::Output)
        } else {
            Err(Error::DecodingMalformed)
        }
    }
}

/// The domain form of an [`Item`]: the note as an explicit variant, the
/// role as an enum, together with the key the note is addressed to and
/// its nullifier.
#[verifier::ext_equal]
#[derive(Clone, Copy, Debug, PartialEq, Eq)]
pub struct TaggedNote {
    /// The role the note plays in the transaction.
    pub role: Role,
    /// The note itself, as an explicit variant.
    pub note: NoteVariant,
    /// The public key the note is addressed to.
    pub pk: PublicKey,
    /// The nullifier of the note.
    pub nullifier: Nullifier,
}

impl TaggedNote {
    /// A well-formed tagged note carries a well-formed note variant.
    pub open spec fn wf(self) -> bool {
        self.note.wf()
    }

    /// The flat item this tagged note lowers to.
    pub open spec fn lowered(self) -> Item {
        Item {
            note: self.note.lowered(),
            pk: self.pk,
            role: self.role.tag_spec(),
            nullifier: self.nullifier,
        }
    }

    /// Lowers this tagged note to its flat item. Total, and the result
    /// always carries a recognised role tag.
    pub fn lower(&self) -> (it: Item)
        ensures
            it == self.lowered(),
            item_wf(it),
    {
        Item {
            note: self.note.lower(),
            pk: self.pk,
            role: self.role.tag(),
            nullifier: self.nullifier,
        }
    }
}

impl Item {
    /// The tagged note a well-formed item raises to.
    pub open spec fn raised(self) -> TaggedNote
        recommends
            item_wf(self),
    {
        TaggedNote {
            role: if self.role == ROLE_INPUT_TAG {
                Role::Input
            } else {
                Role::Output
            },
            note: self.note.raised(),
            pk: self.pk,
            nullifier: self.nullifier,
        }
    }

    /// Raises this flat item to its tagged note. Fails with
    /// [`Error::DecodingMalformed`] if and only if the role tag is
    /// unrecognised; the conversion is atomic, and no partial domain
    /// value is ever returned.
    pub fn raise(&self) -> (r: Result<TaggedNote, Error>)
        ensures
            item_wf(*self) ==> (r matches Ok(t) && t == self.raised() && t.wf()),
            !item_wf(*self) ==> r == Err::<TaggedNote, Error>(Error::DecodingMalformed),
    {
        let role = match Role::from_tag(self.role) {
            Ok(role) => role,
            Err(e) => {
                return Err(e);
            },
        };
        Ok(TaggedNote { role, note: self.note.raise(), pk: self.pk, nullifier: self.nullifier })
    }
}

/// Raising the lowering of any well-formed tagged note yields the note
/// back: the item level of the round-trip law. The lowered item always
/// carries a recognised role tag, so raising it never fails.
pub proof fn lemma_tagged_raise_of_lower(t: TaggedNote)
    requires
        t.wf(),
    ensures
        item_wf(t.lowered()),
        t.lowered().raised() == t,
{
    lemma_raise_of_lower(t.note);
    assert(t.lowered().raised() =~= t);
}

/// The round-trip law for tagged notes through the wire bytes: lowering
/// a well-formed tagged note, serializing the item, and parsing and
/// raising whatever slot comes back yields the identical tagged note,
/// variant and role both preserved.
pub proof fn lemma_tagged_full_round_trip(t: TaggedNote, decoded: Item)
    requires
        t.wf(),
        item_parses(item_wire(t.lowered()), decoded),
    ensures
        decoded == t.lowered(),
        item_wf(decoded),
        decoded.raised() == t,
{
    lemma_item_parses_wire(t.lowered());
    lemma_item_parses_unique(item_wire(t.lowered()), decoded, t.lowered());
    lemma_tagged_raise_of_lower(t);
}

/// The domain form of an [`Input`]: the nullifier under its own type,
/// beside the merkle root it was proven against. Whether either half
/// is a canonical scalar is the domain collaborator's check, outside
/// this crate.
#[verifier::ext_equal]
#[derive(Clone, Copy, Debug, PartialEq, Eq)]
pub struct TransactionInput {
    /// The nullifier of the spent note.
    pub nullifier: Nullifier,
    /// The merkle root the spend was proven against.
    pub merkle_root: [u8; 32],
}

impl TransactionInput {
    /// The flat record this transaction input lowers to.
    pub open spec fn lowered(self) -> Input {
        Input { nullifier: self.nullifier.bytes, merkle_root: self.merkle_root }
    }

    /// Lowers this transaction input to its flat record. Total.
    pub fn lower(&self) -> (i: Input)
        ensures
            i == self.lowered(),
    {
        Input { nullifier: self.nullifier.as_bytes(), merkle_root: self.merkle_root }
    }
}

impl Input {
    /// The transaction input this flat record raises to.
    pub open spec fn raised(self) -> TransactionInput {
        TransactionInput {
            nullifier: Nullifier { bytes: self.nullifier },
            merkle_root: self.merkle_root,
        }
    }

    /// Raises this flat record to its transaction input. Total: the
    /// two types carry the same bytes, and only the domain collaborator
    /// can judge their canonicity.
    pub fn raise(&self) -> (t: TransactionInput)
        ensures
            t == self.raised(),
    {
        TransactionInput {
            nullifier: Nullifier { bytes: self.nullifier },
            merkle_root: self.merkle_root,
        }
    }
}

/// For inputs the conversions are mutually inverse in both directions:
/// raising after lowering and lowering after raising are both the
/// identity.
pub proof fn lemma_input_conversion_bijective(t: TransactionInput, i: Input)
    ensures
        t.lowered().raised() == t,
        i.raised().lowered() == i,
{
    assert(t.lowered().raised() =~= t);
    assert(i.raised().lowered() =~= i);
}

/// A transaction output: a raised note beside the host-side fields a
/// stored output carries.
#[verifier::ext_equal]
#[derive(Clone, Copy, Debug, PartialEq, Eq)]
pub struct TransactionOutput {
    /// The note, as an explicit variant.
    pub note: NoteVariant,
    /// The plaintext value credited by the output, where known.
    pub value: u64,
    /// The blinding factor scalar, where known.
    pub blinding_factor: [u8; 32],
    /// The key the output is addressed to, where known.
    pub pk: PublicKey,
}

impl TransactionOutput {
    /// Wraps a raised note in a transaction output whose host-side
    /// fields are zeroed: the flat record does not carry them, and the
    /// collaborator that stores the output fills them in.
    pub fn from_note(n: &Note) -> (o: TransactionOutput)
        ensures
            o.note == n.raised(),
            o.note.wf(),
            o.value == 0,
            o.blinding_factor == zero_arr::<32>(),
            o.pk == (PublicKey { bytes: zero_arr::<64>() }),
    {
        TransactionOutput {
            note: n.raise(),
            value: 0,
            blinding_factor: [0u8; 32],
            pk: PublicKey { bytes: [0u8; 64] },
        }
    }
}

} // verus!
