//! Encoder and decoder for the fixed-capacity boundary buffers.
//!
//! A buffer for a record type always holds exactly `MAX * SIZE` bytes:
//! `MAX` consecutive `SIZE`-byte slots, the records serialized in input
//! order from offset zero, and every byte past the last written record
//! zero. Encoding fails with [`Error::EncodingOverflow`] when more than
//! `MAX` records are supplied; decoding fails with
//! [`Error::DecodingTruncated`] on a buffer shorter than `MAX * SIZE`
//! and with [`Error::DecodingMalformed`] on a slot whose bytes are not a
//! structurally valid record.

use vstd::prelude::*;

use vstd::arithmetic::div_mod::lemma_fundamental_div_mod_converse;
use vstd::bytes::lemma_auto_spec_u64_to_from_le_bytes;
use vstd::bytes::spec_u64_from_le_bytes;
use vstd::bytes::spec_u64_to_le_bytes;
use vstd::bytes::spec_u64_to_le_bytes_to_open;
use vstd::bytes::u64_from_le_bytes;
use vstd::bytes::u64_to_le_bytes;
use vstd::slice::slice_subrange;

use crate::error::Error;
use crate::types::item_wf;
use crate::types::zero_bytes;
use crate::types::BlindingFactorBytes;
use crate::types::Input;
use crate::types::Item;
use crate::types::Note;
use crate::types::Nullifier;
use crate::types::Proof;
use crate::types::PublicKey;
use crate::types::INPUT_MAX;
use crate::types::INPUT_SIZE;
use crate::types::ITEM_SIZE;
use crate::types::KEY_SIZE;
use crate::types::NOTE_MAX;
use crate::types::NOTE_SIZE;
use crate::types::NULLIFIER_MAX;
use crate::types::NULLIFIER_SIZE;
use crate::types::PROOF_SIZE;
use crate::types::ROLE_INPUT_TAG;
use crate::types::ROLE_OUTPUT_TAG;

verus! {

broadcast use vstd::array::group_array_axioms, vstd::slice::group_slice_axioms;

// ---------------------------------------------------------------------
// The buffer layout: MAX slots of SIZE bytes, zero-filled past the last
// written record.
// ---------------------------------------------------------------------
/// The contents of a boundary buffer with `max` slots of `size` bytes,
/// holding the given slot contents in order and zero everywhere past
/// them.
pub open spec fn packed(slots: Seq<Seq<u8>>, max: int, size: int) -> Seq<u8>
    recommends
        slots.len() <= max,
        forall|i: int| 0 <= i < slots.len() ==> (#[trigger] slots[i]).len() == size,
{
    Seq::new(
        (max * size) as nat,
        |j: int|
            if j < slots.len() * size {
                slots[j / size][j % size]
            } else {
                0u8
            },
    )
}

/// A buffer always holds exactly `max * size` bytes, however many
/// records were written into it.
pub proof fn lemma_packed_len(slots: Seq<Seq<u8>>, max: int, size: int)
    requires
        0 <= max,
        0 <= size,
    ensures
        packed(slots, max, size).len() == max * size,
{
}

/// Slot `i` of a buffer reproduces the bytes of record `i` exactly.
pub proof fn lemma_packed_slot(slots: Seq<Seq<u8>>, max: int, size: int, i: int)
    requires
        0 < size,
        slots.len() <= max,
        forall|k: int| 0 <= k < slots.len() ==> (#[trigger] slots[k]).len() == size,
        0 <= i < slots.len(),
    ensures
        packed(slots, max, size).subrange(i * size, (i + 1) * size) == slots[i],
{
    let b = packed(slots, max, size);
    assert((i + 1) * size == i * size + size) by (nonlinear_arith);
    assert(i * size + size <= slots.len() * size) by (nonlinear_arith)
        requires
            i + 1 <= slots.len(),
            0 < size,
    ;
    assert(slots.len() * size <= max * size) by (nonlinear_arith)
        requires
            slots.len() <= max,
            0 < size,
    ;
    assert forall|k: int| 0 <= k < size implies b.subrange(i * size, (i + 1) * size)[k]
        == slots[i][k] by {
        lemma_fundamental_div_mod_converse(i * size + k, size, i, k);
        assert(i * size + k < slots.len() * size);
        assert(b[i * size + k] == slots[(i * size + k) / size][(i * size + k) % size]);
    }
    assert(b.subrange(i * size, (i + 1) * size) =~= slots[i]);
}

/// Every byte past the last written record is zero.
pub proof fn lemma_packed_padding(slots: Seq<Seq<u8>>, max: int, size: int, j: int)
    requires
        0 <= size,
        slots.len() <= max,
        slots.len() * size <= j < max * size,
    ensures
        packed(slots, max, size)[j] == 0,
{
}

/// Eight zero bytes decode to the integer zero.
pub proof fn lemma_u64_zero_bytes()
    ensures
        spec_u64_to_le_bytes(0) == zero_bytes(8),
        spec_u64_from_le_bytes(zero_bytes(8)) == 0,
{
    lemma_auto_spec_u64_to_from_le_bytes();
    spec_u64_to_le_bytes_to_open(0);
    assert(spec_u64_to_le_bytes(0) =~= zero_bytes(8)) by {
        assert((0u64 & 0xff) == 0) by (bit_vector);
        assert(((0u64 >> 8) & 0xff) == 0) by (bit_vector);
        assert(((0u64 >> 16) & 0xff) == 0) by (bit_vector);
        assert(((0u64 >> 24) & 0xff) == 0) by (bit_vector);
        assert(((0u64 >> 32) & 0xff) == 0) by (bit_vector);
        assert(((0u64 >> 40) & 0xff) == 0) by (bit_vector);
        assert(((0u64 >> 48) & 0xff) == 0) by (bit_vector);
        assert(((0u64 >> 56) & 0xff) == 0) by (bit_vector);
    }
}

// ---------------------------------------------------------------------
// Byte-copy helpers.
// ---------------------------------------------------------------------
/// Appends all of `src` to `out`.
fn push_bytes(out: &mut Vec<u8>, src: &[u8])
    ensures
        final(out)@ == old(out)@ + src@,
{
    let mut k: usize = 0;
    while k < src.len()
        invariant
            k <= src@.len(),
            out@ == old(out)@ + src@.subrange(0, k as int),
        decreases src@.len() - k,
    {
        let b = src[k];
        out.push(b);
        proof {
            assert(src@.subrange(0, k + 1 as int) =~= src@.subrange(0, k as int).push(src@[k as int]));
        }
        k = k + 1;
    }
    proof {
        assert(src@.subrange(0, src@.len() as int) =~= src@);
    }
}

/// Copies the `N` bytes of `s` starting at `off` into a fresh array.
fn read_chunk<const N: usize>(s: &[u8], off: usize) -> (a: [u8; N])
    requires
        off + N <= s@.len(),
    ensures
        a@ == s@.subrange(off as int, off + N),
{
    proof {
        vstd::slice::axiom_spec_len(s);
    }
    let mut a = [0u8; N];
    let mut k: usize = 0;
    while k < N
        invariant
            k <= N,
            off + N <= s@.len(),
            s@.len() <= usize::MAX,
            forall|j: int| 0 <= j < k ==> a@[j] == s@[off + j],
        decreases N - k,
    {
        a[k] = s[off + k];
        k = k + 1;
    }
    proof {
        assert(a@ =~= s@.subrange(off as int, off + N));
    }
    a
}

/// Reads the little-endian 64-bit integer at `off`.
fn read_u64(s: &[u8], off: usize) -> (x: u64)
    requires
        off + 8 <= s@.len(),
    ensures
        x == spec_u64_from_le_bytes(s@.subrange(off as int, off + 8)),
{
    proof {
        vstd::slice::axiom_spec_len(s);
    }
    let sub = slice_subrange(s, off, off + 8);
    u64_from_le_bytes(sub)
}

// ---------------------------------------------------------------------
// The Note wire layout.
// ---------------------------------------------------------------------
/// The 240-byte wire form of a note: its fields in declaration order,
/// the two 64-bit integers in little-endian byte order.
pub open spec fn note_wire(n: Note) -> Seq<u8> {
    n.value_commitment@ + n.nonce@ + n.r@ + n.pk_r@ + spec_u64_to_le_bytes(n.idx)
        + spec_u64_to_le_bytes(n.value) + n.encrypted_value@ + n.blinding_factor@
        + n.encrypted_blinding_factor@
}

/// A note's wire form is exactly [`NOTE_SIZE`] bytes.
pub proof fn lemma_note_wire_len(n: Note)
    ensures
        note_wire(n).len() == NOTE_SIZE,
{
    lemma_auto_spec_u64_to_from_le_bytes();
}

/// The 240-byte slot `b` parses to the note `n`: every field of `n` is
/// read back from its region of the slot.
pub open spec fn note_parses(b: Seq<u8>, n: Note) -> bool {
    &&& n.value_commitment@ == b.subrange(0, 32)
    &&& n.nonce@ == b.subrange(32, 56)
    &&& n.r@ == b.subrange(56, 88)
    &&& n.pk_r@ == b.subrange(88, 120)
    &&& n.idx == spec_u64_from_le_bytes(b.subrange(120, 128))
    &&& n.value == spec_u64_from_le_bytes(b.subrange(128, 136))
    &&& n.encrypted_value@ == b.subrange(136, 160)
    &&& n.blinding_factor@ == b.subrange(160, 192)
    &&& n.encrypted_blinding_factor@ == b.subrange(192, 240)
}

/// Parsing a note's own wire form yields its fields back: the slot
/// level of the round-trip law.
pub proof fn lemma_note_parses_wire(n: Note)
    ensures
        note_parses(note_wire(n), n),
{
    lemma_auto_spec_u64_to_from_le_bytes();
    let b = note_wire(n);
    assert(n.value_commitment@ =~= b.subrange(0, 32));
    assert(n.nonce@ =~= b.subrange(32, 56));
    assert(n.r@ =~= b.subrange(56, 88));
    assert(n.pk_r@ =~= b.subrange(88, 120));
    assert(spec_u64_to_le_bytes(n.idx) =~= b.subrange(120, 128));
    assert(spec_u64_to_le_bytes(n.value) =~= b.subrange(128, 136));
    assert(n.encrypted_value@ =~= b.subrange(136, 160));
    assert(n.blinding_factor@ =~= b.subrange(160, 192));
    assert(n.encrypted_blinding_factor@ =~= b.subrange(192, 240));
}

/// A slot parses to at most one note: decoding is deterministic.
pub proof fn lemma_note_parses_unique(b: Seq<u8>, n1: Note, n2: Note)
    requires
        note_parses(b, n1),
        note_parses(b, n2),
    ensures
        n1 == n2,
{
    assert(n1.value_commitment =~= n2.value_commitment);
    assert(n1.nonce =~= n2.nonce);
    assert(n1.r =~= n2.r);
    assert(n1.pk_r =~= n2.pk_r);
    assert(n1.encrypted_value =~= n2.encrypted_value);
    assert(n1.blinding_factor =~= n2.blinding_factor);
    assert(n1.encrypted_blinding_factor =~= n2.encrypted_blinding_factor);
    assert(n1 =~= n2);
}

/// A 240-byte slot is the wire form of the note it parses to: encoding
/// is the inverse of decoding, so a decoded buffer re-encodes to the
/// identical bytes.
pub proof fn lemma_note_wire_of_parses(b: Seq<u8>, n: Note)
    requires
        b.len() == NOTE_SIZE,
        note_parses(b, n),
    ensures
        note_wire(n) == b,
{
    lemma_auto_spec_u64_to_from_le_bytes();
    assert(spec_u64_to_le_bytes(n.idx) == b.subrange(120, 128));
    assert(spec_u64_to_le_bytes(n.value) == b.subrange(128, 136));
    assert(note_wire(n) =~= b);
}

/// An all-zero slot parses to the all-zero note, so the padding slots of
/// a buffer decode to default records.
pub proof fn lemma_note_parses_zero(b: Seq<u8>, n: Note)
    requires
        b.len() == NOTE_SIZE,
        forall|j: int| 0 <= j < b.len() ==> b[j] == 0,
        note_parses(b, n),
    ensures
        n == Note::zeroed(),
{
    lemma_u64_zero_bytes();
    crate::types::lemma_zero_arr::<32>();
    crate::types::lemma_zero_arr::<24>();
    crate::types::lemma_zero_arr::<48>();
    assert(b.subrange(120, 128) =~= zero_bytes(8));
    assert(b.subrange(128, 136) =~= zero_bytes(8));
    assert(n.value_commitment =~= Note::zeroed().value_commitment);
    assert(n.nonce =~= Note::zeroed().nonce);
    assert(n.r =~= Note::zeroed().r);
    assert(n.pk_r =~= Note::zeroed().pk_r);
    assert(n.encrypted_value =~= Note::zeroed().encrypted_value);
    assert(n.blinding_factor =~= Note::zeroed().blinding_factor);
    assert(n.encrypted_blinding_factor =~= Note::zeroed().encrypted_blinding_factor);
    assert(n =~= Note::zeroed());
}

// ---------------------------------------------------------------------
// The Note encoder and decoder.
// ---------------------------------------------------------------------
/// The wire forms of a sequence of notes, one slot per note.
pub open spec fn note_slots(s: Seq<Note>) -> Seq<Seq<u8>> {
    Seq::new(s.len(), |i: int| note_wire(s[i]))
}

/// Serializes one note into its 240-byte wire form.
fn note_bytes(n: &Note) -> (v: Vec<u8>)
    ensures
        v@ == note_wire(*n),
{
    let mut out: Vec<u8> = Vec::new();
    push_bytes(&mut out, n.value_commitment.as_slice());
    push_bytes(&mut out, n.nonce.as_slice());
    push_bytes(&mut out, n.r.as_slice());
    push_bytes(&mut out, n.pk_r.as_slice());
    let idx_bytes = u64_to_le_bytes(n.idx);
    push_bytes(&mut out, idx_bytes.as_slice());
    let value_bytes = u64_to_le_bytes(n.value);
    push_bytes(&mut out, value_bytes.as_slice());
    push_bytes(&mut out, n.encrypted_value.as_slice());
    push_bytes(&mut out, n.blinding_factor.as_slice());
    push_bytes(&mut out, n.encrypted_blinding_factor.bytes.as_slice());
    proof {
        assert(out@ =~= note_wire(*n));
    }
    out
}

/// Parses the 240-byte slot of `s` starting at `off` into a note.
fn note_from_slot(s: &[u8], off: usize) -> (n: Note)
    requires
        off + NOTE_SIZE <= s@.len(),
    ensures
        note_parses(s@.subrange(off as int, off + NOTE_SIZE), n),
{
    proof {
        vstd::slice::axiom_spec_len(s);
    }
    let n = Note {
        value_commitment: read_chunk::<32>(s, off),
        nonce: read_chunk::<24>(s, off + 32),
        r: read_chunk::<32>(s, off + 56),
        pk_r: read_chunk::<32>(s, off + 88),
        idx: read_u64(s, off + 120),
        value: read_u64(s, off + 128),
        encrypted_value: read_chunk::<24>(s, off + 136),
        blinding_factor: read_chunk::<32>(s, off + 160),
        encrypted_blinding_factor: BlindingFactorBytes {
            bytes: read_chunk::<48>(s, off + 192),
        },
    };
    proof {
        let b = s@.subrange(off as int, off + NOTE_SIZE);
        assert(b.subrange(0, 32) =~= s@.subrange(off as int, off + 32));
        assert(b.subrange(32, 56) =~= s@.subrange(off + 32, off + 56));
        assert(b.subrange(56, 88) =~= s@.subrange(off + 56, off + 88));
        assert(b.subrange(88, 120) =~= s@.subrange(off + 88, off + 120));
        assert(b.subrange(120, 128) =~= s@.subrange(off + 120, off + 128));
        assert(b.subrange(128, 136) =~= s@.subrange(off + 128, off + 136));
        assert(b.subrange(136, 160) =~= s@.subrange(off + 136, off + 160));
        assert(b.subrange(160, 192) =~= s@.subrange(off + 160, off + 192));
        assert(b.subrange(192, 240) =~= s@.subrange(off + 192, off + 240));
    }
    n
}

/// Serializes up to [`NOTE_MAX`] notes into the notes boundary buffer:
/// exactly `NOTE_MAX * NOTE_SIZE` bytes, the notes in input order from
/// offset zero, all trailing slots zero-filled. Fails with
/// [`Error::EncodingOverflow`] if and only if more than [`NOTE_MAX`]
/// notes are supplied.
pub fn encode_notes(notes: &Vec<Note>) -> (r: Result<Vec<u8>, Error>)
    ensures
        notes@.len() <= NOTE_MAX ==> (r matches Ok(buf) && buf@ == packed(
            note_slots(notes@),
            NOTE_MAX as int,
            NOTE_SIZE as int,
        ) && buf@.len() == NOTE_MAX * NOTE_SIZE),
        notes@.len() > NOTE_MAX ==> r == Err::<Vec<u8>, Error>(Error::EncodingOverflow),
{
    if notes.len() > NOTE_MAX {
        return Err(Error::EncodingOverflow);
    }
    let ghost slots = note_slots(notes@);
    proof {
        assert forall|k: int| 0 <= k < slots.len() implies (#[trigger] slots[k]).len()
            == NOTE_SIZE by {
            lemma_note_wire_len(notes@[k]);
        }
    }
    let mut buf: Vec<u8> = Vec::new();
    let mut i: usize = 0;
    while i < notes.len()
        invariant
            i <= notes@.len(),
            notes@.len() <= NOTE_MAX,
            slots == note_slots(notes@),
            forall|k: int| 0 <= k < slots.len() ==> (#[trigger] slots[k]).len() == NOTE_SIZE,
            buf@.len() == i * NOTE_SIZE,
            forall|j: int|
                0 <= j < buf@.len() ==> buf@[j] == packed(
                    slots,
                    NOTE_MAX as int,
                    NOTE_SIZE as int,
                )[j],
        decreases notes@.len() - i,
    {
        proof {
            assert(i * NOTE_SIZE + NOTE_SIZE == (i + 1) * NOTE_SIZE) by (nonlinear_arith);
            assert((i + 1) * NOTE_SIZE <= slots.len() * NOTE_SIZE) by (nonlinear_arith)
                requires
                    i + 1 <= slots.len(),
            ;
            assert(slots.len() * NOTE_SIZE <= NOTE_MAX * NOTE_SIZE) by (nonlinear_arith)
                requires
                    slots.len() <= NOTE_MAX,
            ;
        }
        let nb = note_bytes(&notes[i]);
        push_bytes(&mut buf, nb.as_slice());
        proof {
            lemma_note_wire_len(notes@[i as int]);
            assert(slots[i as int] == note_wire(notes@[i as int]));
            assert(buf@.len() == (i + 1) * NOTE_SIZE);
            assert forall|j: int|
                i * NOTE_SIZE <= j < (i + 1) * NOTE_SIZE implies buf@[j] == packed(
                slots,
                NOTE_MAX as int,
                NOTE_SIZE as int,
            )[j] by {
                lemma_fundamental_div_mod_converse(j, NOTE_SIZE as int, i as int, j - i * NOTE_SIZE);
            }
        }
        i = i + 1;
    }
    while buf.len() < NOTE_MAX * NOTE_SIZE
        invariant
            slots == note_slots(notes@),
            slots.len() <= NOTE_MAX,
            slots.len() * NOTE_SIZE <= buf@.len() <= NOTE_MAX * NOTE_SIZE,
            forall|j: int|
                0 <= j < buf@.len() ==> buf@[j] == packed(
                    slots,
                    NOTE_MAX as int,
                    NOTE_SIZE as int,
                )[j],
        decreases NOTE_MAX * NOTE_SIZE - buf@.len(),
    {
        buf.push(0);
    }
    proof {
        assert(buf@ =~= packed(slots, NOTE_MAX as int, NOTE_SIZE as int));
    }
    Ok(buf)
}

/// Decodes the notes boundary buffer into its [`NOTE_MAX`] slots, each
/// parsed independently. Fails with [`Error::DecodingTruncated`] if and
/// only if the buffer is shorter than `NOTE_MAX * NOTE_SIZE` bytes.
pub fn decode_notes(buf: &[u8]) -> (r: Result<Vec<Note>, Error>)
    ensures
        buf@.len() < NOTE_MAX * NOTE_SIZE ==> r == Err::<Vec<Note>, Error>(
            Error::DecodingTruncated,
        ),
        buf@.len() >= NOTE_MAX * NOTE_SIZE ==> (r matches Ok(v) && v@.len() == NOTE_MAX
            && forall|i: int|
            0 <= i < NOTE_MAX ==> note_parses(
                buf@.subrange(i * NOTE_SIZE, (i + 1) * NOTE_SIZE),
                #[trigger] v@[i],
            )),
{
    if buf.len() < NOTE_MAX * NOTE_SIZE {
        return Err(Error::DecodingTruncated);
    }
    let mut out: Vec<Note> = Vec::new();
    let mut i: usize = 0;
    while i < NOTE_MAX
        invariant
            i <= NOTE_MAX,
            buf@.len() >= NOTE_MAX * NOTE_SIZE,
            out@.len() == i,
            forall|k: int|
                0 <= k < i ==> note_parses(
                    buf@.subrange(k * NOTE_SIZE, (k + 1) * NOTE_SIZE),
                    #[trigger] out@[k],
                ),
        decreases NOTE_MAX - i,
    {
        proof {
            assert((i + 1) * NOTE_SIZE <= NOTE_MAX * NOTE_SIZE) by (nonlinear_arith)
                requires
                    i + 1 <= NOTE_MAX,
            ;
            assert(i * NOTE_SIZE + NOTE_SIZE == (i + 1) * NOTE_SIZE) by (nonlinear_arith);
        }
        let n = note_from_slot(buf, i * NOTE_SIZE);
        out.push(n);
        i = i + 1;
    }
    Ok(out)
}

/// The buffer-level round-trip law for notes: decoding the encoding of
/// up to [`NOTE_MAX`] notes yields the same notes back in order, and
/// every padding slot decodes to the all-zero default note.
pub proof fn lemma_notes_round_trip(notes: Seq<Note>, decoded: Seq<Note>)
    requires
        notes.len() <= NOTE_MAX,
        decoded.len() == NOTE_MAX,
        forall|i: int|
            0 <= i < NOTE_MAX ==> note_parses(
                packed(note_slots(notes), NOTE_MAX as int, NOTE_SIZE as int).subrange(
                    i * NOTE_SIZE,
                    (i + 1) * NOTE_SIZE,
                ),
                #[trigger] decoded[i],
            ),
    ensures
        forall|i: int| 0 <= i < notes.len() ==> #[trigger] decoded[i] == notes[i],
        forall|i: int| notes.len() <= i < NOTE_MAX ==> #[trigger] decoded[i] == Note::zeroed(),
{
    let slots = note_slots(notes);
    assert forall|k: int| 0 <= k < slots.len() implies (#[trigger] slots[k]).len()
        == NOTE_SIZE by {
        lemma_note_wire_len(notes[k]);
    }
    let b = packed(slots, NOTE_MAX as int, NOTE_SIZE as int);
    assert forall|i: int| 0 <= i < notes.len() implies #[trigger] decoded[i] == notes[i] by {
        lemma_packed_slot(slots, NOTE_MAX as int, NOTE_SIZE as int, i);
        lemma_note_parses_wire(notes[i]);
        lemma_note_parses_unique(slots[i], decoded[i], notes[i]);
    }
    assert forall|i: int| notes.len() <= i < NOTE_MAX implies #[trigger] decoded[i]
        == Note::zeroed() by {
        let slot = b.subrange(i * NOTE_SIZE, (i + 1) * NOTE_SIZE);
        assert((i + 1) * NOTE_SIZE <= NOTE_MAX * NOTE_SIZE) by (nonlinear_arith)
            requires
                i + 1 <= NOTE_MAX,
        ;
        assert(slots.len() * NOTE_SIZE <= i * NOTE_SIZE) by (nonlinear_arith)
            requires
                slots.len() <= i,
        ;
        assert forall|j: int| 0 <= j < slot.len() implies slot[j] == 0 by {
            lemma_packed_padding(slots, NOTE_MAX as int, NOTE_SIZE as int, i * NOTE_SIZE + j);
        }
        lemma_note_parses_zero(slot, decoded[i]);
    }
}

// ---------------------------------------------------------------------
// The Input wire layout, encoder and decoder.
// ---------------------------------------------------------------------
/// The 64-byte wire form of an input: the nullifier's scalar encoding
/// followed by the merkle root's.
pub open spec fn input_wire(i: Input) -> Seq<u8> {
    i.nullifier@ + i.merkle_root@
}

/// An input's wire form is exactly [`INPUT_SIZE`] bytes.
pub proof fn lemma_input_wire_len(i: Input)
    ensures
        input_wire(i).len() == INPUT_SIZE,
{
}

/// The 64-byte slot `b` parses to the input `i`.
pub open spec fn input_parses(b: Seq<u8>, i: Input) -> bool {
    &&& i.nullifier@ == b.subrange(0, 32)
    &&& i.merkle_root@ == b.subrange(32, 64)
}

/// Parsing an input's own wire form yields its fields back.
pub proof fn lemma_input_parses_wire(i: Input)
    ensures
        input_parses(input_wire(i), i),
{
    assert(i.nullifier@ =~= input_wire(i).subrange(0, 32));
    assert(i.merkle_root@ =~= input_wire(i).subrange(32, 64));
}

/// A slot parses to at most one input.
pub proof fn lemma_input_parses_unique(b: Seq<u8>, i1: Input, i2: Input)
    requires
        input_parses(b, i1),
        input_parses(b, i2),
    ensures
        i1 == i2,
{
    assert(i1.nullifier =~= i2.nullifier);
    assert(i1.merkle_root =~= i2.merkle_root);
    assert(i1 =~= i2);
}

/// A 64-byte slot is the wire form of the input it parses to.
pub proof fn lemma_input_wire_of_parses(b: Seq<u8>, i: Input)
    requires
        b.len() == INPUT_SIZE,
        input_parses(b, i),
    ensures
        input_wire(i) == b,
{
    assert(input_wire(i) =~= b);
}

/// An all-zero slot parses to the all-zero input.
pub proof fn lemma_input_parses_zero(b: Seq<u8>, i: Input)
    requires
        b.len() == INPUT_SIZE,
        forall|j: int| 0 <= j < b.len() ==> b[j] == 0,
        input_parses(b, i),
    ensures
        i == Input::zeroed(),
{
    crate::types::lemma_zero_arr::<32>();
    assert(i.nullifier =~= Input::zeroed().nullifier);
    assert(i.merkle_root =~= Input::zeroed().merkle_root);
    assert(i =~= Input::zeroed());
}

/// The wire forms of a sequence of inputs, one slot per input.
pub open spec fn input_slots(s: Seq<Input>) -> Seq<Seq<u8>> {
    Seq::new(s.len(), |i: int| input_wire(s[i]))
}

/// Serializes one input into its 64-byte wire form.
fn input_bytes(i: &Input) -> (v: Vec<u8>)
    ensures
        v@ == input_wire(*i),
{
    let mut out: Vec<u8> = Vec::new();
    push_bytes(&mut out, i.nullifier.as_slice());
    push_bytes(&mut out, i.merkle_root.as_slice());
    proof {
        assert(out@ =~= input_wire(*i));
    }
    out
}

/// Parses the 64-byte slot of `s` starting at `off` into an input.
fn input_from_slot(s: &[u8], off: usize) -> (i: Input)
    requires
        off + INPUT_SIZE <= s@.len(),
    ensures
        input_parses(s@.subrange(off as int, off + INPUT_SIZE), i),
{
    proof {
        vstd::slice::axiom_spec_len(s);
    }
    let i = Input { nullifier: read_chunk::<32>(s, off), merkle_root: read_chunk::<32>(s, off + 32) };
    proof {
        let b = s@.subrange(off as int, off + INPUT_SIZE);
        assert(b.subrange(0, 32) =~= s@.subrange(off as int, off + 32));
        assert(b.subrange(32, 64) =~= s@.subrange(off + 32, off + 64));
    }
    i
}

/// Serializes up to [`INPUT_MAX`] inputs into the inputs boundary
/// buffer: exactly `INPUT_MAX * INPUT_SIZE` bytes, the inputs in input
/// order from offset zero, all trailing slots zero-filled. Fails with
/// [`Error::EncodingOverflow`] if and only if more than [`INPUT_MAX`]
/// inputs are supplied.
pub fn encode_inputs(inputs: &Vec<Input>) -> (r: Result<Vec<u8>, Error>)
    ensures
        inputs@.len() <= INPUT_MAX ==> (r matches Ok(buf) && buf@ == packed(
            input_slots(inputs@),
            INPUT_MAX as int,
            INPUT_SIZE as int,
        ) && buf@.len() == INPUT_MAX * INPUT_SIZE),
        inputs@.len() > INPUT_MAX ==> r == Err::<Vec<u8>, Error>(Error::EncodingOverflow),
{
    if inputs.len() > INPUT_MAX {
        return Err(Error::EncodingOverflow);
    }
    let ghost slots = input_slots(inputs@);
    proof {
        assert forall|k: int| 0 <= k < slots.len() implies (#[trigger] slots[k]).len()
            == INPUT_SIZE by {
            lemma_input_wire_len(inputs@[k]);
        }
    }
    let mut buf: Vec<u8> = Vec::new();
    let mut i: usize = 0;
    while i < inputs.len()
        invariant
            i <= inputs@.len(),
            inputs@.len() <= INPUT_MAX,
            slots == input_slots(inputs@),
            forall|k: int| 0 <= k < slots.len() ==> (#[trigger] slots[k]).len() == INPUT_SIZE,
            buf@.len() == i * INPUT_SIZE,
            forall|j: int|
                0 <= j < buf@.len() ==> buf@[j] == packed(
                    slots,
                    INPUT_MAX as int,
                    INPUT_SIZE as int,
                )[j],
        decreases inputs@.len() - i,
    {
        proof {
            assert(i * INPUT_SIZE + INPUT_SIZE == (i + 1) * INPUT_SIZE) by (nonlinear_arith);
            assert((i + 1) * INPUT_SIZE <= slots.len() * INPUT_SIZE) by (nonlinear_arith)
                requires
                    i + 1 <= slots.len(),
            ;
            assert(slots.len() * INPUT_SIZE <= INPUT_MAX * INPUT_SIZE) by (nonlinear_arith)
                requires
                    slots.len() <= INPUT_MAX,
            ;
        }
        let ib = input_bytes(&inputs[i]);
        push_bytes(&mut buf, ib.as_slice());
        proof {
            lemma_input_wire_len(inputs@[i as int]);
            assert(slots[i as int] == input_wire(inputs@[i as int]));
            assert(buf@.len() == (i + 1) * INPUT_SIZE);
            assert forall|j: int|
                i * INPUT_SIZE <= j < (i + 1) * INPUT_SIZE implies buf@[j] == packed(
                slots,
                INPUT_MAX as int,
                INPUT_SIZE as int,
            )[j] by {
                lemma_fundamental_div_mod_converse(
                    j,
                    INPUT_SIZE as int,
                    i as int,
                    j - i * INPUT_SIZE,
                );
            }
        }
        i = i + 1;
    }
    while buf.len() < INPUT_MAX * INPUT_SIZE
        invariant
            slots == input_slots(inputs@),
            slots.len() <= INPUT_MAX,
            slots.len() * INPUT_SIZE <= buf@.len() <= INPUT_MAX * INPUT_SIZE,
            forall|j: int|
                0 <= j < buf@.len() ==> buf@[j] == packed(
                    slots,
                    INPUT_MAX as int,
                    INPUT_SIZE as int,
                )[j],
        decreases INPUT_MAX * INPUT_SIZE - buf@.len(),
    {
        buf.push(0);
    }
    proof {
        assert(buf@ =~= packed(slots, INPUT_MAX as int, INPUT_SIZE as int));
    }
    Ok(buf)
}

/// Decodes the inputs boundary buffer into its [`INPUT_MAX`] slots,
/// each parsed independently. Fails with [`Error::DecodingTruncated`]
/// if and only if the buffer is shorter than `INPUT_MAX * INPUT_SIZE`
/// bytes.
pub fn decode_inputs(buf: &[u8]) -> (r: Result<Vec<Input>, Error>)
    ensures
        buf@.len() < INPUT_MAX * INPUT_SIZE ==> r == Err::<Vec<Input>, Error>(
            Error::DecodingTruncated,
        ),
        buf@.len() >= INPUT_MAX * INPUT_SIZE ==> (r matches Ok(v) && v@.len() == INPUT_MAX
            && forall|i: int|
            0 <= i < INPUT_MAX ==> input_parses(
                buf@.subrange(i * INPUT_SIZE, (i + 1) * INPUT_SIZE),
                #[trigger] v@[i],
            )),
{
    if buf.len() < INPUT_MAX * INPUT_SIZE {
        return Err(Error::DecodingTruncated);
    }
    let mut out: Vec<Input> = Vec::new();
    let mut i: usize = 0;
    while i < INPUT_MAX
        invariant
            i <= INPUT_MAX,
            buf@.len() >= INPUT_MAX * INPUT_SIZE,
            out@.len() == i,
            forall|k: int|
                0 <= k < i ==> input_parses(
                    buf@.subrange(k * INPUT_SIZE, (k + 1) * INPUT_SIZE),
                    #[trigger] out@[k],
                ),
        decreases INPUT_MAX - i,
    {
        proof {
            assert((i + 1) * INPUT_SIZE <= INPUT_MAX * INPUT_SIZE) by (nonlinear_arith)
                requires
                    i + 1 <= INPUT_MAX,
            ;
            assert(i * INPUT_SIZE + INPUT_SIZE == (i + 1) * INPUT_SIZE) by (nonlinear_arith);
        }
        let n = input_from_slot(buf, i * INPUT_SIZE);
        out.push(n);
        i = i + 1;
    }
    Ok(out)
}

/// The buffer-level round-trip law for inputs: decoding the encoding of
/// up to [`INPUT_MAX`] inputs yields the same inputs back in order, and
/// every padding slot decodes to the all-zero default input.
pub proof fn lemma_inputs_round_trip(inputs: Seq<Input>, decoded: Seq<Input>)
    requires
        inputs.len() <= INPUT_MAX,
        decoded.len() == INPUT_MAX,
        forall|i: int|
            0 <= i < INPUT_MAX ==> input_parses(
                packed(input_slots(inputs), INPUT_MAX as int, INPUT_SIZE as int).subrange(
                    i * INPUT_SIZE,
                    (i + 1) * INPUT_SIZE,
                ),
                #[trigger] decoded[i],
            ),
    ensures
        forall|i: int| 0 <= i < inputs.len() ==> #[trigger] decoded[i] == inputs[i],
        forall|i: int| inputs.len() <= i < INPUT_MAX ==> #[trigger] decoded[i] == Input::zeroed(),
{
    let slots = input_slots(inputs);
    assert forall|k: int| 0 <= k < slots.len() implies (#[trigger] slots[k]).len()
        == INPUT_SIZE by {
        lemma_input_wire_len(inputs[k]);
    }
    let b = packed(slots, INPUT_MAX as int, INPUT_SIZE as int);
    assert forall|i: int| 0 <= i < inputs.len() implies #[trigger] decoded[i] == inputs[i] by {
        lemma_packed_slot(slots, INPUT_MAX as int, INPUT_SIZE as int, i);
        lemma_input_parses_wire(inputs[i]);
        lemma_input_parses_unique(slots[i], decoded[i], inputs[i]);
    }
    assert forall|i: int| inputs.len() <= i < INPUT_MAX implies #[trigger] decoded[i]
        == Input::zeroed() by {
        let slot = b.subrange(i * INPUT_SIZE, (i + 1) * INPUT_SIZE);
        assert((i + 1) * INPUT_SIZE <= INPUT_MAX * INPUT_SIZE) by (nonlinear_arith)
            requires
                i + 1 <= INPUT_MAX,
        ;
        assert(slots.len() * INPUT_SIZE <= i * INPUT_SIZE) by (nonlinear_arith)
            requires
                slots.len() <= i,
        ;
        assert forall|j: int| 0 <= j < slot.len() implies slot[j] == 0 by {
            lemma_packed_padding(slots, INPUT_MAX as int, INPUT_SIZE as int, i * INPUT_SIZE + j);
        }
        lemma_input_parses_zero(slot, decoded[i]);
    }
}

// ---------------------------------------------------------------------
// The Nullifier wire layout, encoder and decoder.
// ---------------------------------------------------------------------
/// The 32-byte wire form of a nullifier: its scalar encoding verbatim.
pub open spec fn nullifier_wire(n: Nullifier) -> Seq<u8> {
    n@
}

/// A nullifier's wire form is exactly [`NULLIFIER_SIZE`] bytes.
pub proof fn lemma_nullifier_wire_len(n: Nullifier)
    ensures
        nullifier_wire(n).len() == NULLIFIER_SIZE,
{
}

/// The 32-byte slot `b` parses to the nullifier `n`.
pub open spec fn nullifier_parses(b: Seq<u8>, n: Nullifier) -> bool {
    n@ == b.subrange(0, 32)
}

/// Parsing a nullifier's own wire form yields it back.
pub proof fn lemma_nullifier_parses_wire(n: Nullifier)
    ensures
        nullifier_parses(nullifier_wire(n), n),
{
    assert(n@ =~= nullifier_wire(n).subrange(0, 32));
}

/// A slot parses to at most one nullifier.
pub proof fn lemma_nullifier_parses_unique(b: Seq<u8>, n1: Nullifier, n2: Nullifier)
    requires
        nullifier_parses(b, n1),
        nullifier_parses(b, n2),
    ensures
        n1 == n2,
{
    assert(n1.bytes =~= n2.bytes);
    assert(n1 =~= n2);
}

/// An all-zero slot parses to the all-zero nullifier.
pub proof fn lemma_nullifier_parses_zero(b: Seq<u8>, n: Nullifier)
    requires
        b.len() == NULLIFIER_SIZE,
        forall|j: int| 0 <= j < b.len() ==> b[j] == 0,
        nullifier_parses(b, n),
    ensures
        n == Nullifier::zeroed(),
{
    crate::types::lemma_zero_arr::<32>();
    assert(n.bytes =~= Nullifier::zeroed().bytes);
    assert(n =~= Nullifier::zeroed());
}

/// The wire forms of a sequence of nullifiers, one slot each.
pub open spec fn nullifier_slots(s: Seq<Nullifier>) -> Seq<Seq<u8>> {
    Seq::new(s.len(), |i: int| nullifier_wire(s[i]))
}

/// Parses the 32-byte slot of `s` starting at `off` into a nullifier.
fn nullifier_from_slot(s: &[u8], off: usize) -> (n: Nullifier)
    requires
        off + NULLIFIER_SIZE <= s@.len(),
    ensures
        nullifier_parses(s@.subrange(off as int, off + NULLIFIER_SIZE), n),
{
    proof {
        vstd::slice::axiom_spec_len(s);
    }
    let n = Nullifier { bytes: read_chunk::<32>(s, off) };
    proof {
        let b = s@.subrange(off as int, off + NULLIFIER_SIZE);
        assert(b.subrange(0, 32) =~= s@.subrange(off as int, off + 32));
    }
    n
}

/// Serializes up to [`NULLIFIER_MAX`] nullifiers into the nullifiers
/// boundary buffer: exactly `NULLIFIER_MAX * NULLIFIER_SIZE` bytes, the
/// nullifiers in input order from offset zero, all trailing slots
/// zero-filled. Fails with [`Error::EncodingOverflow`] if and only if
/// more than [`NULLIFIER_MAX`] nullifiers are supplied.
pub fn encode_nullifiers(nullifiers: &Vec<Nullifier>) -> (r: Result<Vec<u8>, Error>)
    ensures
        nullifiers@.len() <= NULLIFIER_MAX ==> (r matches Ok(buf) && buf@ == packed(
            nullifier_slots(nullifiers@),
            NULLIFIER_MAX as int,
            NULLIFIER_SIZE as int,
        ) && buf@.len() == NULLIFIER_MAX * NULLIFIER_SIZE),
        nullifiers@.len() > NULLIFIER_MAX ==> r == Err::<Vec<u8>, Error>(Error::EncodingOverflow),
{
    if nullifiers.len() > NULLIFIER_MAX {
        return Err(Error::EncodingOverflow);
    }
    let ghost slots = nullifier_slots(nullifiers@);
    let mut buf: Vec<u8> = Vec::new();
    let mut i: usize = 0;
    while i < nullifiers.len()
        invariant
            i <= nullifiers@.len(),
            nullifiers@.len() <= NULLIFIER_MAX,
            slots == nullifier_slots(nullifiers@),
            buf@.len() == i * NULLIFIER_SIZE,
            forall|j: int|
                0 <= j < buf@.len() ==> buf@[j] == packed(
                    slots,
                    NULLIFIER_MAX as int,
                    NULLIFIER_SIZE as int,
                )[j],
        decreases nullifiers@.len() - i,
    {
        proof {
            assert(i * NULLIFIER_SIZE + NULLIFIER_SIZE == (i + 1) * NULLIFIER_SIZE)
                by (nonlinear_arith);
            assert((i + 1) * NULLIFIER_SIZE <= slots.len() * NULLIFIER_SIZE) by (nonlinear_arith)
                requires
                    i + 1 <= slots.len(),
            ;
            assert(slots.len() * NULLIFIER_SIZE <= NULLIFIER_MAX * NULLIFIER_SIZE)
                by (nonlinear_arith)
                requires
                    slots.len() <= NULLIFIER_MAX,
            ;
        }
        let nb = nullifiers[i].as_bytes();
        push_bytes(&mut buf, nb.as_slice());
        proof {
            assert(slots[i as int] == nullifier_wire(nullifiers@[i as int]));
            assert(buf@.len() == (i + 1) * NULLIFIER_SIZE);
            assert forall|j: int|
                i * NULLIFIER_SIZE <= j < (i + 1) * NULLIFIER_SIZE implies buf@[j] == packed(
                slots,
                NULLIFIER_MAX as int,
                NULLIFIER_SIZE as int,
            )[j] by {
                lemma_fundamental_div_mod_converse(
                    j,
                    NULLIFIER_SIZE as int,
                    i as int,
                    j - i * NULLIFIER_SIZE,
                );
            }
        }
        i = i + 1;
    }
    while buf.len() < NULLIFIER_MAX * NULLIFIER_SIZE
        invariant
            slots == nullifier_slots(nullifiers@),
            slots.len() <= NULLIFIER_MAX,
            slots.len() * NULLIFIER_SIZE <= buf@.len() <= NULLIFIER_MAX * NULLIFIER_SIZE,
            forall|j: int|
                0 <= j < buf@.len() ==> buf@[j] == packed(
                    slots,
                    NULLIFIER_MAX as int,
                    NULLIFIER_SIZE as int,
                )[j],
        decreases NULLIFIER_MAX * NULLIFIER_SIZE - buf@.len(),
    {
        buf.push(0);
    }
    proof {
        assert(buf@ =~= packed(slots, NULLIFIER_MAX as int, NULLIFIER_SIZE as int));
    }
    Ok(buf)
}

/// Decodes the nullifiers boundary buffer into its [`NULLIFIER_MAX`]
/// slots, each parsed independently. Fails with
/// [`Error::DecodingTruncated`] if and only if the buffer is shorter
/// than `NULLIFIER_MAX * NULLIFIER_SIZE` bytes.
pub fn decode_nullifiers(buf: &[u8]) -> (r: Result<Vec<Nullifier>, Error>)
    ensures
        buf@.len() < NULLIFIER_MAX * NULLIFIER_SIZE ==> r == Err::<Vec<Nullifier>, Error>(
            Error::DecodingTruncated,
        ),
        buf@.len() >= NULLIFIER_MAX * NULLIFIER_SIZE ==> (r matches Ok(v) && v@.len()
            == NULLIFIER_MAX && forall|i: int|
            0 <= i < NULLIFIER_MAX ==> nullifier_parses(
                buf@.subrange(i * NULLIFIER_SIZE, (i + 1) * NULLIFIER_SIZE),
                #[trigger] v@[i],
            )),
{
    if buf.len() < NULLIFIER_MAX * NULLIFIER_SIZE {
        return Err(Error::DecodingTruncated);
    }
    let mut out: Vec<Nullifier> = Vec::new();
    let mut i: usize = 0;
    while i < NULLIFIER_MAX
        invariant
            i <= NULLIFIER_MAX,
            buf@.len() >= NULLIFIER_MAX * NULLIFIER_SIZE,
            out@.len() == i,
            forall|k: int|
                0 <= k < i ==> nullifier_parses(
                    buf@.subrange(k * NULLIFIER_SIZE, (k + 1) * NULLIFIER_SIZE),
                    #[trigger] out@[k],
                ),
        decreases NULLIFIER_MAX - i,
    {
        proof {
            assert((i + 1) * NULLIFIER_SIZE <= NULLIFIER_MAX * NULLIFIER_SIZE)
                by (nonlinear_arith)
                requires
                    i + 1 <= NULLIFIER_MAX,
            ;
            assert(i * NULLIFIER_SIZE + NULLIFIER_SIZE == (i + 1) * NULLIFIER_SIZE)
                by (nonlinear_arith);
        }
        let n = nullifier_from_slot(buf, i * NULLIFIER_SIZE);
        out.push(n);
        i = i + 1;
    }
    Ok(out)
}

/// The buffer-level round-trip law for nullifiers: decoding the
/// encoding of up to [`NULLIFIER_MAX`] nullifiers yields the same
/// nullifiers back in order, and every padding slot decodes to the
/// all-zero default nullifier.
pub proof fn lemma_nullifiers_round_trip(nullifiers: Seq<Nullifier>, decoded: Seq<Nullifier>)
    requires
        nullifiers.len() <= NULLIFIER_MAX,
        decoded.len() == NULLIFIER_MAX,
        forall|i: int|
            0 <= i < NULLIFIER_MAX ==> nullifier_parses(
                packed(nullifier_slots(nullifiers), NULLIFIER_MAX as int, NULLIFIER_SIZE as int)
                    .subrange(i * NULLIFIER_SIZE, (i + 1) * NULLIFIER_SIZE),
                #[trigger] decoded[i],
            ),
    ensures
        forall|i: int| 0 <= i < nullifiers.len() ==> #[trigger] decoded[i] == nullifiers[i],
        forall|i: int|
            nullifiers.len() <= i < NULLIFIER_MAX ==> #[trigger] decoded[i] == Nullifier::zeroed(),
{
    let slots = nullifier_slots(nullifiers);
    let b = packed(slots, NULLIFIER_MAX as int, NULLIFIER_SIZE as int);
    assert forall|i: int| 0 <= i < nullifiers.len() implies #[trigger] decoded[i]
        == nullifiers[i] by {
        lemma_packed_slot(slots, NULLIFIER_MAX as int, NULLIFIER_SIZE as int, i);
        lemma_nullifier_parses_wire(nullifiers[i]);
        lemma_nullifier_parses_unique(slots[i], decoded[i], nullifiers[i]);
    }
    assert forall|i: int| nullifiers.len() <= i < NULLIFIER_MAX implies #[trigger] decoded[i]
        == Nullifier::zeroed() by {
        let slot = b.subrange(i * NULLIFIER_SIZE, (i + 1) * NULLIFIER_SIZE);
        assert((i + 1) * NULLIFIER_SIZE <= NULLIFIER_MAX * NULLIFIER_SIZE) by (nonlinear_arith)
            requires
                i + 1 <= NULLIFIER_MAX,
        ;
        assert(slots.len() * NULLIFIER_SIZE <= i * NULLIFIER_SIZE) by (nonlinear_arith)
            requires
                slots.len() <= i,
        ;
        assert forall|j: int| 0 <= j < slot.len() implies slot[j] == 0 by {
            lemma_packed_padding(
                slots,
                NULLIFIER_MAX as int,
                NULLIFIER_SIZE as int,
                i * NULLIFIER_SIZE + j,
            );
        }
        lemma_nullifier_parses_zero(slot, decoded[i]);
    }
}

// ---------------------------------------------------------------------
// The PublicKey and Proof encoders and decoders: single-slot buffers
// whose wire form is the record's bytes verbatim.
// ---------------------------------------------------------------------
/// Serializes a public key into its boundary buffer: its 64 bytes
/// verbatim.
pub fn encode_key(key: &PublicKey) -> (v: Vec<u8>)
    ensures
        v@ == key@,
        v@.len() == KEY_SIZE,
{
    let mut out: Vec<u8> = Vec::new();
    push_bytes(&mut out, key.bytes.as_slice());
    out
}

/// Decodes the public-key boundary buffer. Fails with
/// [`Error::DecodingTruncated`] if and only if the buffer is shorter
/// than [`KEY_SIZE`] bytes.
pub fn decode_key(buf: &[u8]) -> (r: Result<PublicKey, Error>)
    ensures
        buf@.len() < KEY_SIZE ==> r == Err::<PublicKey, Error>(Error::DecodingTruncated),
        buf@.len() >= KEY_SIZE ==> (r matches Ok(k) && k@ == buf@.subrange(0, KEY_SIZE as int)),
{
    if buf.len() < KEY_SIZE {
        return Err(Error::DecodingTruncated);
    }
    Ok(PublicKey { bytes: read_chunk::<64>(buf, 0) })
}

/// Serializes a proof into its boundary buffer: its bytes verbatim,
/// uninterpreted.
pub fn encode_proof(proof_blob: &Proof) -> (v: Vec<u8>)
    ensures
        v@ == proof_blob@,
        v@.len() == PROOF_SIZE,
{
    let bytes = proof_blob.to_bytes();
    let mut out: Vec<u8> = Vec::new();
    push_bytes(&mut out, bytes.as_slice());
    out
}

/// Decodes the proof boundary buffer, interpreting nothing of its
/// content. Fails with [`Error::DecodingTruncated`] if and only if the
/// buffer is shorter than [`PROOF_SIZE`] bytes.
pub fn decode_proof(buf: &[u8]) -> (r: Result<Proof, Error>)
    ensures
        buf@.len() < PROOF_SIZE ==> r == Err::<Proof, Error>(Error::DecodingTruncated),
        buf@.len() >= PROOF_SIZE ==> (r matches Ok(p) && p@ == buf@.subrange(0, PROOF_SIZE as int)),
{
    if buf.len() < PROOF_SIZE {
        return Err(Error::DecodingTruncated);
    }
    let bytes = read_chunk::<1097>(buf, 0);
    Ok(Proof::from_bytes(bytes))
}

// ---------------------------------------------------------------------
// The Item wire layout, encoder and decoder.
// ---------------------------------------------------------------------
/// The 337-byte wire form of an item: the note's wire form, the public
/// key, the role tag and the nullifier, in that order.
pub open spec fn item_wire(it: Item) -> Seq<u8> {
    note_wire(it.note) + it.pk@ + seq![it.role] + it.nullifier@
}

/// An item's wire form is exactly [`ITEM_SIZE`] bytes.
pub proof fn lemma_item_wire_len(it: Item)
    ensures
        item_wire(it).len() == ITEM_SIZE,
{
    lemma_note_wire_len(it.note);
}

/// The 337-byte slot `b` parses to the item `it`. A slot whose role
/// byte is not a recognised tag parses to no item at all.
pub open spec fn item_parses(b: Seq<u8>, it: Item) -> bool {
    &&& note_parses(b.subrange(0, 240), it.note)
    &&& it.pk@ == b.subrange(240, 304)
    &&& it.role == b[304]
    &&& it.nullifier@ == b.subrange(305, 337)
}

/// Parsing an item's own wire form yields its fields back.
pub proof fn lemma_item_parses_wire(it: Item)
    ensures
        item_parses(item_wire(it), it),
{
    lemma_note_wire_len(it.note);
    lemma_note_parses_wire(it.note);
    let b = item_wire(it);
    assert(b.subrange(0, 240) =~= note_wire(it.note));
    assert(it.pk@ =~= b.subrange(240, 304));
    assert(b[304] == it.role);
    assert(it.nullifier@ =~= b.subrange(305, 337));
}

/// A slot parses to at most one item.
pub proof fn lemma_item_parses_unique(b: Seq<u8>, i1: Item, i2: Item)
    requires
        item_parses(b, i1),
        item_parses(b, i2),
    ensures
        i1 == i2,
{
    lemma_note_parses_unique(b.subrange(0, 240), i1.note, i2.note);
    assert(i1.pk.bytes =~= i2.pk.bytes);
    assert(i1.pk =~= i2.pk);
    assert(i1.nullifier.bytes =~= i2.nullifier.bytes);
    assert(i1.nullifier =~= i2.nullifier);
    assert(i1 =~= i2);
}

/// A 337-byte slot is the wire form of the item it parses to.
pub proof fn lemma_item_wire_of_parses(b: Seq<u8>, it: Item)
    requires
        b.len() == ITEM_SIZE,
        item_parses(b, it),
    ensures
        item_wire(it) == b,
{
    lemma_note_wire_len(it.note);
    lemma_note_wire_of_parses(b.subrange(0, 240), it.note);
    assert(item_wire(it) =~= b);
}

/// Serializes one item into the item boundary buffer: exactly
/// [`ITEM_SIZE`] bytes.
pub fn encode_item(item: &Item) -> (v: Vec<u8>)
    ensures
        v@ == item_wire(*item),
        v@.len() == ITEM_SIZE,
{
    let mut out = note_bytes(&item.note);
    push_bytes(&mut out, item.pk.bytes.as_slice());
    out.push(item.role);
    push_bytes(&mut out, item.nullifier.bytes.as_slice());
    proof {
        lemma_note_wire_len(item.note);
        assert(out@ =~= item_wire(*item));
    }
    out
}

/// Decodes the item boundary buffer. Fails with
/// [`Error::DecodingTruncated`] if and only if the buffer is shorter
/// than [`ITEM_SIZE`] bytes, and with [`Error::DecodingMalformed`] if
/// and only if the role byte is neither [`ROLE_INPUT_TAG`] nor
/// [`ROLE_OUTPUT_TAG`]: an unrecognised role is rejected, never
/// defaulted.
pub fn decode_item(buf: &[u8]) -> (r: Result<Item, Error>)
    ensures
        buf@.len() < ITEM_SIZE ==> r == Err::<Item, Error>(Error::DecodingTruncated),
        buf@.len() >= ITEM_SIZE && !(buf@[304] == ROLE_INPUT_TAG || buf@[304] == ROLE_OUTPUT_TAG)
            ==> r == Err::<Item, Error>(Error::DecodingMalformed),
        buf@.len() >= ITEM_SIZE && (buf@[304] == ROLE_INPUT_TAG || buf@[304] == ROLE_OUTPUT_TAG)
            ==> (r matches Ok(it) && item_parses(buf@.subrange(0, ITEM_SIZE as int), it)
            && item_wf(it)),
{
    if buf.len() < ITEM_SIZE {
        return Err(Error::DecodingTruncated);
    }
    let role = buf[304];
    if !(role == ROLE_INPUT_TAG || role == ROLE_OUTPUT_TAG) {
        return Err(Error::DecodingMalformed);
    }
    let note = note_from_slot(buf, 0);
    let pk = PublicKey { bytes: read_chunk::<64>(buf, 240) };
    let nullifier = Nullifier { bytes: read_chunk::<32>(buf, 305) };
    let it = Item { note, pk, role, nullifier };
    proof {
        let b = buf@.subrange(0, ITEM_SIZE as int);
        assert(b.subrange(0, 240) =~= buf@.subrange(0, 240));
        assert(b.subrange(240, 304) =~= buf@.subrange(240, 304));
        assert(b.subrange(305, 337) =~= buf@.subrange(305, 337));
        assert(b[304] == buf@[304]);
    }
    Ok(it)
}

/// The buffer-level round-trip law for items: decoding the encoding of
/// an item yields the same item back.
pub proof fn lemma_item_round_trip(item: Item, decoded: Item)
    requires
        item_parses(item_wire(item), decoded),
    ensures
        decoded == item,
{
    lemma_item_parses_wire(item);
    lemma_item_parses_unique(item_wire(item), decoded, item);
}

} // verus!
