use phoenix_abi::codec::decode_inputs;
use phoenix_abi::codec::decode_item;
use phoenix_abi::codec::decode_key;
use phoenix_abi::codec::decode_notes;
use phoenix_abi::codec::decode_nullifiers;
use phoenix_abi::codec::decode_proof;
use phoenix_abi::codec::encode_inputs;
use phoenix_abi::codec::encode_item;
use phoenix_abi::codec::encode_key;
use phoenix_abi::codec::encode_notes;
use phoenix_abi::codec::encode_nullifiers;
use phoenix_abi::codec::encode_proof;
use phoenix_abi::domain::NoteVariant;
use phoenix_abi::domain::ObfuscatedNote;
use phoenix_abi::domain::Role;
use phoenix_abi::domain::TaggedNote;
use phoenix_abi::domain::TransactionInput;
use phoenix_abi::domain::TransactionOutput;
use phoenix_abi::domain::TransparentNote;
use phoenix_abi::error::Error;
use phoenix_abi::types::BlindingFactorBytes;
use phoenix_abi::types::Input;
use phoenix_abi::types::Item;
use phoenix_abi::types::Note;
use phoenix_abi::types::Nullifier;
use phoenix_abi::types::Proof;
use phoenix_abi::types::PublicKey;
use phoenix_abi::types::INPUT_MAX;
use phoenix_abi::types::INPUT_SIZE;
use phoenix_abi::types::ITEM_SIZE;
use phoenix_abi::types::KEY_SIZE;
use phoenix_abi::types::NOTE_MAX;
use phoenix_abi::types::NOTE_SIZE;
use phoenix_abi::types::NULLIFIER_MAX;
use phoenix_abi::types::NULLIFIER_SIZE;
use phoenix_abi::types::PROOF_SIZE;

fn sample_note(value: u64) -> Note {
    Note {
        value_commitment: [0xA1; 32],
        nonce: [0xB2; 24],
        r: [0xC3; 32],
        pk_r: [0xD4; 32],
        idx: 42,
        value,
        encrypted_value: [0xE5; 24],
        blinding_factor: [0xF6; 32],
        encrypted_blinding_factor: BlindingFactorBytes::from([0x07; 48]),
    }
}

#[test]
fn note_buffer_round_trip() {
    let notes = vec![sample_note(100), sample_note(0)];
    let buf = encode_notes(&notes).unwrap();
    let decoded = decode_notes(&buf).unwrap();
    assert_eq!(decoded.len(), NOTE_MAX);
    assert_eq!(decoded[0], notes[0]);
    assert_eq!(decoded[1], notes[1]);
    assert_eq!(decoded[2], Note::default());
}

#[test]
fn note_u64_fields_little_endian() {
    let mut note = sample_note(1);
    note.idx = 0x0102030405060708;
    let buf = encode_notes(&vec![note]).unwrap();
    assert_eq!(
        &buf[120..128],
        &[0x08, 0x07, 0x06, 0x05, 0x04, 0x03, 0x02, 0x01]
    );
}

#[test]
fn size_invariant_all_counts() {
    for count in 0..=NOTE_MAX {
        let notes = vec![sample_note(9); count];
        let buf = encode_notes(&notes).unwrap();
        assert_eq!(buf.len(), NOTE_MAX * NOTE_SIZE);
    }
    for count in 0..=INPUT_MAX {
        let inputs = vec![Input::default(); count];
        let buf = encode_inputs(&inputs).unwrap();
        assert_eq!(buf.len(), INPUT_MAX * INPUT_SIZE);
    }
    for count in 0..=NULLIFIER_MAX {
        let nullifiers = vec![Nullifier::from([3; 32]); count];
        let buf = encode_nullifiers(&nullifiers).unwrap();
        assert_eq!(buf.len(), NULLIFIER_MAX * NULLIFIER_SIZE);
    }
}

#[test]
fn padding_is_zero_filled() {
    let buf = encode_notes(&vec![sample_note(5)]).unwrap();
    assert!(buf[NOTE_SIZE..].iter().all(|&b| b == 0));
    let empty = encode_notes(&Vec::new()).unwrap();
    assert!(empty.iter().all(|&b| b == 0));
}

#[test]
fn encoding_overflow_rejected() {
    let too_many = vec![sample_note(1); NOTE_MAX + 1];
    assert_eq!(encode_notes(&too_many), Err(Error::EncodingOverflow));
    let too_many_inputs = vec![Input::default(); INPUT_MAX + 1];
    assert_eq!(encode_inputs(&too_many_inputs), Err(Error::EncodingOverflow));
    let too_many_nullifiers = vec![Nullifier::default(); NULLIFIER_MAX + 1];
    assert_eq!(
        encode_nullifiers(&too_many_nullifiers),
        Err(Error::EncodingOverflow)
    );
}

#[test]
fn variant_disambiguation() {
    let zero_value = sample_note(0);
    assert!(matches!(zero_value.raise(), NoteVariant::Obfuscated(_)));

    let hundred = sample_note(100);
    match hundred.raise() {
        NoteVariant::Transparent(t) => assert_eq!(t.value, 100),
        NoteVariant::Obfuscated(_) => panic!("a nonzero value must raise transparent"),
    }

    let transparent = NoteVariant::Transparent(TransparentNote {
        value_commitment: [1; 32],
        nonce: [2; 24],
        r_g: [3; 32],
        pk_r: [4; 32],
        idx: 1,
        value: 100,
        blinding_factor: [5; 32],
    });
    assert_eq!(transparent.lower().raise(), transparent);

    let obfuscated = NoteVariant::Obfuscated(ObfuscatedNote {
        value_commitment: [1; 32],
        nonce: [2; 24],
        r_g: [3; 32],
        pk_r: [4; 32],
        idx: 1,
        encrypted_value: [6; 24],
        encrypted_blinding_factor: BlindingFactorBytes::from([7; 48]),
    });
    assert_eq!(obfuscated.lower().raise(), obfuscated);
}

#[test]
fn transparent_lowering_zero_fills_encrypted_slots() {
    let transparent = NoteVariant::Transparent(TransparentNote {
        value_commitment: [1; 32],
        nonce: [2; 24],
        r_g: [3; 32],
        pk_r: [4; 32],
        idx: 9,
        value: 77,
        blinding_factor: [5; 32],
    });
    let note = transparent.lower();
    assert_eq!(note.encrypted_value, [0; 24]);
    assert_eq!(note.encrypted_blinding_factor, BlindingFactorBytes::default());

    let obfuscated = NoteVariant::Obfuscated(ObfuscatedNote {
        value_commitment: [1; 32],
        nonce: [2; 24],
        r_g: [3; 32],
        pk_r: [4; 32],
        idx: 9,
        encrypted_value: [6; 24],
        encrypted_blinding_factor: BlindingFactorBytes::from([7; 48]),
    });
    let note = obfuscated.lower();
    assert_eq!(note.value, 0);
    assert_eq!(note.blinding_factor, [0; 32]);
}

fn sample_item(role: u8) -> Item {
    Item {
        note: sample_note(100),
        pk: PublicKey::from([0x21; 64]),
        role,
        nullifier: Nullifier::from([0x33; 32]),
    }
}

#[test]
fn malformed_role_tag_rejected() {
    for bad_tag in [0u8, 3, 4, 0x7F, 0xFF] {
        let mut buf = encode_item(&sample_item(1));
        buf[304] = bad_tag;
        assert_eq!(decode_item(&buf), Err(Error::DecodingMalformed));

        let item = sample_item(bad_tag);
        assert_eq!(item.raise(), Err(Error::DecodingMalformed));
        assert_eq!(Role::from_tag(bad_tag), Err(Error::DecodingMalformed));
    }
    assert_eq!(Role::from_tag(1), Ok(Role::Input));
    assert_eq!(Role::from_tag(2), Ok(Role::Output));
}

#[test]
fn item_round_trip_both_roles() {
    for role in [Role::Input, Role::Output] {
        let tagged = TaggedNote {
            role,
            note: NoteVariant::Transparent(TransparentNote {
                value_commitment: [1; 32],
                nonce: [2; 24],
                r_g: [3; 32],
                pk_r: [4; 32],
                idx: 11,
                value: 250,
                blinding_factor: [5; 32],
            }),
            pk: PublicKey::from([8; 64]),
            nullifier: Nullifier::from([9; 32]),
        };
        let buf = encode_item(&tagged.lower());
        assert_eq!(buf.len(), ITEM_SIZE);
        let decoded = decode_item(&buf).unwrap();
        assert_eq!(decoded.raise().unwrap(), tagged);
    }
}

#[test]
fn truncated_buffers_rejected() {
    let short_notes = vec![0u8; NOTE_MAX * NOTE_SIZE - 1];
    assert_eq!(decode_notes(&short_notes), Err(Error::DecodingTruncated));
    let short_inputs = vec![0u8; INPUT_MAX * INPUT_SIZE - 1];
    assert_eq!(decode_inputs(&short_inputs), Err(Error::DecodingTruncated));
    let short_nullifiers = vec![0u8; NULLIFIER_MAX * NULLIFIER_SIZE - 1];
    assert_eq!(
        decode_nullifiers(&short_nullifiers),
        Err(Error::DecodingTruncated)
    );
    let short_item = vec![1u8; ITEM_SIZE - 1];
    assert_eq!(decode_item(&short_item), Err(Error::DecodingTruncated));
    let short_key = vec![0u8; KEY_SIZE - 1];
    assert_eq!(decode_key(&short_key), Err(Error::DecodingTruncated));
    let short_proof = vec![0u8; PROOF_SIZE - 1];
    assert_eq!(decode_proof(&short_proof), Err(Error::DecodingTruncated));
    assert_eq!(decode_notes(&[]), Err(Error::DecodingTruncated));
}

#[test]
fn public_key_round_trip() {
    let key = PublicKey::from([0x11; 64]);
    let buf = encode_key(&key);
    assert_eq!(buf.len(), 64);
    assert!(buf.iter().all(|&b| b == 0x11));
    let decoded = decode_key(&buf).unwrap();
    assert_eq!(decoded.as_bytes(), [0x11; 64]);
    assert_eq!(decoded, key);
}

#[test]
fn nullifier_batch() {
    let nullifiers = vec![
        Nullifier::from([0x01; 32]),
        Nullifier::from([0x02; 32]),
        Nullifier::from([0x03; 32]),
    ];
    let buf = encode_nullifiers(&nullifiers).unwrap();
    assert_eq!(buf.len(), 256);
    assert!(buf[0..32].iter().all(|&b| b == 0x01));
    assert!(buf[32..64].iter().all(|&b| b == 0x02));
    assert!(buf[64..96].iter().all(|&b| b == 0x03));
    assert!(buf[96..].iter().all(|&b| b == 0));

    let decoded = decode_nullifiers(&buf).unwrap();
    assert_eq!(decoded.len(), NULLIFIER_MAX);
    assert_eq!(decoded[0..3], nullifiers[..]);
    assert!(decoded[3..].iter().all(|&n| n == Nullifier::default()));
}

#[test]
fn proof_opacity() {
    let mut bytes = [0u8; PROOF_SIZE];
    let mut i = 0usize;
    while i < PROOF_SIZE {
        bytes[i] = (i % 251) as u8;
        i += 1;
    }
    let proof = Proof::from_bytes(bytes);
    let buf = encode_proof(&proof);
    assert_eq!(buf.len(), PROOF_SIZE);
    let decoded = decode_proof(&buf).unwrap();
    assert_eq!(decoded.to_bytes(), bytes);
}

#[test]
fn input_buffer_round_trip() {
    let input = Input {
        nullifier: [0x44; 32],
        merkle_root: [0x55; 32],
    };
    let buf = encode_inputs(&vec![input]).unwrap();
    assert_eq!(buf.len(), INPUT_MAX * INPUT_SIZE);
    let decoded = decode_inputs(&buf).unwrap();
    assert_eq!(decoded[0], input);
}

#[test]
fn convert_output_to_note() {
    let value = 95;
    let note = NoteVariant::Transparent(TransparentNote {
        value_commitment: [0x10; 32],
        nonce: [0x20; 24],
        r_g: [0x30; 32],
        pk_r: [0x40; 32],
        idx: 0,
        value,
        blinding_factor: [0x50; 32],
    })
    .lower();

    let output = TransactionOutput::from_note(&note);
    assert!(matches!(output.note, NoteVariant::Transparent(t) if t.value == value));
}

#[test]
fn convert_input() {
    let transaction_input = TransactionInput {
        nullifier: Nullifier::from([100; 32]),
        merkle_root: [0x60; 32],
    };
    let lowered = transaction_input.lower();

    let raised = lowered.raise();
    assert!(raised == transaction_input);
}

#[test]
fn zero_buffer_decodes_to_defaults() {
    let zeros = vec![0u8; NOTE_MAX * NOTE_SIZE];
    let decoded = decode_notes(&zeros).unwrap();
    assert!(decoded.iter().all(|&n| n == Note::default()));

    let zeros = vec![0u8; INPUT_MAX * INPUT_SIZE];
    let decoded = decode_inputs(&zeros).unwrap();
    assert!(decoded.iter().all(|&i| i == Input::default()));

    let zeros = vec![0u8; ITEM_SIZE];
    assert_eq!(decode_item(&zeros), Err(Error::DecodingMalformed));
}

#[test]
fn oversized_buffer_decodes_leading_slots() {
    let notes = vec![sample_note(100)];
    let mut buf = encode_notes(&notes).unwrap();
    buf.extend_from_slice(&[0xEE; 10]);
    let decoded = decode_notes(&buf).unwrap();
    assert_eq!(decoded.len(), NOTE_MAX);
    assert_eq!(decoded[0], notes[0]);
}

#[test]
fn decoded_buffer_reencodes_identically() {
    let notes = vec![sample_note(100), sample_note(0), sample_note(7)];
    let buf = encode_notes(&notes).unwrap();
    let decoded = decode_notes(&buf).unwrap();
    let buf2 = encode_notes(&decoded).unwrap();
    assert_eq!(buf, buf2);
}
