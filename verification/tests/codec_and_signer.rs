use ava_platformvm::codec::{CodecError, Reader};
use ava_platformvm::collections::ordmap::{Dup, OrdMap};
use ava_platformvm::crypto::{digest_id, verify_pop};
use ava_platformvm::error::{
    consensus_error, joined, vm_error, DbError, Error, VmError, WarpError,
};
use ava_platformvm::factory::PlatformVmFactory;
use ava_platformvm::fx::{owner_id, verify_transfer};
use ava_platformvm::ids::{Id, NodeId, ShortId};
use ava_platformvm::signer::{Empty, ProofOfPossession, Signer};
use ava_platformvm::stakeable::{LockIn, LockOut};
use ava_platformvm::status::{BlockchainStatus, Status};
use ava_platformvm::txs::components::{
    Input, Output, OutputOwners, TransferInput, TransferOutput,
};
use ava_platformvm::wire::{default_codec, genesis_codec, List, Manager, Wire};

#[test]
fn empty_signer_marshals_type_id_27() {
    let s = Signer::Empty(Empty);
    let mut bytes = Vec::new();
    s.write(&mut bytes);
    assert_eq!(bytes, vec![0x00, 0x00, 0x00, 0x1b]);
    assert_eq!(s.codec_type_id(), 27);
}

#[test]
fn pop_roundtrip_type_id_28() {
    let pop = ProofOfPossession::new([1u8; 48], [2u8; 96]);
    let s = Signer::ProofOfPossession(pop);
    assert_eq!(s.codec_type_id(), 28);

    let mut bytes = Vec::new();
    s.write(&mut bytes);
    assert_eq!(bytes.len(), 4 + 48 + 96);
    assert_eq!(&bytes[..4], &[0x00, 0x00, 0x00, 0x1c]);

    let mut rp = Reader::new(&bytes);
    let decoded = Signer::read(&mut rp).expect("read");
    assert!(rp.done());
    assert_eq!(decoded, s);
}

#[test]
fn a_signer_of_another_type_is_refused() {
    let bytes = [0u8, 0, 0, 26];
    let mut p = Reader::new(&bytes);
    assert!(Signer::read(&mut p).is_err());
}

#[test]
fn only_a_signer_with_a_key_has_one() {
    assert_eq!(Signer::default(), Signer::Empty(Empty));
    assert!(Signer::default().verify().is_ok());
    assert_eq!(Signer::default().key(), Ok(None));
    assert!(!Signer::default().has_key());

    let bad = Signer::ProofOfPossession(ProofOfPossession::new([1u8; 48], [2u8; 96]));
    assert!(bad.has_key());
    assert!(bad.verify().is_err());
    assert!(bad.key().is_err());
}

// A key, and a proof that its holder has it, made with the secret scalar one:
// the key is the generator, and the proof is the hash of the key to the curve.
const GENERATOR: [u8; 48] = [
    0x97, 0xf1, 0xd3, 0xa7, 0x31, 0x97, 0xd7, 0x94, 0x26, 0x95, 0x63, 0x8c, 0x4f, 0xa9, 0xac, 0x0f,
    0xc3, 0x68, 0x8c, 0x4f, 0x97, 0x74, 0xb9, 0x05, 0xa1, 0x4e, 0x3a, 0x3f, 0x17, 0x1b, 0xac, 0x58,
    0x6c, 0x55, 0xe8, 0x3f, 0xf9, 0x7a, 0x1a, 0xef, 0xfb, 0x3a, 0xf0, 0x0a, 0xdb, 0x22, 0xc6, 0xbb,
];

#[test]
fn a_proof_of_possession_is_a_signature_over_the_key() {
    let suite = b"BLS_POP_BLS12381G2_XMD:SHA-256_SSWU_RO_POP_";
    let secret = blst::min_pk::SecretKey::key_gen(&[7u8; 32], &[]).expect("secret");
    let public: [u8; 48] = secret.sk_to_pk().to_bytes();
    let proof: [u8; 96] = secret.sign(&public, suite, &[]).to_bytes();

    let s = Signer::ProofOfPossession(ProofOfPossession::new(public, proof));
    assert!(s.verify().is_ok());
    let key = s.key().expect("key").expect("some key");
    assert_eq!(key.compress(), public);

    assert!(verify_pop(&public, &proof, &public));
    assert!(!verify_pop(&public, &proof, &[1, 2, 3]));
    assert!(!verify_pop(&GENERATOR, &proof, &GENERATOR));
    let other = secret.sign(&public, b"BLS_SIG_BLS12381G2_XMD:SHA-256_SSWU_RO_POP_", &[]);
    assert!(!verify_pop(&public, &other.to_bytes(), &public));
}

#[test]
fn a_digest_is_the_sha256_of_the_bytes() {
    let expected: [u8; 32] = [
        0xba, 0x78, 0x16, 0xbf, 0x8f, 0x01, 0xcf, 0xea, 0x41, 0x41, 0x40, 0xde, 0x5d, 0xae, 0x22,
        0x23, 0xb0, 0x03, 0x61, 0xa3, 0x96, 0x17, 0x7a, 0x9c, 0xb4, 0x10, 0xff, 0x61, 0xf2, 0x00,
        0x15, 0xad,
    ];
    assert_eq!(digest_id(b"abc"), Id::from(expected));
}

#[test]
fn values_are_written_behind_a_version() {
    let c = default_codec();
    let text = "hi".to_string();
    let bytes = c.marshal(&text).expect("marshal");
    assert_eq!(bytes, vec![0, 0, 0, 2, b'h', b'i']);
    assert_eq!(c.unmarshal::<String>(&bytes), Ok(text));

    let list = List { items: vec![7u32, 8] };
    let bytes = genesis_codec().marshal(&list).expect("marshal");
    assert_eq!(bytes, vec![0, 0, 0, 0, 0, 2, 0, 0, 0, 7, 0, 0, 0, 8]);
    assert_eq!(c.unmarshal::<List<u32>>(&bytes), Ok(list));
}

#[test]
fn what_cannot_be_read_is_refused() {
    let c = default_codec();
    assert_eq!(c.unmarshal::<u32>(&[0, 1, 0, 0, 0, 7]), Err(CodecError::UnknownVersion));
    assert_eq!(c.unmarshal::<u32>(&[0, 0, 0, 0, 0]), Err(CodecError::InsufficientLength));
    assert_eq!(c.unmarshal::<u32>(&[0, 0, 0, 0, 0, 7, 7]), Err(CodecError::ExtraSpace));
    assert_eq!(c.unmarshal::<String>(&[0, 0, 0, 2, 0xc3, 0xa9]), Ok("\u{e9}".to_string()));
    assert_eq!(c.unmarshal::<String>(&[0, 0, 0, 1, 0xff]), Err(CodecError::NotText));
    assert_eq!(CodecError::NotText.message(), "invalid utf-8");
    let long = "x".repeat(65_536);
    assert_eq!(c.marshal(&long), Err(CodecError::LengthOverflow));
    let small = Manager { max_size: 4 };
    assert_eq!(small.marshal(&7u32), Err(CodecError::TooBig));
}

#[test]
fn locks_are_not_nested() {
    let out = || {
        Output::Transfer(TransferOutput {
            amt: 5,
            owners: OutputOwners {
                locktime: 0,
                threshold: 1,
                addrs: List { items: vec![ShortId::from([1; 20])] },
            },
        })
    };
    let lock = LockOut::new(9, out());
    assert_eq!(lock.amount(), 5);
    assert!(lock.verify().is_ok());
    assert!(LockOut::new(0, out()).verify().is_err());
    assert!(LockOut::new(9, Output::StakeableLock(LockOut::new(9, out()))).verify().is_err());

    let input =
        || Input::Transfer(TransferInput { amt: 6, sig_indices: List { items: vec![0] } });
    let lock = LockIn::new(9, input());
    assert_eq!(lock.amount(), 6);
    assert!(lock.verify().is_ok());
    assert!(LockIn::new(0, input()).verify().is_err());
    assert!(LockIn::new(9, Input::StakeableLock(LockIn::new(9, input()))).verify().is_err());
}

#[test]
fn owners_have_the_id_of_their_bytes() {
    let owner = OutputOwners {
        locktime: 1,
        threshold: 2,
        addrs: List { items: vec![ShortId::from([3; 20])] },
    };
    let other = OutputOwners { threshold: 1, ..owner.dup() };
    let id = owner_id(&owner).expect("id");
    assert_eq!(owner_id(&owner.dup()).expect("id"), id);
    assert_ne!(owner_id(&other).expect("id"), id);
    assert!(verify_transfer(true).is_ok());
    assert_eq!(verify_transfer(false), Err(Error::InvalidComponent));
}

#[test]
fn maps_keep_their_keys_in_order() {
    let mut m: OrdMap<Id, u64> = OrdMap::new();
    assert!(m.is_empty());
    m.insert(Id::from([2; 32]), 20);
    m.insert(Id::from([1; 32]), 10);
    m.insert(Id::from([2; 32]), 21);
    assert_eq!(m.len(), 2);
    assert_eq!(*m.key_at(0), Id::from([1; 32]));
    assert_eq!(m.get(&Id::from([2; 32])), Some(&21));
    assert_eq!(m.first_from(&Id::from([2; 32])), 1);
    let copy = m.dup();
    assert_eq!(m.take(&Id::from([1; 32])), Some(10));
    m.remove(&Id::from([2; 32]));
    assert!(m.is_empty());
    assert_eq!(copy.into_vals(), vec![10, 21]);
}

#[test]
fn errors_are_told_apart_by_their_message() {
    assert_eq!(Error::Overflow.message(), "overflow");
    assert_eq!(
        Error::Codec(CodecError::ExtraSpace).message(),
        format!("codec: {}", CodecError::ExtraSpace.message())
    );
    assert_eq!(
        Error::Database(DbError::NotFound).message(),
        format!("database: {}", DbError::NotFound.message())
    );
    assert_eq!(
        Error::CorruptState("x".to_string()).message(),
        "corrupt persisted state: x"
    );
    assert_eq!(Error::Service("down".to_string()).message(), "service: down");
    assert_eq!(joined("a", "b"), "ab");
    assert_eq!(Error::from(WarpError::InvalidBitSet), Error::InvalidBitSet);
    assert_eq!(Error::from(WarpError::InvalidPayload), Error::InvalidComponent);
    assert_eq!(vm_error(&Error::Database(DbError::NotFound)), VmError::NotFound);
    assert_eq!(
        vm_error(&Error::Overflow),
        VmError::InvalidComponent("platformvm vm/build error")
    );
    assert_eq!(consensus_error(&Error::Overflow), "platformvm: overflow");
}

#[test]
fn status_json_roundtrip() {
    for (s, json) in [
        (Status::Unknown, "\"Unknown\""),
        (Status::Committed, "\"Committed\""),
        (Status::Aborted, "\"Aborted\""),
        (Status::Processing, "\"Processing\""),
        (Status::Dropped, "\"Dropped\""),
    ] {
        let encoded = serde_json::to_string(s.as_str()).expect("encode");
        assert_eq!(encoded, json);
        let name: String = serde_json::from_str(json).expect("decode");
        assert_eq!(Status::from_name(&name), Some(s));
    }
    assert_eq!(Status::from_name("committed"), None);
}

#[test]
fn status_discriminants_match_go() {
    assert_eq!(Status::Unknown.code(), 0);
    assert_eq!(Status::Committed.code(), 4);
    assert_eq!(Status::Aborted.code(), 5);
    assert_eq!(Status::Processing.code(), 6);
    assert_eq!(Status::Dropped.code(), 8);
}

#[test]
fn chain_statuses_have_names() {
    for s in [
        BlockchainStatus::UnknownChain,
        BlockchainStatus::Preferred,
        BlockchainStatus::Validating,
        BlockchainStatus::Syncing,
    ] {
        assert_eq!(BlockchainStatus::from_name(s.as_str()), Some(s));
    }
    assert_eq!(BlockchainStatus::from_name(""), None);
}

#[test]
fn factory_constructs_a_vm() {
    let factory = PlatformVmFactory::new();
    let vm = factory.new_vm();
    assert!(vm.validator_state().is_none());
}

#[test]
fn ids_are_made_of_their_bytes() {
    assert_eq!(Id::from_slice(&[3; 32]), Some(Id::from([3; 32])));
    assert_eq!(Id::from_slice(&[3; 31]), None);
    assert!(Id::empty().is_empty());
    assert!(!Id::from([1; 32]).is_empty());
    assert_eq!(NodeId::from_slice(&[4; 20]), Some(NodeId::from([4; 20])));
    assert_eq!(NodeId::from_slice(&[4; 21]), None);
}
