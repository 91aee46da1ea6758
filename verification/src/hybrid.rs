//! Keypair generation and address derivation: random secret scalars are
//! turned into uncompressed public keys, hashed, checksummed and Base58
//! encoded, then held against the pattern engine.

use vstd::prelude::*;
use vstd::slice::slice_subrange;

use rand::Rng;
use sha3::Digest;

use crate::pattern::PatternChecker;
use crate::pattern::spec_check;

verus! {

/// Whether thirty-two bytes form a valid secret scalar: nonzero and below the
/// curve group order, as `secp256k1::SecretKey::from_secret_bytes` decides it.
pub uninterp spec fn is_valid_scalar(sk: Seq<u8>) -> bool;

/// The serialized uncompressed public key that the curve library derives from
/// a valid secret scalar.
pub uninterp spec fn pubkey_of(sk: Seq<u8>) -> Seq<u8>;

/// The Keccak-256 digest of a byte sequence.
pub uninterp spec fn keccak256_of(data: Seq<u8>) -> Seq<u8>;

/// The SHA-256 digest of a byte sequence.
pub uninterp spec fn sha256_of(data: Seq<u8>) -> Seq<u8>;

/// The Base58 rendering of a byte sequence under the Bitcoin alphabet.
pub uninterp spec fn base58_of(data: Seq<u8>) -> Seq<char>;

/// Relies on rand::thread_rng and rand::Rng::gen: thirty-two bytes from the
/// thread-local cryptographically secure generator. Nothing is promised of
/// their value; every caller must cope with any outcome.
#[verifier::external_body]
fn random_secret_bytes() -> (r: [u8; 32]) {
    rand::thread_rng().gen()
}

/// Relies on secp256k1: `SecretKey::from_secret_bytes` succeeds for exactly
/// the 32-byte arrays that are nonzero and below the curve group order, and
/// `PublicKey::from_secret_key` followed by `serialize_uncompressed` yields
/// the 65-byte uncompressed point, leading byte 0x04, a function of the
/// secret scalar alone.
#[verifier::external_body]
fn derive_pubkey(sk: &[u8; 32]) -> (r: Option<Vec<u8>>)
    ensures
        r is Some <==> is_valid_scalar(sk@),
        r matches Some(pk) ==> pk@ == pubkey_of(sk@) && pk@.len() == 65 && pk@[0] == 0x04u8,
{
    match secp256k1::SecretKey::from_secret_bytes(*sk) {
        Ok(secret) => {
            let public = secp256k1::PublicKey::from_secret_key(&secret);
            Some(public.serialize_uncompressed().to_vec())
        },
        Err(_) => None,
    }
}

/// Relies on sha3::Keccak256 through Digest::digest: the 32-byte Keccak-256
/// digest of the input, a function of the input bytes alone.
#[verifier::external_body]
fn keccak256(data: &[u8]) -> (r: Vec<u8>)
    ensures
        r@ == keccak256_of(data@),
        r@.len() == 32,
{
    sha3::Keccak256::digest(data).to_vec()
}

/// Relies on sha2::Sha256 through Digest::digest: the 32-byte SHA-256 digest
/// of the input, a function of the input bytes alone.
#[verifier::external_body]
fn sha256(data: &[u8]) -> (r: Vec<u8>)
    ensures
        r@ == sha256_of(data@),
        r@.len() == 32,
{
    sha2::Sha256::digest(data).to_vec()
}

/// Relies on bs58::encode with its default Bitcoin alphabet: the Base58
/// string of the input bytes, a function of them alone.
#[verifier::external_body]
fn bs58_encode(data: &[u8]) -> (r: String)
    ensures
        r@ == base58_of(data@),
{
    bs58::encode(data).into_string()
}

/// The 21-byte address payload of an uncompressed public key: a fixed version
/// marker followed by the last twenty bytes of the Keccak-256 digest of the
/// key's coordinates (the serialized key without its one-byte form prefix).
pub open spec fn spec_payload(pubkey: Seq<u8>) -> Seq<u8> {
    seq![0x41u8] + keccak256_of(pubkey.skip(1)).skip(12)
}

/// The four checksum bytes of a payload: the first four bytes of its double
/// SHA-256 digest.
pub open spec fn spec_checksum(payload: Seq<u8>) -> Seq<u8> {
    sha256_of(sha256_of(payload)).take(4)
}

/// The full 25-byte sequence handed to the Base58 encoder.
pub open spec fn spec_encoded_bytes(pubkey: Seq<u8>) -> Seq<u8> {
    spec_payload(pubkey) + spec_checksum(spec_payload(pubkey))
}

/// The address string derived from an uncompressed public key.
pub open spec fn spec_address(pubkey: Seq<u8>) -> Seq<char> {
    base58_of(spec_encoded_bytes(pubkey))
}

/// Law: the byte sequence behind every derived address is twenty-five bytes:
/// the fixed version marker, twenty digest bytes, and a four-byte checksum
/// equal to the first four bytes of the double SHA-256 digest of the
/// preceding twenty-one bytes. The digest lengths assumed here are ensured by
/// the digest wrappers at every call.
pub proof fn lemma_encoded_bytes_structure(pubkey: Seq<u8>)
    requires
        keccak256_of(pubkey.skip(1)).len() == 32,
        sha256_of(sha256_of(spec_payload(pubkey))).len() == 32,
    ensures
        spec_encoded_bytes(pubkey).len() == 25,
        spec_encoded_bytes(pubkey)[0] == 0x41u8,
        spec_encoded_bytes(pubkey).take(21) == spec_payload(pubkey),
        spec_encoded_bytes(pubkey).skip(21) == spec_checksum(spec_encoded_bytes(pubkey).take(21)),
{
    assert(spec_payload(pubkey).len() == 21);
    assert(spec_encoded_bytes(pubkey).take(21) =~= spec_payload(pubkey));
    assert(spec_encoded_bytes(pubkey).skip(21) =~= spec_checksum(spec_payload(pubkey)));
}

/// Law: address derivation is deterministic. Any two results that meet the
/// derivation contract for the same public key bytes — two repeated calls, or
/// two concurrent ones — are the same string.
pub proof fn lemma_derive_deterministic(pubkey: Seq<u8>, r1: Seq<char>, r2: Seq<char>)
    requires
        r1 == spec_address(pubkey),
        r2 == spec_address(pubkey),
    ensures
        r1 == r2,
{
}

/// One confirmed hit: the address, the label the matcher reported, and the
/// secret scalar that produced it.
#[derive(Debug, Clone)]
pub struct MatchRecord {
    pub address: String,
    pub label: String,
    pub secret_key: [u8; 32],
}

/// The mathematical content of a record: its address, label and scalar.
pub open spec fn record_repr(m: MatchRecord) -> (Seq<char>, Seq<char>, Seq<u8>) {
    (m.address@, m.label@, m.secret_key@)
}

/// A generated keypair is valid when its scalar passed the curve check and
/// its serialized public key is what the curve derives for that scalar.
pub open spec fn valid_keypair(kp: ([u8; 32], Vec<u8>)) -> bool {
    &&& is_valid_scalar(kp.0@)
    &&& kp.1@ == pubkey_of(kp.0@)
    &&& kp.1@.len() == 65
    &&& kp.1@[0] == 0x04u8
}

/// The matcher's verdict on one keypair's derived address.
pub open spec fn keypair_label(c: PatternChecker, kp: ([u8; 32], Vec<u8>)) -> Option<Seq<char>> {
    spec_check(c, spec_address(kp.1@))
}

/// The records a batch yields: for each keypair in order, one record when the
/// matcher accepts its derived address, none otherwise.
pub open spec fn spec_batch_matches(c: PatternChecker, kps: Seq<([u8; 32], Vec<u8>)>) -> Seq<
    (Seq<char>, Seq<char>, Seq<u8>),
>
    decreases kps.len(),
{
    if kps.len() == 0 {
        Seq::empty()
    } else {
        spec_batch_matches(c, kps.drop_last()) + match keypair_label(c, kps.last()) {
            Some(l) => seq![(spec_address(kps.last().1@), l, kps.last().0@)],
            None => Seq::empty(),
        }
    }
}

/// The search pipeline around one pattern engine.
pub struct CpuGenerator {
    pub checker: PatternChecker,
}

impl CpuGenerator {
    /// The held pattern engine is well formed.
    pub open spec fn wf(self) -> bool {
        self.checker.wf()
    }

    pub fn new(checker: PatternChecker) -> (r: Self)
        ensures
            r.checker == checker,
    {
        CpuGenerator { checker }
    }

    /// Draw up to `batch_size` random keypairs. A draw whose scalar fails the
    /// curve check is dropped, so the result may be shorter than asked; every
    /// returned pair is a valid scalar with its own public key.
    pub fn generate_keypairs_cpu(&self, batch_size: usize) -> (r: Vec<([u8; 32], Vec<u8>)>)
        ensures
            r@.len() <= batch_size,
            forall|i: int| 0 <= i < r@.len() ==> valid_keypair(#[trigger] r@[i]),
    {
        let mut out: Vec<([u8; 32], Vec<u8>)> = Vec::new();
        let mut i: usize = 0;
        while i < batch_size
            invariant
                i <= batch_size,
                out@.len() <= i,
                forall|j: int| 0 <= j < out@.len() ==> valid_keypair(#[trigger] out@[j]),
            decreases batch_size - i,
        {
            let sk = random_secret_bytes();
            match derive_pubkey(&sk) {
                Some(pk) => out.push((sk, pk)),
                None => {},
            }
            i = i + 1;
        }
        out
    }

    /// Derive the address of an uncompressed public key: hash the coordinate
    /// pair, keep the low twenty digest bytes behind the version marker,
    /// append the four-byte double-hash checksum, and Base58-encode the
    /// twenty-five bytes.
    pub fn pubkey_to_address(&self, pubkey: &[u8]) -> (r: String)
        requires
            pubkey@.len() == 65,
        ensures
            r@ == spec_address(pubkey@),
    {
        let coords = slice_subrange(pubkey, 1, 65);
        proof {
            assert(coords@ =~= pubkey@.skip(1));
        }
        let hash = keccak256(coords);

        let mut payload: Vec<u8> = Vec::new();
        payload.push(0x41u8);
        payload.extend_from_slice(slice_subrange(hash.as_slice(), 12, 32));
        proof {
            assert(payload@ =~= spec_payload(pubkey@));
        }

        let h1 = sha256(payload.as_slice());
        let h2 = sha256(h1.as_slice());

        let mut full: Vec<u8> = Vec::new();
        full.extend_from_slice(payload.as_slice());
        full.extend_from_slice(slice_subrange(h2.as_slice(), 0, 4));
        proof {
            assert(h2@.subrange(0, 4) =~= spec_checksum(spec_payload(pubkey@)));
            assert(full@ =~= spec_encoded_bytes(pubkey@));
        }

        bs58_encode(full.as_slice())
    }

    /// Derive one keypair's address and hold it against the pattern engine;
    /// a hit becomes a record carrying the address, the label and the scalar.
    pub fn match_keypair(&self, secret_key: &[u8; 32], pubkey: &[u8]) -> (r: Option<MatchRecord>)
        requires
            self.wf(),
            pubkey@.len() == 65,
        ensures
            match r {
                Some(m) => spec_check(self.checker, spec_address(pubkey@)) matches Some(l)
                    && m.address@ == spec_address(pubkey@) && m.label@ == l && m.secret_key@
                    == secret_key@,
                None => spec_check(self.checker, spec_address(pubkey@)) is None,
            },
    {
        let address = self.pubkey_to_address(pubkey);
        match self.checker.check(address.as_str()) {
            Some(label) => Some(MatchRecord { address, label, secret_key: *secret_key }),
            None => None,
        }
    }

    /// Run a whole batch through derivation and matching, in order, keeping
    /// exactly the keypairs whose address the engine accepts.
    pub fn process_batch(&self, keypairs: &Vec<([u8; 32], Vec<u8>)>) -> (r: Vec<MatchRecord>)
        requires
            self.wf(),
            forall|i: int| 0 <= i < keypairs@.len() ==> (#[trigger] keypairs@[i]).1@.len() == 65,
        ensures
            r@.map_values(|m: MatchRecord| record_repr(m)) == spec_batch_matches(
                self.checker,
                keypairs@,
            ),
    {
        let mut out: Vec<MatchRecord> = Vec::new();
        let mut i: usize = 0;
        proof {
            assert(keypairs@.take(0) =~= Seq::<([u8; 32], Vec<u8>)>::empty());
        }
        while i < keypairs.len()
            invariant
                self.wf(),
                i <= keypairs@.len(),
                forall|j: int| 0 <= j < keypairs@.len() ==> (#[trigger] keypairs@[j]).1@.len()
                    == 65,
                out@.map_values(|m: MatchRecord| record_repr(m)) == spec_batch_matches(
                    self.checker,
                    keypairs@.take(i as int),
                ),
            decreases keypairs@.len() - i,
        {
            let kp = &keypairs[i];
            let ghost prefix = keypairs@.take(i as int);
            let ghost prefix1 = keypairs@.take(i + 1);
            proof {
                assert(prefix1.drop_last() =~= prefix);
                assert(prefix1.last() == keypairs@[i as int]);
            }
            match self.match_keypair(&kp.0, kp.1.as_slice()) {
                Some(m) => {
                    out.push(m);
                },
                None => {},
            }
            proof {
                assert(out@.map_values(|m: MatchRecord| record_repr(m)) =~= spec_batch_matches(
                    self.checker,
                    prefix1,
                ));
            }
            i = i + 1;
        }
        proof {
            assert(keypairs@.take(keypairs@.len() as int) =~= keypairs@);
        }
        out
    }
}

} // verus!
