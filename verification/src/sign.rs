use vstd::prelude::*;

use crate::bytes::{bytes_eq, Address, Bytes32};
use crate::errors::{InvalidSignatureError, SigningError};

verus! {

/// A recoverable signature over a 32-byte digest: two 32-byte scalars and
/// one recovery-selector byte in the 27-based convention (27 or 28 in all
/// ordinary cases).
pub struct Signature {
    pub r: Vec<u8>,
    pub s: Vec<u8>,
    pub v: u8,
}

/// The mathematical model of a signature.
pub struct SignatureView {
    pub r: Seq<u8>,
    pub s: Seq<u8>,
    pub v: u8,
}

impl View for Signature {
    type V = SignatureView;

    open spec fn view(&self) -> SignatureView {
        SignatureView { r: self.r@, s: self.s@, v: self.v }
    }
}

impl Signature {
    /// A well-formed signature holds two 32-byte scalars.
    pub open spec fn wf(&self) -> bool {
        self.r@.len() == 32 && self.s@.len() == 32
    }
}

/// The error type of the outside wallet, so wrappers can hand it back and
/// verified code can map it to the library's own errors.
#[verifier::external_type_specification]
#[verifier::external_body]
pub struct ExWalletError(ethers_signers::WalletError);

/// The error type of the outside signature operations.
#[verifier::external_type_specification]
#[verifier::external_body]
pub struct ExSignatureError(ethers_core::types::SignatureError);

/// The signature the curve produces for a digest and key: signing is
/// deterministic, a function of the two arguments alone.
pub uninterp spec fn sig_of(digest: Seq<u8>, key: Seq<u8>) -> SignatureView;

/// The address derived from a private key.
pub uninterp spec fn addr_of(key: Seq<u8>) -> Seq<u8>;

/// What curve recovery returns for a digest and signature parts: the
/// signer's address, or nothing when the parts are not a valid signature.
pub uninterp spec fn recover_of(digest: Seq<u8>, r: Seq<u8>, s: Seq<u8>, v: u8) -> Option<Seq<u8>>;

/// Whether the key bytes form a usable signing key: key parsing succeeds
/// exactly when the 32 bytes are a nonzero scalar below the curve order, a
/// function of the bytes alone.
pub uninterp spec fn key_ok_of(key: Seq<u8>) -> bool;

/// Whether signing a digest with a key succeeds: key parsing and the
/// deterministic signing operation both depend on the two arguments alone,
/// so success is a function of them too.
pub uninterp spec fn sign_ok_of(digest: Seq<u8>, key: Seq<u8>) -> bool;

/// Relies on ethers_signers::Wallet::from_bytes and Wallet::sign_hash: one
/// elliptic-curve signing operation over the digest, deterministic in the
/// digest and key, whose result recovery maps back to the key's address.
/// Key parsing fails exactly when the bytes are not a valid nonzero curve
/// scalar, and the signing step is deterministic, so whether the whole
/// call succeeds is itself a function of the digest and key alone.
#[verifier::external_body]
fn wallet_sign_hash(digest: &Vec<u8>, key: &Vec<u8>) -> (result: Result<
    Signature,
    ethers_signers::WalletError,
>)
    requires
        digest@.len() == 32,
        key@.len() == 32,
    ensures
        result is Ok <==> sign_ok_of(digest@, key@),
        result matches Ok(sig) ==> sig.wf() && 27 <= sig.v <= 30 && sig@ == sig_of(
            digest@,
            key@,
        ) && recover_of(digest@, sig.r@, sig.s@, sig.v) == Some(addr_of(key@)),
{
    let wallet = ethers_signers::Wallet::from_bytes(key.as_slice())?;
    let sig = wallet.sign_hash(ethers_core::types::H256::from_slice(digest.as_slice()))?;
    let mut r = [0u8; 32];
    let mut s = [0u8; 32];
    sig.r.to_big_endian(&mut r);
    sig.s.to_big_endian(&mut s);
    Ok(Signature { r: r.to_vec(), s: s.to_vec(), v: sig.v as u8 })
}

/// Relies on ethers_signers::Wallet::from_bytes and Wallet::address: the
/// 20-byte address derived from the key, a function of the key alone.
/// Fails exactly when the key bytes are not a valid nonzero curve scalar,
/// which depends on the bytes alone.
#[verifier::external_body]
fn wallet_address(key: &Vec<u8>) -> (result: Result<Vec<u8>, ethers_signers::WalletError>)
    requires
        key@.len() == 32,
    ensures
        result is Ok <==> key_ok_of(key@),
        result matches Ok(a) ==> a@.len() == 20 && a@ == addr_of(key@),
{
    let wallet = ethers_signers::Wallet::from_bytes(key.as_slice())?;
    Ok(ethers_signers::Signer::address(&wallet).as_bytes().to_vec())
}

/// Relies on ethers_core::types::Signature::recover: recovers the signing
/// address from a digest and signature, deterministic in its arguments;
/// fails exactly when the parts do not form a recoverable signature.
#[verifier::external_body]
fn signature_recover(digest: &Vec<u8>, r: &Vec<u8>, s: &Vec<u8>, v: u8) -> (result: Result<
    Vec<u8>,
    ethers_core::types::SignatureError,
>)
    requires
        digest@.len() == 32,
        r@.len() == 32,
        s@.len() == 32,
    ensures
        result matches Ok(a) ==> a@.len() == 20 && recover_of(digest@, r@, s@, v) == Some(a@),
        result is Err ==> recover_of(digest@, r@, s@, v) is None,
{
    let sig = ethers_core::types::Signature {
        r: ethers_core::types::U256::from_big_endian(r.as_slice()),
        s: ethers_core::types::U256::from_big_endian(s.as_slice()),
        v: v as u64,
    };
    let hash = ethers_core::types::H256::from_slice(digest.as_slice());
    let addr = sig.recover(ethers_core::types::RecoveryMessage::Hash(hash))?;
    Ok(addr.as_bytes().to_vec())
}

/// Signs a 32-byte digest with a private key.  The digest is treated as an
/// opaque message and never re-hashed.  Succeeds exactly when the curve
/// can sign this digest with this key; then the signature is exactly what
/// the curve produces, and recovering from it yields the key's address.
/// Fails with `SigningError` exactly when the key material is unusable
/// for this signing.
pub fn sign(digest: &Bytes32, key: &Bytes32) -> (result: Result<Signature, SigningError>)
    requires
        digest.wf(),
        key.wf(),
    ensures
        result is Ok <==> sign_ok_of(digest@, key@),
        result matches Ok(sig) ==> sig.wf() && 27 <= sig.v <= 30 && sig@ == sig_of(
            digest@,
            key@,
        ) && recover_of(digest@, sig.r@, sig.s@, sig.v) == Some(addr_of(key@)),
{
    match wallet_sign_hash(&digest.bytes, &key.bytes) {
        Ok(sig) => Ok(sig),
        Err(_) => Err(SigningError),
    }
}

/// The address belonging to a private key; fails with `SigningError`
/// exactly when the key bytes are not a usable signing key.
pub fn address_of_key(key: &Bytes32) -> (result: Result<Address, SigningError>)
    requires
        key.wf(),
    ensures
        result is Ok <==> key_ok_of(key@),
        result matches Ok(a) ==> a.wf() && a@ == addr_of(key@),
{
    match wallet_address(&key.bytes) {
        Ok(bytes) => Ok(Address::new(bytes)),
        Err(_) => Err(SigningError),
    }
}

/// Recovers the signing address from a digest and a signature.  Returns
/// exactly what curve recovery yields; fails with `InvalidSignatureError`
/// exactly when the signature parts are not recoverable.
pub fn recover(digest: &Bytes32, sig: &Signature) -> (result: Result<Address, InvalidSignatureError>)
    requires
        digest.wf(),
        sig.wf(),
    ensures
        result matches Ok(a) ==> a.wf() && recover_of(digest@, sig@.r, sig@.s, sig@.v) == Some(a@),
        result is Err <==> recover_of(digest@, sig@.r, sig@.s, sig@.v) is None,
{
    match signature_recover(&digest.bytes, &sig.r, &sig.s, sig.v) {
        Ok(bytes) => Ok(Address::new(bytes)),
        Err(_) => Err(InvalidSignatureError),
    }
}

/// Hashes an arbitrary message and signs the 32-byte hash: the hash is the
/// digest, signed as it is.  Fails with `SigningError` exactly when
/// signing the hash does.
pub fn hash_and_sign(data: &Vec<u8>, key: &Bytes32) -> (result: Result<Signature, SigningError>)
    requires
        key.wf(),
    ensures
        result is Ok <==> sign_ok_of(crate::keccak::keccak_of(data@), key@),
        result matches Ok(sig) ==> sig.wf() && 27 <= sig.v <= 30 && sig@ == sig_of(
            crate::keccak::keccak_of(data@),
            key@,
        ) && recover_of(crate::keccak::keccak_of(data@), sig.r@, sig.s@, sig.v) == Some(
            addr_of(key@),
        ),
{
    let hash = crate::keccak::keccak256(data.as_slice());
    let digest = Bytes32::new(hash);
    sign(&digest, key)
}

/// The sign/recover round trip: signing a digest and recovering from the
/// fresh signature always succeeds and yields the signing key's address.
/// The recovery step provably cannot fail here, and the recovered address
/// is provably `addr_of` the key, by the signer's and verifier's own
/// contracts.
pub fn sign_then_recover(digest: &Bytes32, key: &Bytes32) -> (result: Result<
    (Signature, Address),
    SigningError,
>)
    requires
        digest.wf(),
        key.wf(),
    ensures
        result is Ok <==> sign_ok_of(digest@, key@),
        result matches Ok(p) ==> p.0.wf() && 27 <= p.0.v <= 30 && p.0@ == sig_of(digest@, key@)
            && p.1.wf() && p.1@ == addr_of(key@),
{
    let sig = match sign(digest, key) {
        Ok(sig) => sig,
        Err(e) => {
            return Err(e);
        },
    };
    let recovered = match recover(digest, &sig) {
        Ok(a) => a,
        Err(_) => {
            proof {
                assert(recover_of(digest@, sig@.r, sig@.s, sig@.v) is Some);
                assert(false);
            }
            return Err(SigningError);
        },
    };
    Ok((sig, recovered))
}

/// Recovery plus address equality: true exactly when the signature
/// recovers to the expected address.  Addresses are public, so plain
/// equality suffices.
pub fn verify(digest: &Bytes32, sig: &Signature, expected: &Address) -> (result: bool)
    requires
        digest.wf(),
        sig.wf(),
        expected.wf(),
    ensures
        result <==> recover_of(digest@, sig@.r, sig@.s, sig@.v) == Some(expected@),
{
    match recover(digest, sig) {
        Ok(a) => bytes_eq(&a.bytes, &expected.bytes),
        Err(_) => false,
    }
}

/// Serializes a signature as the 65 bytes `r || s || v`.
pub fn to_bytes(sig: &Signature) -> (result: Vec<u8>)
    ensures
        result@ == sig.r@ + sig.s@ + seq![sig.v],
{
    let mut out: Vec<u8> = Vec::new();
    crate::bytes::append_bytes(&mut out, sig.r.as_slice());
    crate::bytes::append_bytes(&mut out, sig.s.as_slice());
    out.push(sig.v);
    proof {
        assert(out@ =~= sig.r@ + sig.s@ + seq![sig.v]);
    }
    out
}

} // verus!
