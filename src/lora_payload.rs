//! Frames of a fixed byte width, and the signed form that carries a frame with
//! a signature whose two-byte header is left out.
use crate::crypto::{clone_public_key, debug_text, signature_verifies, verify_signature};
use crate::error::Error;
use crate::keys::KeyTrait;
use helium_crypto::PublicKey;
use vstd::prelude::*;

verus! {

/// The structure tag that every signature of the scheme starts with.
pub const SIGNATURE_TAG: u8 = 0x30;

/// A signature that starts with the structure tag and then the count of the
/// bytes after those two: both can be rebuilt from the rest.
pub open spec fn has_compressible_header(signature: Seq<u8>) -> bool {
    &&& signature.len() >= 2
    &&& signature[0] == SIGNATURE_TAG
    &&& signature[1] == signature.len() - 2
}

/// The signature rebuilt from the bytes after its header: the structure tag,
/// the count of those bytes as one byte, then the bytes.
pub open spec fn expanded_signature(tail: Seq<u8>) -> Seq<u8> {
    seq![SIGNATURE_TAG, (tail.len() % 256) as u8] + tail
}

/// A signature with the expected header comes back whole from the bytes after
/// its header.
pub proof fn lemma_signature_header_round_trip(signature: Seq<u8>)
    requires
        has_compressible_header(signature),
    ensures
        expanded_signature(signature.skip(2)) == signature,
{
    assert(expanded_signature(signature.skip(2)) =~= signature);
}

/// Splitting a signed frame of `n`-byte frame `frame` and signature
/// `signature` hands the verifier exactly that frame and that signature, so
/// a signature that verifies the frame verifies the split too.
pub proof fn lemma_signed_frame_split(frame: Seq<u8>, signature: Seq<u8>, n: int, key: PublicKey)
    requires
        frame.len() == n,
        has_compressible_header(signature),
    ensures
        (frame + signature.skip(2)).take(n) == frame,
        expanded_signature((frame + signature.skip(2)).skip(n)) == signature,
        signature_verifies(key, frame, signature) ==> signature_verifies(
            key,
            (frame + signature.skip(2)).take(n),
            expanded_signature((frame + signature.skip(2)).skip(n)),
        ),
{
    assert((frame + signature.skip(2)).take(n) =~= frame);
    assert((frame + signature.skip(2)).skip(n) =~= signature.skip(2));
    lemma_signature_header_round_trip(signature);
}

/// A signed frame: the frame, then the signature without its header.
/// A signature without the expected header is an error.
pub fn append_signature(frame: &[u8], signature: &[u8]) -> (r: Result<Vec<u8>, Error>)
    ensures
        has_compressible_header(signature@) ==> (r matches Ok(v) && v@ == frame@ + signature@.skip(
            2,
        )),
        !has_compressible_header(signature@) ==> (r matches Err(
            Error::UnexpectedSignatureHeader { signature: s },
        ) && s@ == signature@),
{
    let n = signature.len();
    if n < 2 || signature[0] != SIGNATURE_TAG || signature[1] as usize != n - 2 {
        return Err(Error::UnexpectedSignatureHeader { signature: copy_bytes(signature, 0) });
    }
    let mut out = copy_bytes(frame, 0);
    let mut i: usize = 2;
    while i < n
        invariant
            2 <= i <= n,
            n == signature@.len(),
            out@ == frame@ + signature@.subrange(2, i as int),
        decreases n - i,
    {
        out.push(signature[i]);
        proof {
            assert(signature@.subrange(2, i + 1) =~= signature@.subrange(2, i as int).push(
                signature@[i as int],
            ));
        }
        i = i + 1;
    }
    proof {
        assert(signature@.subrange(2, n as int) =~= signature@.skip(2));
    }
    Ok(out)
}

/// The full signature for the bytes that follow a frame.
pub fn expand_signature(tail: &[u8]) -> (r: Vec<u8>)
    ensures
        r@ == expanded_signature(tail@),
{
    let mut out: Vec<u8> = Vec::new();
    out.push(SIGNATURE_TAG);
    out.push((tail.len() % 256) as u8);
    let mut i: usize = 0;
    while i < tail.len()
        invariant
            i <= tail@.len(),
            out@ == seq![SIGNATURE_TAG, (tail@.len() % 256) as u8] + tail@.take(i as int),
        decreases tail.len() - i,
    {
        out.push(tail[i]);
        proof {
            assert(tail@.take(i + 1) =~= tail@.take(i as int).push(tail@[i as int]));
        }
        i = i + 1;
    }
    proof {
        assert(tail@.take(i as int) =~= tail@);
    }
    out
}

/// The bytes of `bytes` from index `from` on.
pub fn copy_bytes(bytes: &[u8], from: usize) -> (r: Vec<u8>)
    requires
        from <= bytes@.len(),
    ensures
        r@ == bytes@.skip(from as int),
{
    let mut out: Vec<u8> = Vec::new();
    let mut i: usize = from;
    while i < bytes.len()
        invariant
            from <= i <= bytes@.len(),
            out@ == bytes@.subrange(from as int, i as int),
        decreases bytes.len() - i,
    {
        out.push(bytes[i]);
        proof {
            assert(bytes@.subrange(from as int, i + 1) =~= bytes@.subrange(from as int, i as int).push(
                bytes@[i as int],
            ));
        }
        i = i + 1;
    }
    proof {
        assert(bytes@.subrange(from as int, i as int) =~= bytes@.skip(from as int));
    }
    out
}

/// The first `N` bytes of `bytes` as an array.
pub fn prefix_array<const N: usize>(bytes: &[u8]) -> (r: [u8; N])
    requires
        bytes@.len() >= N,
    ensures
        r@ == bytes@.take(N as int),
{
    let mut out = [0u8; N];
    let mut i: usize = 0;
    while i < N
        invariant
            i <= N <= bytes@.len(),
            out@.len() == N,
            forall|j: int| 0 <= j < i ==> out@[j] == bytes@[j],
        decreases N - i,
    {
        out[i] = bytes[i];
        i = i + 1;
    }
    proof {
        assert(out@ =~= bytes@.take(N as int));
    }
    out
}

/// A frame type whose records pack into exactly `N` bytes.
pub trait IntoFromLoraPayload<const N: usize>: Sized {
    /// Whether every field of the record fits its width in the frame.
    spec fn encodable(&self) -> bool;

    /// The frame of the record.
    spec fn lora_bytes(&self) -> Seq<u8>;

    /// Whether `r` is what decoding the frame `bytes` gives.
    spec fn decodes(bytes: Seq<u8>, r: Result<Self, Error>) -> bool;

    /// The name of the frame type in errors.
    spec fn spec_label() -> Seq<char>;

    fn into_lora_bytes(self) -> (r: [u8; N])
        requires
            self.encodable(),
        ensures
            r@ == self.lora_bytes(),
    ;

    fn from_lora_bytes(bytes: [u8; N]) -> (r: Result<Self, Error>)
        ensures
            Self::decodes(bytes@, r),
    ;

    fn label() -> (r: &'static str)
        ensures
            r@ == Self::spec_label(),
    ;

    /// The frame followed by its signature under `key`, without the
    /// signature's two-byte header.
    fn into_lora_bytes_with_signature<K: KeyTrait>(self, key: &K) -> (r: Result<Vec<u8>, Error>)
        requires
            self.encodable(),
        ensures
            (r matches Ok(v) ==> exists|signature: Seq<u8>|
                has_compressible_header(signature) && v@ == self.lora_bytes() + signature.skip(2)),
            (r matches Err(e) ==> (e is Key || e is UnexpectedSignatureHeader)),
    {
        let frame = self.into_lora_bytes();
        match key.sign(frame.as_slice()) {
            Ok(signature) => append_signature(frame.as_slice(), signature.as_slice()),
            Err(e) => Err(Error::Key(debug_text(&e))),
        }
    }

    /// The record of a signed frame whose signature verifies under `pubkey`.
    /// Input shorter than a frame, a signature that does not verify, and a
    /// frame that does not decode are errors.
    fn from_lora_vec_with_verified_signature(pubkey: &PublicKey, vec: Vec<u8>) -> (r: Result<
        Self,
        Error,
    >)
        ensures
            vec@.len() < N ==> (r matches Err(
                Error::InvalidVecForParsingLoraPayload { payload, size },
            ) && payload@ == Self::spec_label() && size == vec@.len()),
            vec@.len() >= N && signature_verifies(
                *pubkey,
                vec@.take(N as int),
                expanded_signature(vec@.skip(N as int)),
            ) ==> Self::decodes(vec@.take(N as int), r),
            vec@.len() >= N && !signature_verifies(
                *pubkey,
                vec@.take(N as int),
                expanded_signature(vec@.skip(N as int)),
            ) ==> (r matches Err(Error::SignatureVerification { pubkey: k, msg, signature }) && *k
                == *pubkey && msg@ == vec@.take(N as int) && signature@ == expanded_signature(
                vec@.skip(N as int),
            )),
    {
        let size = vec.len();
        if size < N {
            return Err(Error::InvalidVecForParsingLoraPayload { payload: Self::label(), size });
        }
        let bytes: [u8; N] = prefix_array(vec.as_slice());
        let tail = copy_bytes(vec.as_slice(), N);
        let signature = expand_signature(tail.as_slice());
        let verified = verify_signature(pubkey, bytes.as_slice(), signature.as_slice()).is_ok();
        Self::from_checked_frame(pubkey, bytes, signature, verified)
    }

    /// What a signed frame gives once its signature has been checked: the
    /// decoded record when the signature verified, else the verification
    /// error naming the key, the frame and the signature.
    fn from_checked_frame(
        pubkey: &PublicKey,
        bytes: [u8; N],
        signature: Vec<u8>,
        verified: bool,
    ) -> (r: Result<Self, Error>)
        ensures
            verified ==> Self::decodes(bytes@, r),
            !verified ==> (r matches Err(
                Error::SignatureVerification { pubkey: k, msg, signature: s },
            ) && *k == *pubkey && msg@ == bytes@ && s@ == signature@),
    {
        if verified {
            Self::from_lora_bytes(bytes)
        } else {
            Err(
                Error::SignatureVerification {
                    pubkey: Box::new(clone_public_key(pubkey)),
                    msg: copy_bytes(bytes.as_slice(), 0),
                    signature,
                },
            )
        }
    }
}

} // verus!
