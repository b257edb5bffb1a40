//! Sealing and opening of whole streams, frame by frame. Every frame is
//! sealed with a label that tells its place in the stream and whether it is
//! the last, so that a frame opens only where it belongs.

use crate::crypto::{
    is_sealed, random_nonce, spec_open, spec_seal, Crypto, CryptoError, ENCRYPTED_CHUNK_LEN,
    FRAME_OVERHEAD, PLAIN_CHUNK_LEN,
};
use vstd::bytes::*;
use vstd::pervasive::unreached;
use vstd::prelude::*;
use vstd::slice::*;

verus! {

/// Number of frames in the stream that seals a plaintext of the given
/// length: one for each full chunk, and a last one for what is left, which
/// may be nothing.
pub open spec fn spec_frame_count(plain_len: nat) -> nat {
    plain_len / (PLAIN_CHUNK_LEN as nat) + 1
}

/// The label of the frame at `index`: the index in eight bytes, little
/// endian, and a byte that is 1 for the last frame and 0 for any other.
pub open spec fn spec_label(index: nat, last: bool) -> Seq<u8> {
    spec_u64_to_le_bytes(index as u64).push(if last { 1u8 } else { 0u8 })
}

/// The `i`-th chunk of a plaintext.
pub open spec fn spec_chunk(plain: Seq<u8>, i: int) -> Seq<u8> {
    let end = (i + 1) * PLAIN_CHUNK_LEN;
    plain.subrange(i * PLAIN_CHUNK_LEN, if end <= plain.len() { end } else { plain.len() as int })
}

/// The `i`-th frame of a stream.
pub open spec fn spec_stream_frame(stream: Seq<u8>, i: int) -> Seq<u8> {
    let end = (i + 1) * ENCRYPTED_CHUNK_LEN;
    stream.subrange(
        i * ENCRYPTED_CHUNK_LEN,
        if end <= stream.len() { end } else { stream.len() as int },
    )
}

/// `stream` seals `plain` under `key` as the frames from `base` on of a
/// stream: it is as long as the frames of the chunks of `plain` together,
/// and its `i`-th frame seals the `i`-th chunk with the label of the place
/// `base + i`, the last of them as the last.
pub open spec fn sealed_stream_from(key: Seq<u8>, base: nat, plain: Seq<u8>, stream: Seq<u8>) -> bool {
    let count = spec_frame_count(plain.len());
    &&& stream.len() == plain.len() + count * FRAME_OVERHEAD
    &&& forall|i: int|
        0 <= i < count ==> is_sealed(
            key,
            spec_label((base + i) as nat, i == count - 1),
            #[trigger] spec_chunk(plain, i),
            spec_stream_frame(stream, i),
        )
}

/// `stream` seals `plain` under `key`.
pub open spec fn sealed_stream(key: Seq<u8>, plain: Seq<u8>, stream: Seq<u8>) -> bool {
    sealed_stream_from(key, 0, plain, stream)
}

/// The views of a list of nonces.
pub open spec fn spec_ivs(ivs: Seq<[u8; 12]>) -> Seq<Seq<u8>> {
    Seq::new(ivs.len(), |i: int| ivs[i]@)
}

/// The first `n` frames of the stream that seals `plain` under `key`, the
/// `i`-th chunk under the `i`-th nonce.
pub open spec fn spec_encrypt_frames(key: Seq<u8>, ivs: Seq<Seq<u8>>, plain: Seq<u8>, n: nat) -> Seq<
    u8,
>
    decreases n,
{
    if n == 0 {
        Seq::empty()
    } else {
        spec_encrypt_frames(key, ivs, plain, (n - 1) as nat) + spec_seal(
            key,
            ivs[n - 1],
            spec_label((n - 1) as nat, n == spec_frame_count(plain.len())),
            spec_chunk(plain, n - 1),
        )
    }
}

/// The stream that seals `plain` under `key` with the given nonces.
pub open spec fn spec_encrypt_stream(key: Seq<u8>, ivs: Seq<Seq<u8>>, plain: Seq<u8>) -> Seq<u8> {
    spec_encrypt_frames(key, ivs, plain, spec_frame_count(plain.len()))
}

/// `head` in front of what `tail` holds, if it holds anything.
pub open spec fn spec_prepend(head: Seq<u8>, tail: Option<Seq<u8>>) -> Option<Seq<u8>> {
    match tail {
        Some(rest) => Some(head + rest),
        None => None,
    }
}

/// What the frames from `index` on of a stream hold: the contents of the
/// frames, one after the other, where every frame is authentic with the
/// label of its place and the stream ends with a frame shorter than a full
/// one, labelled as the last; `None` otherwise.
pub open spec fn spec_decrypt_frames(key: Seq<u8>, stream: Seq<u8>, index: nat) -> Option<Seq<u8>>
    decreases stream.len(),
{
    if stream.len() < ENCRYPTED_CHUNK_LEN {
        spec_open(key, spec_label(index, true), stream)
    } else {
        match spec_open(key, spec_label(index, false), stream.take(ENCRYPTED_CHUNK_LEN as int)) {
            Some(head) => spec_prepend(
                head,
                spec_decrypt_frames(key, stream.skip(ENCRYPTED_CHUNK_LEN as int), index + 1),
            ),
            None => None,
        }
    }
}

/// What a stream holds, or `None` where it is not authentic: a frame was
/// changed, moved, repeated or left out, or the stream was cut short.
pub open spec fn spec_decrypt_stream(key: Seq<u8>, stream: Seq<u8>) -> Option<Seq<u8>> {
    spec_decrypt_frames(key, stream, 0)
}

/// Number of frames in the stream that seals `plain_len` bytes.
pub fn frame_count(plain_len: usize) -> (n: usize)
    ensures
        n == spec_frame_count(plain_len as nat),
{
    plain_len / PLAIN_CHUNK_LEN + 1
}

/// The label of the frame at `index`.
pub fn frame_label(index: u64, last: bool) -> (label: Vec<u8>)
    ensures
        label@ == spec_label(index as nat, last),
        label@.len() == 9,
{
    let mut label = u64_to_le_bytes(index);
    label.push(if last { 1u8 } else { 0u8 });
    label
}

/// Opening the frames that seal `plain` from `base` on gives `plain` back.
pub proof fn lemma_frames_round_trip(key: Seq<u8>, base: nat, plain: Seq<u8>, stream: Seq<u8>)
    requires
        sealed_stream_from(key, base, plain, stream),
    ensures
        spec_decrypt_frames(key, stream, base) == Some(plain),
    decreases plain.len(),
{
    let n = spec_frame_count(plain.len());
    assert(is_sealed(
        key,
        spec_label(base, 0 == n - 1),
        spec_chunk(plain, 0),
        spec_stream_frame(stream, 0),
    ));
    if plain.len() < PLAIN_CHUNK_LEN {
        assert(n == 1);
        assert(spec_chunk(plain, 0) =~= plain);
        assert(spec_stream_frame(stream, 0) =~= stream);
    } else {
        let rest = plain.skip(PLAIN_CHUNK_LEN as int);
        let tail = stream.skip(ENCRYPTED_CHUNK_LEN as int);
        assert(spec_frame_count(rest.len()) == n - 1);
        assert(spec_chunk(plain, 0) =~= plain.take(PLAIN_CHUNK_LEN as int));
        assert(spec_stream_frame(stream, 0) =~= stream.take(ENCRYPTED_CHUNK_LEN as int));
        assert forall|i: int| 0 <= i < n - 1 implies is_sealed(
            key,
            spec_label((base + 1 + i) as nat, i == n - 2),
            #[trigger] spec_chunk(rest, i),
            spec_stream_frame(tail, i),
        ) by {
            assert(is_sealed(
                key,
                spec_label((base + (i + 1)) as nat, i + 1 == n - 1),
                spec_chunk(plain, i + 1),
                spec_stream_frame(stream, i + 1),
            ));
            assert(spec_chunk(rest, i) =~= spec_chunk(plain, i + 1));
            assert(spec_stream_frame(tail, i) =~= spec_stream_frame(stream, i + 1));
        }
        lemma_frames_round_trip(key, base + 1, rest, tail);
        assert(plain.take(PLAIN_CHUNK_LEN as int) + rest =~= plain);
    }
}

/// Opening a stream that seals `plain` under `key` gives `plain` back.
pub proof fn lemma_stream_round_trip(key: Seq<u8>, plain: Seq<u8>, stream: Seq<u8>)
    requires
        sealed_stream(key, plain, stream),
    ensures
        spec_decrypt_stream(key, stream) == Some(plain),
{
    lemma_frames_round_trip(key, 0, plain, stream);
}

impl Crypto {
    /// Seals `source` as a stream, the `i`-th chunk under the `i`-th nonce.
    pub fn encrypt_stream_with_ivs(&self, source: &[u8], ivs: &Vec<[u8; 12]>) -> (stream: Vec<u8>)
        requires
            ivs@.len() == spec_frame_count(source@.len()),
        ensures
            stream@ == spec_encrypt_stream(self.key(), spec_ivs(ivs@), source@),
            sealed_stream(self.key(), source@, stream@),
    {
        let n = frame_count(source.len());
        let mut stream: Vec<u8> = Vec::new();
        let mut i: usize = 0;
        while i < n
            invariant
                i <= n,
                n == spec_frame_count(source@.len()),
                ivs@.len() == n,
                i < n ==> stream@.len() == i * ENCRYPTED_CHUNK_LEN,
                i == n ==> stream@.len() == source@.len() + n * FRAME_OVERHEAD,
                stream@ == spec_encrypt_frames(self.key(), spec_ivs(ivs@), source@, i as nat),
                forall|j: int|
                    0 <= j < i ==> is_sealed(
                        self.key(),
                        spec_label(j as nat, j == n - 1),
                        #[trigger] spec_chunk(source@, j),
                        spec_stream_frame(stream@, j),
                    ),
            decreases n - i,
        {
            let len = source.len();
            assert(i * PLAIN_CHUNK_LEN <= source@.len()) by (nonlinear_arith)
                requires
                    i <= source@.len() / (PLAIN_CHUNK_LEN as nat),
                    PLAIN_CHUNK_LEN > 0,
            ;
            let start = i * PLAIN_CHUNK_LEN;
            let end = if len - start >= PLAIN_CHUNK_LEN {
                start + PLAIN_CHUNK_LEN
            } else {
                len
            };
            let chunk = slice_subrange(source, start, end);
            assert(chunk@ == spec_chunk(source@, i as int));
            let label = frame_label(i as u64, i == n - 1);
            let ghost before = stream@;
            let frame = match self.seal_with_iv(chunk, ivs[i].as_slice(), label.as_slice()) {
                Ok(frame) => frame,
                Err(_) => unreached(),
            };
            stream.extend_from_slice(frame.as_slice());
            proof {
                assert(stream@ =~= before + frame@);
                assert(spec_ivs(ivs@)[i as int] == ivs@[i as int]@);
                assert(spec_stream_frame(stream@, i as int) =~= frame@);
                assert forall|j: int| 0 <= j < i implies is_sealed(
                    self.key(),
                    spec_label(j as nat, j == n - 1),
                    #[trigger] spec_chunk(source@, j),
                    spec_stream_frame(stream@, j),
                ) by {
                    assert(spec_stream_frame(stream@, j) =~= spec_stream_frame(before, j));
                }
            }
            i += 1;
        }
        stream
    }

    /// Seals `source` as a stream, every chunk under a fresh random nonce.
    /// It fails only where the random source does.
    pub fn encrypt_stream(&self, source: &[u8]) -> (r: Result<Vec<u8>, CryptoError>)
        ensures
            match r {
                Ok(stream) => sealed_stream(self.key(), source@, stream@),
                Err(e) => e == CryptoError::CipherFailure,
            },
    {
        let n = frame_count(source.len());
        let mut ivs: Vec<[u8; 12]> = Vec::new();
        while ivs.len() < n
            invariant
                ivs@.len() <= n,
            decreases n - ivs@.len(),
        {
            match random_nonce() {
                Ok(iv) => ivs.push(iv),
                Err(_) => {
                    return Err(CryptoError::CipherFailure);
                },
            }
        }
        Ok(self.encrypt_stream_with_ivs(source, &ivs))
    }

    /// Opens a stream. Nothing is returned unless every frame is authentic
    /// in its place.
    pub fn decrypt_stream(&self, stream: &[u8]) -> (r: Result<Vec<u8>, CryptoError>)
        ensures
            match r {
                Ok(plain) => spec_decrypt_stream(self.key(), stream@) == Some(plain@),
                Err(e) => spec_decrypt_stream(self.key(), stream@) is None && e
                    == CryptoError::AuthenticationFailure,
            },
    {
        let mut plain: Vec<u8> = Vec::new();
        let mut pos: usize = 0;
        let mut index: u64 = 0;
        proof {
            let whole = spec_decrypt_stream(self.key(), stream@);
            assert(stream@.skip(0) =~= stream@);
            if whole is Some {
                assert(plain@ + whole->0 =~= whole->0);
            }
        }
        loop
            invariant
                pos <= stream@.len(),
                index * ENCRYPTED_CHUNK_LEN == pos,
                spec_decrypt_stream(self.key(), stream@) == spec_prepend(
                    plain@,
                    spec_decrypt_frames(self.key(), stream@.skip(pos as int), index as nat),
                ),
            decreases stream@.len() - pos,
        {
            let ghost rest = stream@.skip(pos as int);
            let ghost before = plain@;
            if stream.len() - pos < ENCRYPTED_CHUNK_LEN {
                let frame = slice_subrange(stream, pos, stream.len());
                assert(frame@ =~= rest);
                let label = frame_label(index, true);
                match self.open(frame, label.as_slice()) {
                    Ok(chunk) => {
                        plain.extend_from_slice(chunk.as_slice());
                        assert(plain@ =~= before + chunk@);
                        return Ok(plain);
                    },
                    Err(e) => {
                        return Err(e);
                    },
                }
            }
            let frame = slice_subrange(stream, pos, pos + ENCRYPTED_CHUNK_LEN);
            assert(frame@ =~= rest.take(ENCRYPTED_CHUNK_LEN as int));
            assert(stream@.skip(pos + ENCRYPTED_CHUNK_LEN) =~= rest.skip(
                ENCRYPTED_CHUNK_LEN as int,
            ));
            let label = frame_label(index, false);
            match self.open(frame, label.as_slice()) {
                Ok(chunk) => {
                    plain.extend_from_slice(chunk.as_slice());
                    proof {
                        assert(plain@ =~= before + chunk@);
                        let tail = spec_decrypt_frames(
                            self.key(),
                            rest.skip(ENCRYPTED_CHUNK_LEN as int),
                            (index + 1) as nat,
                        );
                        if tail is Some {
                            assert(before + (chunk@ + tail->0) =~= (before + chunk@) + tail->0);
                        }
                    }
                    pos += ENCRYPTED_CHUNK_LEN;
                    index += 1;
                },
                Err(e) => {
                    return Err(e);
                },
            }
        }
    }
}

} // verus!
