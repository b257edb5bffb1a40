//! Streams of any length, one chunk in memory at a time: a sealer takes the
//! chunks of a plaintext and gives the frames of its stream, an opener takes
//! the frames and gives the chunks back. Both keep account of what has gone
//! through them, so that what they promise holds of the whole stream.

use crate::crypto::{
    is_sealed, spec_open, Crypto, CryptoError, ENCRYPTED_CHUNK_LEN, PLAIN_CHUNK_LEN,
};
use crate::stream::{
    frame_label, sealed_stream, spec_chunk, spec_decrypt_frames, spec_decrypt_stream,
    spec_frame_count, spec_label, spec_prepend, spec_stream_frame,
};
use vstd::prelude::*;

verus! {

/// `sealed` is the frames of the chunks of `plain`, which are all full and
/// none of which is sealed as the last.
pub open spec fn sealed_chunks(key: Seq<u8>, plain: Seq<u8>, sealed: Seq<u8>) -> bool {
    &&& plain.len() % (PLAIN_CHUNK_LEN as nat) == 0
    &&& sealed.len() == (plain.len() / (PLAIN_CHUNK_LEN as nat)) * ENCRYPTED_CHUNK_LEN
    &&& forall|i: int|
        0 <= i < plain.len() / (PLAIN_CHUNK_LEN as nat) ==> is_sealed(
            key,
            spec_label(i as nat, false),
            #[trigger] spec_chunk(plain, i),
            spec_stream_frame(sealed, i),
        )
}

/// `sealed` is `frames` full frames that hold `plain`: however the stream
/// goes on, it holds `plain` followed by what the rest holds from the place
/// `frames` on.
pub open spec fn opened_chunks(key: Seq<u8>, sealed: Seq<u8>, plain: Seq<u8>, frames: nat) -> bool {
    forall|tail: Seq<u8>| #[trigger]
        spec_decrypt_stream(key, sealed + tail) == spec_prepend(
            plain,
            spec_decrypt_frames(key, tail, frames),
        )
}

/// Whatever follows `sealed`, the stream is not authentic.
pub open spec fn never_authentic(key: Seq<u8>, sealed: Seq<u8>) -> bool {
    forall|tail: Seq<u8>| #[trigger] spec_decrypt_stream(key, sealed + tail) is None
}

/// Seals a stream chunk by chunk.
pub struct StreamSealer<'a> {
    crypto: &'a Crypto,
    finished: bool,
    frames: u64,
    plain: Ghost<Seq<u8>>,
    sealed: Ghost<Seq<u8>>,
}

/// Opens a stream frame by frame.
pub struct StreamOpener<'a> {
    crypto: &'a Crypto,
    finished: bool,
    frames: u64,
    sealed: Ghost<Seq<u8>>,
    plain: Ghost<Seq<u8>>,
}

impl<'a> StreamSealer<'a> {
    #[verifier::type_invariant]
    spec fn well_formed(self) -> bool {
        if self.finished {
            sealed_stream(self.crypto.key(), self.plain@, self.sealed@)
        } else {
            &&& sealed_chunks(self.crypto.key(), self.plain@, self.sealed@)
            &&& self.frames == self.plain@.len() / (PLAIN_CHUNK_LEN as nat)
        }
    }

    /// The key that the chunks are sealed under.
    pub closed spec fn key(&self) -> Seq<u8> {
        self.crypto.key()
    }

    /// The chunks taken so far, one after the other.
    pub closed spec fn plain(&self) -> Seq<u8> {
        self.plain@
    }

    /// The frames given so far, one after the other.
    pub closed spec fn sealed(&self) -> Seq<u8> {
        self.sealed@
    }

    /// Number of full chunks taken so far.
    pub closed spec fn frames(&self) -> nat {
        self.frames as nat
    }

    /// Whether the last chunk was taken.
    pub closed spec fn finished(&self) -> bool {
        self.finished
    }

    /// A chunk that the sealer does not take: one after the last, one that
    /// is too long, or one whose place no label can tell.
    pub open spec fn refuses(&self, chunk_len: nat) -> bool {
        self.finished() || chunk_len > PLAIN_CHUNK_LEN || self.frames() == u64::MAX
    }

    /// A sealer that has taken nothing yet.
    pub fn new(crypto: &'a Crypto) -> (sealer: StreamSealer<'a>)
        ensures
            sealer.key() == crypto.key(),
            sealer.plain() == Seq::<u8>::empty(),
            sealer.sealed() == Seq::<u8>::empty(),
            sealer.frames() == 0,
            !sealer.finished(),
    {
        StreamSealer {
            crypto,
            finished: false,
            frames: 0,
            plain: Ghost(Seq::empty()),
            sealed: Ghost(Seq::empty()),
        }
    }

    /// Whether the last chunk was taken.
    pub fn is_finished(&self) -> (finished: bool)
        ensures
            finished == self.finished(),
    {
        self.finished
    }

    /// Seals the next chunk of the stream and gives its frame. Every chunk
    /// but the last is `PLAIN_CHUNK_LEN` bytes long; a shorter one, which
    /// may be empty, is the last. The frame is sealed with the label of its
    /// place. Once the last chunk is taken the frames given are the stream
    /// that seals the chunks taken.
    ///
    /// A chunk that the sealer does not take is refused with
    /// `InvalidChunk`; `CipherFailure` is the random source failing. The
    /// sealer is as it was after either.
    pub fn seal_chunk(&mut self, chunk: &[u8]) -> (r: Result<Vec<u8>, CryptoError>)
        ensures
            final(self).key() == old(self).key(),
            final(self).finished() ==> sealed_stream(
                final(self).key(),
                final(self).plain(),
                final(self).sealed(),
            ),
            match r {
                Ok(frame) => {
                    &&& !old(self).refuses(chunk@.len())
                    &&& is_sealed(
                        old(self).key(),
                        spec_label(old(self).frames(), chunk@.len() < PLAIN_CHUNK_LEN),
                        chunk@,
                        frame@,
                    )
                    &&& final(self).plain() == old(self).plain() + chunk@
                    &&& final(self).sealed() == old(self).sealed() + frame@
                    &&& final(self).finished() == (chunk@.len() < PLAIN_CHUNK_LEN)
                    &&& !final(self).finished() ==> final(self).frames() == old(self).frames() + 1
                },
                Err(e) => {
                    &&& final(self).plain() == old(self).plain()
                    &&& final(self).sealed() == old(self).sealed()
                    &&& final(self).frames() == old(self).frames()
                    &&& final(self).finished() == old(self).finished()
                    &&& e == if old(self).refuses(chunk@.len()) {
                        CryptoError::InvalidChunk
                    } else {
                        CryptoError::CipherFailure
                    }
                },
            },
    {
        proof {
            use_type_invariant(&*self);
        }
        if self.finished || chunk.len() > PLAIN_CHUNK_LEN || self.frames == u64::MAX {
            return Err(CryptoError::InvalidChunk);
        }
        let last = chunk.len() < PLAIN_CHUNK_LEN;
        let label = frame_label(self.frames, last);
        match self.crypto.seal(chunk, label.as_slice()) {
            Err(e) => Err(e),
            Ok(frame) => {
                let ghost key = self.crypto.key();
                let ghost before_plain = self.plain@;
                let ghost before_sealed = self.sealed@;
                let ghost plain = before_plain + chunk@;
                let ghost sealed = before_sealed + frame@;
                proof {
                    let full = (before_plain.len() / (PLAIN_CHUNK_LEN as nat)) as int;
                    assert(spec_chunk(plain, full) =~= chunk@);
                    assert(spec_stream_frame(sealed, full) =~= frame@);
                    assert forall|i: int| 0 <= i < full implies is_sealed(
                        key,
                        spec_label(i as nat, false),
                        #[trigger] spec_chunk(plain, i),
                        spec_stream_frame(sealed, i),
                    ) by {
                        assert(is_sealed(
                            key,
                            spec_label(i as nat, false),
                            spec_chunk(before_plain, i),
                            spec_stream_frame(before_sealed, i),
                        ));
                        assert(spec_chunk(plain, i) =~= spec_chunk(before_plain, i));
                        assert(spec_stream_frame(sealed, i) =~= spec_stream_frame(
                            before_sealed,
                            i,
                        ));
                    }
                    if last {
                        assert(spec_frame_count(plain.len()) == full + 1);
                    } else {
                        assert(plain.len() / (PLAIN_CHUNK_LEN as nat) == full + 1);
                    }
                }
                *self = StreamSealer {
                    crypto: self.crypto,
                    finished: last,
                    frames: if last { self.frames } else { self.frames + 1 },
                    plain: Ghost(plain),
                    sealed: Ghost(sealed),
                };
                Ok(frame)
            },
        }
    }
}

impl<'a> StreamOpener<'a> {
    #[verifier::type_invariant]
    spec fn well_formed(self) -> bool {
        if self.finished {
            spec_decrypt_stream(self.crypto.key(), self.sealed@) == Some(self.plain@)
        } else {
            opened_chunks(self.crypto.key(), self.sealed@, self.plain@, self.frames as nat)
        }
    }

    /// The key that the frames are opened with.
    pub closed spec fn key(&self) -> Seq<u8> {
        self.crypto.key()
    }

    /// The frames taken so far, one after the other.
    pub closed spec fn sealed(&self) -> Seq<u8> {
        self.sealed@
    }

    /// The chunks given so far, one after the other.
    pub closed spec fn plain(&self) -> Seq<u8> {
        self.plain@
    }

    /// Number of full frames taken so far.
    pub closed spec fn frames(&self) -> nat {
        self.frames as nat
    }

    /// Whether the last frame was taken.
    pub closed spec fn finished(&self) -> bool {
        self.finished
    }

    /// A frame that the opener does not take: one after the last, one that
    /// is too long, or one whose place no label can tell.
    pub open spec fn refuses(&self, frame_len: nat) -> bool {
        self.finished() || frame_len > ENCRYPTED_CHUNK_LEN || self.frames() == u64::MAX
    }

    /// An opener that has taken nothing yet.
    pub fn new(crypto: &'a Crypto) -> (opener: StreamOpener<'a>)
        ensures
            opener.key() == crypto.key(),
            opener.sealed() == Seq::<u8>::empty(),
            opener.plain() == Seq::<u8>::empty(),
            opener.frames() == 0,
            !opener.finished(),
    {
        let ghost key = crypto.key();
        let ghost nothing = Seq::<u8>::empty();
        proof {
            assert forall|tail: Seq<u8>| #[trigger]
                spec_decrypt_stream(key, nothing + tail) == spec_prepend(
                    nothing,
                    spec_decrypt_frames(key, tail, 0),
                ) by {
                assert(nothing + tail =~= tail);
                let rest = spec_decrypt_frames(key, tail, 0);
                if rest is Some {
                    assert(nothing + rest->0 =~= rest->0);
                }
            }
        }
        StreamOpener {
            crypto,
            finished: false,
            frames: 0,
            sealed: Ghost(nothing),
            plain: Ghost(nothing),
        }
    }

    /// Whether the last frame was taken.
    pub fn is_finished(&self) -> (finished: bool)
        ensures
            finished == self.finished(),
    {
        self.finished
    }

    /// Opens the next frame of the stream and gives its chunk. Every frame
    /// but the last is `ENCRYPTED_CHUNK_LEN` bytes long; a shorter one is
    /// the last. A frame opens only with the label of its place. Once the
    /// last frame is taken, the chunks given are what the stream of the
    /// frames taken holds.
    ///
    /// A frame that the opener does not take is refused with
    /// `InvalidChunk`. A frame that is not authentic in its place fails
    /// with `AuthenticationFailure`: the frames handed in so far are no
    /// authentic stream and, where the frame is a full one, nothing that
    /// follows them can make them one. The opener is as it was after
    /// either.
    pub fn open_frame(&mut self, frame: &[u8]) -> (r: Result<Vec<u8>, CryptoError>)
        ensures
            final(self).key() == old(self).key(),
            final(self).finished() ==> spec_decrypt_stream(
                final(self).key(),
                final(self).sealed(),
            ) == Some(final(self).plain()),
            match r {
                Ok(chunk) => {
                    &&& !old(self).refuses(frame@.len())
                    &&& is_sealed(
                        old(self).key(),
                        spec_label(old(self).frames(), frame@.len() < ENCRYPTED_CHUNK_LEN),
                        chunk@,
                        frame@,
                    )
                    &&& final(self).sealed() == old(self).sealed() + frame@
                    &&& final(self).plain() == old(self).plain() + chunk@
                    &&& final(self).finished() == (frame@.len() < ENCRYPTED_CHUNK_LEN)
                    &&& !final(self).finished() ==> final(self).frames() == old(self).frames() + 1
                },
                Err(e) => {
                    &&& final(self).sealed() == old(self).sealed()
                    &&& final(self).plain() == old(self).plain()
                    &&& final(self).frames() == old(self).frames()
                    &&& final(self).finished() == old(self).finished()
                    &&& e == if old(self).refuses(frame@.len()) {
                        CryptoError::InvalidChunk
                    } else {
                        CryptoError::AuthenticationFailure
                    }
                    &&& e == CryptoError::AuthenticationFailure ==> spec_decrypt_stream(
                        old(self).key(),
                        old(self).sealed() + frame@,
                    ) is None
                    &&& e == CryptoError::AuthenticationFailure && frame@.len()
                        == ENCRYPTED_CHUNK_LEN ==> never_authentic(
                        old(self).key(),
                        old(self).sealed() + frame@,
                    )
                },
            },
    {
        proof {
            use_type_invariant(&*self);
        }
        if self.finished || frame.len() > ENCRYPTED_CHUNK_LEN || self.frames == u64::MAX {
            return Err(CryptoError::InvalidChunk);
        }
        let last = frame.len() < ENCRYPTED_CHUNK_LEN;
        let label = frame_label(self.frames, last);
        let ghost key = self.crypto.key();
        let ghost index = self.frames as nat;
        let ghost before_sealed = self.sealed@;
        let ghost before_plain = self.plain@;
        match self.crypto.open(frame, label.as_slice()) {
            Err(e) => {
                proof {
                    assert(spec_decrypt_stream(key, before_sealed + frame@) == spec_prepend(
                        before_plain,
                        spec_decrypt_frames(key, frame@, index),
                    ));
                    lemma_first_frame(key, frame@, Seq::empty(), index);
                    assert(frame@ + Seq::<u8>::empty() =~= frame@);
                    if !last {
                        assert forall|tail: Seq<u8>| #[trigger]
                            spec_decrypt_stream(key, (before_sealed + frame@) + tail) is None by {
                            let rest = frame@ + tail;
                            assert((before_sealed + frame@) + tail =~= before_sealed + rest);
                            assert(spec_decrypt_stream(key, before_sealed + rest) == spec_prepend(
                                before_plain,
                                spec_decrypt_frames(key, rest, index),
                            ));
                            lemma_first_frame(key, frame@, tail, index);
                        }
                    }
                }
                Err(e)
            },
            Ok(chunk) => {
                let ghost sealed = before_sealed + frame@;
                let ghost plain = before_plain + chunk@;
                proof {
                    if last {
                        assert(spec_decrypt_frames(key, frame@, index) == Some(chunk@));
                        assert(spec_decrypt_stream(key, before_sealed + frame@) == spec_prepend(
                            before_plain,
                            spec_decrypt_frames(key, frame@, index),
                        ));
                    } else {
                        assert forall|tail: Seq<u8>| #[trigger]
                            spec_decrypt_stream(key, sealed + tail) == spec_prepend(
                                plain,
                                spec_decrypt_frames(key, tail, index + 1),
                            ) by {
                            let rest = frame@ + tail;
                            assert(sealed + tail =~= before_sealed + rest);
                            assert(spec_decrypt_stream(key, before_sealed + rest) == spec_prepend(
                                before_plain,
                                spec_decrypt_frames(key, rest, index),
                            ));
                            lemma_first_frame(key, frame@, tail, index);
                            let after = spec_decrypt_frames(key, tail, index + 1);
                            if after is Some {
                                assert(before_plain + (chunk@ + after->0) =~= plain + after->0);
                            }
                        }
                    }
                }
                *self = StreamOpener {
                    crypto: self.crypto,
                    finished: last,
                    frames: if last { self.frames } else { self.frames + 1 },
                    sealed: Ghost(sealed),
                    plain: Ghost(plain),
                };
                Ok(chunk)
            },
        }
    }
}

/// What the frames from `index` on hold that start with `frame`: where the
/// frame is a full one, what the frame holds followed by what the rest
/// holds; where it is shorter and nothing follows, what the frame holds,
/// as the last.
pub proof fn lemma_first_frame(key: Seq<u8>, frame: Seq<u8>, tail: Seq<u8>, index: nat)
    requires
        frame.len() <= ENCRYPTED_CHUNK_LEN,
    ensures
        frame.len() == ENCRYPTED_CHUNK_LEN ==> spec_decrypt_frames(key, frame + tail, index) == (
        match spec_open(key, spec_label(index, false), frame) {
            Some(chunk) => spec_prepend(chunk, spec_decrypt_frames(key, tail, index + 1)),
            None => None,
        }),
        frame.len() < ENCRYPTED_CHUNK_LEN && tail.len() == 0 ==> spec_decrypt_frames(
            key,
            frame + tail,
            index,
        ) == spec_open(key, spec_label(index, true), frame),
{
    let whole = frame + tail;
    if frame.len() == ENCRYPTED_CHUNK_LEN {
        assert(whole.take(ENCRYPTED_CHUNK_LEN as int) =~= frame);
        assert(whole.skip(ENCRYPTED_CHUNK_LEN as int) =~= tail);
    } else if tail.len() == 0 {
        assert(whole =~= frame);
    }
}

} // verus!
