//! The error taxonomy of the stream.

use vstd::prelude::*;

verus! {

/// Everything that can go wrong while building or driving a stream.
///
/// `InvalidState`, `NoAudioStream`, `NoStreamHeader` and `DecoderFailure`
/// originate in the decoding backend and are latched into the stream by its
/// driver; `SeekIntoHeader` and `SeekNotSupported` are the caller's fault.
#[derive(Clone, PartialEq, Eq, Debug)]
pub enum EncoderError {
    /// A method was called before the stream was ready, or on a dead stream.
    InvalidState,
    /// The input has no audio track.
    NoAudioStream,
    /// The encoder failed to produce the expected two-packet header.
    NoStreamHeader,
    /// The decoding backend reported an error.
    DecoderFailure(String),
    /// The caller asked to seek into the header region.
    SeekIntoHeader,
    /// The caller asked to seek relative to a point other than the start.
    SeekNotSupported,
}

impl EncoderError {
    /// A short description, for embedding into an I/O error message.
    pub fn message(&self) -> (m: String)
        ensures
            m@.len() > 0,
            match self {
                EncoderError::InvalidState => m@ == "stream is not in a state that allows this call"@,
                EncoderError::NoAudioStream => m@ == "input has no audio stream"@,
                EncoderError::NoStreamHeader => m@ == "encoder produced no stream header"@,
                EncoderError::DecoderFailure(_) => m@ == "decoder failure"@,
                EncoderError::SeekIntoHeader => m@ == "seeking into the stream header is not supported"@,
                EncoderError::SeekNotSupported => m@ == "only seeking from the stream start is supported"@,
            },
    {
        let m = match self {
            EncoderError::InvalidState => "stream is not in a state that allows this call",
            EncoderError::NoAudioStream => "input has no audio stream",
            EncoderError::NoStreamHeader => "encoder produced no stream header",
            EncoderError::DecoderFailure(_) => "decoder failure",
            EncoderError::SeekIntoHeader => "seeking into the stream header is not supported",
            EncoderError::SeekNotSupported => "only seeking from the stream start is supported",
        };
        let out = m.to_owned();
        proof {
            reveal_strlit("stream is not in a state that allows this call");
            reveal_strlit("input has no audio stream");
            reveal_strlit("encoder produced no stream header");
            reveal_strlit("decoder failure");
            reveal_strlit("seeking into the stream header is not supported");
            reveal_strlit("only seeking from the stream start is supported");
        }
        out
    }
}

} // verus!
