use crate::message::{decode_message, decoding, DecodeError, Message};
use vstd::prelude::*;

verus! {

/// What one read from a stream gave.
pub enum StreamRead {
    /// Bytes, and whether they end the stream.
    Data { chunk: Vec<u8>, fin: bool },
    /// Nothing yet: read again later.
    NotReady,
    /// The stream or its connection failed or was closed.
    Failed,
}

/// Why a message could not be received.
#[derive(Clone, Copy, Debug, PartialEq, Eq, Structural)]
pub enum RecvError {
    /// The stream ended with bytes that are not a message.
    Decode(DecodeError),
    /// Reading the stream failed; it must be abandoned.
    StreamRead { stream_id: u64 },
}

/// What a read did to the message being received.
pub enum RecvStep {
    /// The message is not complete yet.
    Pending,
    /// The stream ended and held this message.
    Complete(Message),
    /// The message is lost.
    Failed(RecvError),
}

/// The bytes received so far on one stream, which carries one message.
pub struct Reassembly {
    stream_id: u64,
    buf: Vec<u8>,
}

impl Reassembly {
    pub closed spec fn stream_id(&self) -> u64 {
        self.stream_id
    }

    /// The bytes received so far.
    pub closed spec fn received(&self) -> Seq<u8> {
        self.buf@
    }

    /// Nothing received yet on `stream_id`.
    pub fn new(stream_id: u64) -> (r: Self)
        ensures
            r.stream_id() == stream_id,
            r.received() == Seq::<u8>::empty(),
    {
        Reassembly { stream_id, buf: Vec::new() }
    }

    /// Takes the outcome of one read. Bytes are appended; at the end of the stream the
    /// bytes are decoded as one message and released; a failed read loses the message.
    pub fn step(&mut self, read: StreamRead) -> (r: RecvStep)
        ensures
            final(self).stream_id() == old(self).stream_id(),
            match read {
                StreamRead::NotReady => r is Pending && final(self).received() == old(
                    self,
                ).received(),
                StreamRead::Failed => r == RecvStep::Failed(
                    RecvError::StreamRead { stream_id: old(self).stream_id() },
                ) && final(self).received() == Seq::<u8>::empty(),
                StreamRead::Data { chunk, fin } => if !fin {
                    r is Pending && final(self).received() == old(self).received() + chunk@
                } else {
                    final(self).received() == Seq::<u8>::empty() && match r {
                        RecvStep::Complete(m) => decoding(old(self).received() + chunk@) == Some(
                            m@,
                        ),
                        RecvStep::Failed(e) => decoding(old(self).received() + chunk@) is None
                            && e == RecvError::Decode(DecodeError::Malformed),
                        RecvStep::Pending => false,
                    }
                },
            },
    {
        match read {
            StreamRead::NotReady => RecvStep::Pending,
            StreamRead::Failed => {
                self.buf = Vec::new();
                RecvStep::Failed(RecvError::StreamRead { stream_id: self.stream_id })
            },
            StreamRead::Data { chunk, fin } => {
                crate::wire::put_bytes(&mut self.buf, chunk.as_slice());
                if !fin {
                    return RecvStep::Pending;
                }
                let decoded = decode_message(self.buf.as_slice());
                self.buf = Vec::new();
                match decoded {
                    Ok(m) => RecvStep::Complete(m),
                    Err(e) => RecvStep::Failed(RecvError::Decode(e)),
                }
            },
        }
    }
}

} // verus!
