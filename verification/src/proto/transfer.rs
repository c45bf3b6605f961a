//! Following one requested range of a clipboard file: at most one chunk, at
//! most one completion, and both as asked for.
use crate::proto::model::Fault;
use crate::proto::validate::file_chunk_fault;
use crate::proto::validate::position_fault;
use crate::proto::validate::reports;
use crate::proto::validate::request_fault;
use crate::proto::validate::validate_file_chunk;
use crate::proto::validate::validate_file_position;
use crate::proto::validate::validate_request;
use crate::proto::ProtocolError;
use vstd::prelude::*;

verus! {

/// Watches the answers to one request for a range of a clipboard file.
#[derive(Clone, Copy, Debug, PartialEq, Eq, Structural)]
pub struct ClipboardFileChunkValidator {
    transfer_id: u64,
    file_id: u64,
    request_id: u64,
    offset: u64,
    length: u64,
    chunk_received: bool,
    chunk_end: Option<u64>,
    eof: bool,
    complete: bool,
}

/// What a validator knows: the request, and what has come of it.
pub ghost struct Watch {
    pub transfer_id: u64,
    pub file_id: u64,
    pub request_id: u64,
    pub offset: u64,
    pub length: u64,
    /// The number of bytes in the chunk that came, if one has come.
    pub received: Option<int>,
    pub complete: bool,
}

impl Watch {
    /// The messages of this request carry these three identities.
    pub open spec fn is_for(self, transfer_id: u64, file_id: u64, request_id: u64) -> bool {
        self.transfer_id == transfer_id && self.file_id == file_id && self.request_id == request_id
    }

    /// The request is one that may be made, and a chunk that came lies in it.
    pub open spec fn wf(self) -> bool {
        &&& self.file_id != 0
        &&& self.request_id != 0
        &&& request_fault(self.offset, self.length) is None
        &&& match self.received {
            Some(n) => 0 < n <= self.length,
            None => true,
        }
    }

    /// Why a chunk is refused.
    pub open spec fn chunk_fault(
        self,
        transfer_id: u64,
        file_id: u64,
        request_id: u64,
        offset: u64,
        data_len: usize,
    ) -> Option<Fault> {
        if self.complete || self.received is Some {
            Some(Fault::InvalidFileChunk("duplicate chunk"@))
        } else if !self.is_for(transfer_id, file_id, request_id) {
            Some(Fault::InvalidFileChunk("unexpected transfer identity"@))
        } else if offset != self.offset {
            Some(Fault::InvalidFileChunk("unexpected offset"@))
        } else if file_chunk_fault(offset, data_len) is Some {
            file_chunk_fault(offset, data_len)
        } else if data_len > self.length {
            Some(Fault::InvalidFileChunk("chunk exceeds requested length"@))
        } else {
            None
        }
    }

    /// Why a completion is refused. After a chunk the file ends where the chunk
    /// does, and the chunk was shorter than asked for; without one the file
    /// ends where the range starts.
    pub open spec fn completion_fault(
        self,
        transfer_id: u64,
        file_id: u64,
        request_id: u64,
        size: u64,
    ) -> Option<Fault> {
        if self.complete {
            Some(Fault::InvalidFileChunk("duplicate completion"@))
        } else if !self.is_for(transfer_id, file_id, request_id) {
            Some(Fault::InvalidFileChunk("unexpected transfer identity"@))
        } else {
            match self.received {
                Some(n) => if n < self.length && size == self.offset + n {
                    position_fault(size)
                } else {
                    Some(Fault::InvalidFileChunk("inconsistent completion size"@))
                },
                None => if size == self.offset {
                    position_fault(size)
                } else {
                    Some(Fault::InvalidFileChunk("completion before end of file"@))
                },
            }
        }
    }
}

impl View for ClipboardFileChunkValidator {
    type V = Watch;

    closed spec fn view(&self) -> Watch {
        Watch {
            transfer_id: self.transfer_id,
            file_id: self.file_id,
            request_id: self.request_id,
            offset: self.offset,
            length: self.length,
            received: match self.chunk_end {
                Some(end) => Some(end - self.offset),
                None => None,
            },
            complete: self.complete,
        }
    }
}

/// Why no range can be watched.
pub open spec fn watch_fault(file_id: u64, request_id: u64, offset: u64, length: u64) -> Option<
    Fault,
> {
    if file_id == 0 {
        Some(Fault::InvalidFileChunk("zero file id"@))
    } else if request_fault(offset, length) is Some {
        request_fault(offset, length)
    } else if request_id == 0 {
        Some(Fault::InvalidFileChunk("zero request id"@))
    } else {
        None
    }
}

impl ClipboardFileChunkValidator {
    /// The flags agree with the chunk that came.
    #[verifier::type_invariant]
    pub closed spec fn inv(self) -> bool {
        &&& self@.wf()
        &&& self.chunk_received == self.chunk_end is Some
        &&& match self.chunk_end {
            Some(end) => self.offset < end && self.eof == (end - self.offset < self.length),
            None => true,
        }
    }

    /// Starts watching a range.
    pub fn new(
        transfer_id: u64,
        file_id: u64,
        request_id: u64,
        offset: u64,
        length: u64,
    ) -> (r: Result<ClipboardFileChunkValidator, ProtocolError>)
        ensures
            match r {
                Ok(v) => {
                    &&& watch_fault(file_id, request_id, offset, length) is None
                    &&& v@.wf()
                    &&& v@ == (Watch {
                        transfer_id,
                        file_id,
                        request_id,
                        offset,
                        length,
                        received: None,
                        complete: false,
                    })
                },
                Err(error) => watch_fault(file_id, request_id, offset, length) == Some(error@),
            },
    {
        if file_id == 0 {
            return Err(ProtocolError::InvalidFileChunk("zero file id"));
        }
        validate_request(offset, length)?;
        if request_id == 0 {
            return Err(ProtocolError::InvalidFileChunk("zero request id"));
        }
        Ok(
            ClipboardFileChunkValidator {
                transfer_id,
                file_id,
                request_id,
                offset,
                length,
                chunk_received: false,
                chunk_end: None,
                eof: false,
                complete: false,
            },
        )
    }

    /// Takes a chunk, if it is the one that was asked for.
    pub fn validate_chunk(
        &mut self,
        transfer_id: u64,
        file_id: u64,
        request_id: u64,
        offset: u64,
        data_len: usize,
    ) -> (r: Result<(), ProtocolError>)
        ensures
            reports(
                r,
                old(self)@.chunk_fault(transfer_id, file_id, request_id, offset, data_len),
            ),
            r is Ok ==> final(self)@ == (Watch { received: Some(data_len as int), ..old(self)@ }),
            r is Err ==> *final(self) == *old(self),
            final(self)@.wf(),
    {
        proof {
            use_type_invariant(&*self);
        }
        if self.complete || self.chunk_received {
            return Err(ProtocolError::InvalidFileChunk("duplicate chunk"));
        }
        if transfer_id != self.transfer_id || file_id != self.file_id || request_id
            != self.request_id {
            return Err(ProtocolError::InvalidFileChunk("unexpected transfer identity"));
        }
        if offset != self.offset {
            return Err(ProtocolError::InvalidFileChunk("unexpected offset"));
        }
        validate_file_chunk(offset, data_len)?;
        let data_len: u64 = data_len as u64;
        if data_len > self.length {
            return Err(ProtocolError::InvalidFileChunk("chunk exceeds requested length"));
        }
        *self =
        ClipboardFileChunkValidator {
            chunk_received: true,
            chunk_end: Some(offset + data_len),
            eof: data_len < self.length,
            ..*self
        };
        Ok(())
    }

    /// Takes the completion, if it agrees with what has come.
    pub fn validate_complete(
        &mut self,
        transfer_id: u64,
        file_id: u64,
        request_id: u64,
        size: u64,
    ) -> (r: Result<(), ProtocolError>)
        ensures
            reports(r, old(self)@.completion_fault(transfer_id, file_id, request_id, size)),
            r is Ok ==> final(self)@ == (Watch { complete: true, ..old(self)@ }),
            r is Err ==> *final(self) == *old(self),
            final(self)@.wf(),
    {
        proof {
            use_type_invariant(&*self);
        }
        if self.complete {
            return Err(ProtocolError::InvalidFileChunk("duplicate completion"));
        }
        if transfer_id != self.transfer_id || file_id != self.file_id || request_id
            != self.request_id {
            return Err(ProtocolError::InvalidFileChunk("unexpected transfer identity"));
        }
        match self.chunk_end {
            Some(end) => {
                if !self.eof || end != size {
                    return Err(ProtocolError::InvalidFileChunk("inconsistent completion size"));
                }
            },
            None => {
                if size != self.offset {
                    return Err(ProtocolError::InvalidFileChunk("completion before end of file"));
                }
            },
        }
        validate_file_position(size)?;
        *self = ClipboardFileChunkValidator { complete: true, ..*self };
        Ok(())
    }
}

/// A range is answered by one chunk at most: once one was taken, every other is
/// refused.
pub proof fn law_one_chunk(
    w: Watch,
    transfer_id: u64,
    file_id: u64,
    request_id: u64,
    offset: u64,
    data_len: usize,
)
    requires
        w.received is Some,
    ensures
        w.chunk_fault(transfer_id, file_id, request_id, offset, data_len) is Some,
{
}

/// Nothing is taken after the completion: neither a chunk nor another
/// completion.
pub proof fn law_completion_ends(
    w: Watch,
    transfer_id: u64,
    file_id: u64,
    request_id: u64,
    offset: u64,
    data_len: usize,
    size: u64,
)
    requires
        w.complete,
    ensures
        w.chunk_fault(transfer_id, file_id, request_id, offset, data_len) is Some,
        w.completion_fault(transfer_id, file_id, request_id, size) is Some,
{
}

/// A file ends inside a range only where the chunk was shorter than asked for:
/// after a chunk of the whole length no completion is taken.
pub proof fn law_full_chunk_is_not_the_end(
    w: Watch,
    transfer_id: u64,
    file_id: u64,
    request_id: u64,
    size: u64,
)
    requires
        w.wf(),
        w.received == Some(w.length as int),
    ensures
        w.completion_fault(transfer_id, file_id, request_id, size) is Some,
{
}

/// The chunk that was asked for is taken, whatever its length up to the one
/// asked for, and where it is shorter, so is the completion at its end.
pub proof fn law_honest_answer_is_taken(w: Watch, data_len: usize)
    requires
        w.wf(),
        !w.complete,
        w.received is None,
        0 < data_len < w.length,
    ensures
        w.chunk_fault(w.transfer_id, w.file_id, w.request_id, w.offset, data_len) is None,
        (Watch { received: Some(data_len as int), ..w }).completion_fault(
            w.transfer_id,
            w.file_id,
            w.request_id,
            (w.offset + data_len) as u64,
        ) is None,
{
}

/// A chunk is taken if and only if it is the first, answers what was asked for, starts
/// where that starts, and holds 1 byte to as many as were asked for.
pub proof fn law_chunks_answer_their_request(
    w: Watch,
    transfer_id: u64,
    file_id: u64,
    request_id: u64,
    offset: u64,
    data_len: usize,
)
    requires
        w.wf(),
    ensures
        w.chunk_fault(transfer_id, file_id, request_id, offset, data_len) is None <==> {
            &&& !w.complete && w.received is None
            &&& transfer_id == w.transfer_id && file_id == w.file_id && request_id == w.request_id
            &&& offset == w.offset
            &&& 1 <= data_len <= w.length
        },
{
}

/// A file is complete if and only if the answer to the request was shorter than asked
/// for, or there was none, and the size is where the answer ends.
pub proof fn law_files_end_where_the_answer_ends(
    w: Watch,
    transfer_id: u64,
    file_id: u64,
    request_id: u64,
    size: u64,
)
    requires
        w.wf(),
    ensures
        w.completion_fault(transfer_id, file_id, request_id, size) is None <==> {
            &&& !w.complete
            &&& transfer_id == w.transfer_id && file_id == w.file_id && request_id == w.request_id
            &&& match w.received {
                None => size == w.offset,
                Some(n) => n < w.length && size == w.offset + n,
            }
        },
{
}

/// A range of 1 to 1167 bytes below 64 MiB can be asked for, of a file and a request
/// that have numbers.
pub proof fn law_which_ranges_are_watched(file_id: u64, request_id: u64, offset: u64, length: u64)
    ensures
        watch_fault(file_id, request_id, offset, length) is None <==> {
            &&& file_id != 0 && request_id != 0
            &&& 1 <= length <= 1167
            &&& offset + length <= 64 * 1024 * 1024
        },
{
}

} // verus!
