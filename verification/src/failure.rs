//! What can go wrong, for one transfer attempt and for the upload as a whole.

use vstd::prelude::*;

verus! {

/// The kinds of failure an upload can end with.
#[derive(Clone, Copy, Debug, PartialEq, Eq, Structural)]
pub enum FailureKind {
    /// The file could not be read, or a byte range does not lie in it.
    IoFailure,
    /// The request could not be sent.
    NetworkSendFailure,
    /// The server answered with a status outside 200..=299.
    ServerStatusFailure,
    /// A response header value is not text.
    HeaderDecodeFailure,
    /// A chunk failed again after its last permitted retry.
    RetriesExhausted,
    /// Too many chunks were already waiting to retry.
    FailureConcurrencyExceeded,
    /// The task that worked on a chunk ended abnormally.
    TaskFailure,
}

/// Why one transfer attempt of one chunk yielded no headers.
#[derive(Clone, Debug, PartialEq, Eq)]
pub enum TransferFailure {
    /// Opening, measuring, positioning or reading the file failed.
    Io { message: String },
    /// The chunk starts beyond the end of the file.
    StartBeyondEnd { start: u64, file_size: u64 },
    /// The request could not be sent.
    NetworkSend { message: String },
    /// The server answered with this status, which is outside 200..=299.
    ServerStatus { status: u16 },
    /// The value of the response header `name` is not text.
    HeaderDecode { name: String },
}

impl TransferFailure {
    /// The kind this failure falls under.
    pub open spec fn spec_kind(self) -> FailureKind {
        match self {
            TransferFailure::Io { .. } => FailureKind::IoFailure,
            TransferFailure::StartBeyondEnd { .. } => FailureKind::IoFailure,
            TransferFailure::NetworkSend { .. } => FailureKind::NetworkSendFailure,
            TransferFailure::ServerStatus { .. } => FailureKind::ServerStatusFailure,
            TransferFailure::HeaderDecode { .. } => FailureKind::HeaderDecodeFailure,
        }
    }

    /// Whether another attempt may follow this failure: only a request that
    /// could not be sent and a bad status are worth a retry.
    pub open spec fn retryable(self) -> bool {
        self is NetworkSend || self is ServerStatus
    }

    pub fn kind(&self) -> (kind: FailureKind)
        ensures
            kind == self.spec_kind(),
    {
        match self {
            TransferFailure::Io { .. } => FailureKind::IoFailure,
            TransferFailure::StartBeyondEnd { .. } => FailureKind::IoFailure,
            TransferFailure::NetworkSend { .. } => FailureKind::NetworkSendFailure,
            TransferFailure::ServerStatus { .. } => FailureKind::ServerStatusFailure,
            TransferFailure::HeaderDecode { .. } => FailureKind::HeaderDecodeFailure,
        }
    }

    pub fn is_retryable(&self) -> (yes: bool)
        ensures
            yes == self.retryable(),
    {
        match self {
            TransferFailure::NetworkSend { .. } => true,
            TransferFailure::ServerStatus { .. } => true,
            _ => false,
        }
    }
}

/// The single error an upload ends with. Each variant names the part it
/// arose on.
#[derive(Clone, Debug, PartialEq, Eq)]
pub enum UploadError {
    /// A transfer of chunk `part` failed and no retry followed, because the
    /// failure is not retryable or because retrying is switched off.
    Transfer { part: usize, failure: TransferFailure },
    /// Chunk `part` had used up its `max_retries` retries when `last` happened.
    RetriesExhausted { part: usize, max_retries: usize, last: TransferFailure },
    /// When `last` happened to chunk `part`, `parallel_failures` chunks were
    /// already waiting to retry.
    FailureConcurrencyExceeded { part: usize, parallel_failures: usize, last: TransferFailure },
    /// The task working on chunk `part` ended abnormally.
    TaskFailure { part: usize, message: String },
    /// The offset `part * chunk_size` does not fit in 64 bits.
    OffsetOverflow { part: usize, chunk_size: u64 },
}

impl UploadError {
    /// The kind this error falls under.
    pub open spec fn spec_kind(self) -> FailureKind {
        match self {
            UploadError::Transfer { failure, .. } => failure.spec_kind(),
            UploadError::RetriesExhausted { .. } => FailureKind::RetriesExhausted,
            UploadError::FailureConcurrencyExceeded { .. } => FailureKind::FailureConcurrencyExceeded,
            UploadError::TaskFailure { .. } => FailureKind::TaskFailure,
            UploadError::OffsetOverflow { .. } => FailureKind::IoFailure,
        }
    }

    /// The part the error arose on.
    pub open spec fn spec_part(self) -> usize {
        match self {
            UploadError::Transfer { part, .. } => part,
            UploadError::RetriesExhausted { part, .. } => part,
            UploadError::FailureConcurrencyExceeded { part, .. } => part,
            UploadError::TaskFailure { part, .. } => part,
            UploadError::OffsetOverflow { part, .. } => part,
        }
    }

    pub fn kind(&self) -> (kind: FailureKind)
        ensures
            kind == self.spec_kind(),
    {
        match self {
            UploadError::Transfer { failure, .. } => failure.kind(),
            UploadError::RetriesExhausted { .. } => FailureKind::RetriesExhausted,
            UploadError::FailureConcurrencyExceeded { .. } => FailureKind::FailureConcurrencyExceeded,
            UploadError::TaskFailure { .. } => FailureKind::TaskFailure,
            UploadError::OffsetOverflow { .. } => FailureKind::IoFailure,
        }
    }

    pub fn part(&self) -> (part: usize)
        ensures
            part == self.spec_part(),
    {
        match self {
            UploadError::Transfer { part, .. } => *part,
            UploadError::RetriesExhausted { part, .. } => *part,
            UploadError::FailureConcurrencyExceeded { part, .. } => *part,
            UploadError::TaskFailure { part, .. } => *part,
            UploadError::OffsetOverflow { part, .. } => *part,
        }
    }
}

} // verus!
