//! What one transfer attempt decides between its I/O steps: how many bytes
//! to send, whether the status is a success, and what the response headers
//! hold.

use crate::failure::TransferFailure;
use crate::headers::{header_value_text, is_header_text, text_of, Headers, RawHeader};
use vstd::prelude::*;

verus! {

/// The number of bytes a chunk carries: what is left of the file from
/// `start` on, but at most `chunk_size`.
pub open spec fn transfer_len(file_size: nat, start: nat, chunk_size: nat) -> nat {
    if start > file_size {
        0
    } else if file_size - start <= chunk_size {
        (file_size - start) as nat
    } else {
        chunk_size
    }
}

/// The length of the chunk that starts at `start`, which is the request's
/// `Content-Length`. A start beyond the end of the file is a failure.
pub fn bytes_to_transfer(file_size: u64, start: u64, chunk_size: u64) -> (length: Result<
    u64,
    TransferFailure,
>)
    ensures
        length.is_ok() == (start <= file_size),
        length matches Ok(n) ==> n == transfer_len(file_size as nat, start as nat, chunk_size as nat),
        length matches Err(failure) ==> failure == (TransferFailure::StartBeyondEnd {
            start,
            file_size,
        }),
{
    if start > file_size {
        Err(TransferFailure::StartBeyondEnd { start, file_size })
    } else {
        let rest: u64 = file_size - start;
        if rest <= chunk_size {
            Ok(rest)
        } else {
            Ok(chunk_size)
        }
    }
}

/// A status counts as success exactly when it lies in 200..=299.
pub open spec fn is_success_status(status: u16) -> bool {
    200 <= status && status <= 299
}

pub fn status_is_success(status: u16) -> (yes: bool)
    ensures
        yes == is_success_status(status),
{
    200 <= status && status <= 299
}

/// The map that a list of decodable raw headers yields: each name with its
/// value as text, a later header replacing an earlier one of the same name.
pub open spec fn captured(raw: Seq<RawHeader>) -> Map<Seq<char>, Seq<char>>
    decreases raw.len(),
{
    if raw.len() == 0 {
        Map::empty()
    } else {
        captured(raw.drop_last()).insert(raw.last().name@, text_of(raw.last().value@))
    }
}

/// Whether the header at `index` is the first whose value is not text.
pub open spec fn first_undecodable(raw: Seq<RawHeader>, index: int) -> bool {
    &&& 0 <= index < raw.len()
    &&& !is_header_text(raw[index].value@)
    &&& forall|j: int| 0 <= j < index ==> is_header_text(#[trigger] raw[j].value@)
}

/// Whether every header value is text.
pub open spec fn all_decodable(raw: Seq<RawHeader>) -> bool {
    forall|j: int| 0 <= j < raw.len() ==> is_header_text(#[trigger] raw[j].value@)
}

/// Captures the headers of a response. Fails on the first value that is not
/// text, naming that header.
pub fn capture_headers(raw: &[RawHeader]) -> (outcome: Result<Headers, TransferFailure>)
    ensures
        outcome.is_ok() == all_decodable(raw@),
        outcome matches Ok(headers) ==> headers@ == captured(raw@),
        outcome matches Err(failure) ==> exists|index: int|
            first_undecodable(raw@, index) && failure == (TransferFailure::HeaderDecode {
                name: raw@[index].name,
            }),
{
    let mut headers = Headers::new();
    let mut at: usize = 0;
    while at < raw.len()
        invariant
            at <= raw.len(),
            headers@ == captured(raw@.take(at as int)),
            forall|j: int| 0 <= j < at ==> is_header_text(#[trigger] raw@[j].value@),
        decreases raw.len() - at,
    {
        let name: String = raw[at].name.clone();
        match header_value_text(raw[at].value.as_slice()) {
            Some(text) => {
                proof {
                    let upto = raw@.take(at as int + 1);
                    assert(upto.drop_last() == raw@.take(at as int));
                    assert(upto.last() == raw@[at as int]);
                }
                headers.insert(name, text);
            },
            None => {
                proof {
                    assert(first_undecodable(raw@, at as int));
                }
                return Err(TransferFailure::HeaderDecode { name });
            },
        }
        at += 1;
    }
    proof {
        assert(raw@.take(raw@.len() as int) == raw@);
    }
    Ok(headers)
}

/// The outcome that a response stands for, given its status and its raw
/// headers.
pub open spec fn spec_response_outcome(status: u16, raw: Seq<RawHeader>, outcome: Result<
    Headers,
    TransferFailure,
>) -> bool {
    if !is_success_status(status) {
        outcome == Err::<Headers, TransferFailure>(TransferFailure::ServerStatus { status })
    } else if all_decodable(raw) {
        outcome matches Ok(headers) && headers@ == captured(raw)
    } else {
        outcome matches Err(failure) && exists|index: int|
            first_undecodable(raw, index) && failure == (TransferFailure::HeaderDecode {
                name: raw[index].name,
            })
    }
}

/// Turns a response into the outcome of the attempt: a status outside
/// 200..=299 is a failure whatever the headers hold, and a header value that
/// is not text is a failure even though the status was a success.
pub fn response_outcome(status: u16, raw: &[RawHeader]) -> (outcome: Result<
    Headers,
    TransferFailure,
>)
    ensures
        spec_response_outcome(status, raw@, outcome),
{
    if !status_is_success(status) {
        Err(TransferFailure::ServerStatus { status })
    } else {
        capture_headers(raw)
    }
}

} // verus!
