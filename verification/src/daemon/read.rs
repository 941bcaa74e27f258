//! The request to read a file of a corpus.

use vstd::prelude::*;
use vstd::utf8::{encode_utf8, valid_utf8};

use crate::daemon::ipc::{failed, refused, DaemonResponse, ReadMarkdownResult};
use crate::daemon::wiki::{is_access_error, map_read_error, WikiTarget, WriteError};
use crate::text::{cat2, cat3};

verus! {

/// What is wrong with bytes that are not UTF-8, in words.
pub uninterp spec fn utf8_fault(bytes: Seq<u8>) -> Seq<char>;

/// `String::from_utf8` of std: the text that the bytes encode, where they are
/// UTF-8, and otherwise what is wrong with them.  The contract names the words
/// of the error without saying what they are; they depend on the bytes alone.
#[verifier::external_body]
pub(crate) fn text_of_bytes(bytes: Vec<u8>) -> (out: Result<String, String>)
    ensures
        out is Ok <==> valid_utf8(bytes@),
        out matches Ok(text) ==> encode_utf8(text@) == bytes@,
        out matches Err(fault) ==> fault@ == utf8_fault(bytes@),
{
    String::from_utf8(bytes).map_err(|e| e.to_string())
}

/// Why a file was not read.
#[derive(Debug)]
pub enum ReadFailure {
    /// It could not be.
    Refused(WriteError),
    /// The task that read it broke down.
    Panicked(String),
}

/// Whether the answer is the one to a request to read, where reading the file
/// gave `read`.
pub open spec fn reads_as(
    file: WikiTarget,
    read: Result<Vec<u8>, ReadFailure>,
    out: Result<ReadMarkdownResult, DaemonResponse>,
) -> bool {
    match read {
        Err(ReadFailure::Refused(error)) => out matches Err(response) && is_access_error(
            response,
            error,
            file.relative@,
            "read"@,
            "read"@,
        ),
        Err(ReadFailure::Panicked(detail)) => failed(out, "read task panicked: "@ + detail@),
        Ok(bytes) => if valid_utf8(bytes@) {
            out matches Ok(result) && result.corpus@ == file.corpus@.name && result.path@
                == file.relative@ && result.absolute_path@ == file.dest() && encode_utf8(
                result.content@,
            ) == bytes@ && result.bytes == bytes@.len()
        } else {
            refused(out, file.relative@ + " is not valid UTF-8: "@ + utf8_fault(bytes@))
        },
    }
}

/// The answer to a request to read, from what reading the file gave.  The
/// content is what the file holds, byte for byte; a file that is not UTF-8 is
/// refused.
pub fn read_result(file: &WikiTarget, read: Result<Vec<u8>, ReadFailure>) -> (out: Result<
    ReadMarkdownResult,
    DaemonResponse,
>)
    ensures
        reads_as(*file, read, out),
{
    let bytes = match read {
        Ok(bytes) => bytes,
        Err(ReadFailure::Refused(error)) => {
            return Err(map_read_error(&error, file.relative.as_str()));
        },
        Err(ReadFailure::Panicked(detail)) => {
            return Err(
                DaemonResponse::internal(cat2("read task panicked: ", detail.as_str()).as_str()),
            );
        },
    };
    let size: u64 = bytes.len() as u64;
    let decoded = text_of_bytes(bytes);
    read_answer(file, size, decoded)
}

/// The answer to a request to read a file of `bytes` bytes, from what decoding
/// them gave.
pub fn read_answer(file: &WikiTarget, bytes: u64, decoded: Result<String, String>) -> (out: Result<
    ReadMarkdownResult,
    DaemonResponse,
>)
    ensures
        match decoded {
            Ok(text) => out matches Ok(result) && result.corpus@ == file.corpus@.name
                && result.path@ == file.relative@ && result.absolute_path@ == file.dest()
                && result.content == text && result.bytes == bytes,
            Err(fault) => refused(out, file.relative@ + " is not valid UTF-8: "@ + fault@),
        },
{
    match decoded {
        Ok(content) => Ok(
            ReadMarkdownResult {
                corpus: file.corpus.name.clone(),
                path: file.relative.clone(),
                absolute_path: file.path(),
                content,
                bytes,
            },
        ),
        Err(fault) => Err(
            DaemonResponse::invalid_params(
                cat3(file.relative.as_str(), " is not valid UTF-8: ", fault.as_str()).as_str(),
            ),
        ),
    }
}

/// What is read back of a file into which a text was written is the text,
/// verbatim.
pub proof fn reading_returns_what_was_written(
    written: Seq<char>,
    file: WikiTarget,
    bytes: Vec<u8>,
    out: Result<ReadMarkdownResult, DaemonResponse>,
)
    requires
        bytes@ == encode_utf8(written),
        reads_as(file, Ok(bytes), out),
    ensures
        out matches Ok(result) && result.content@ == written && result.bytes
            == encode_utf8(written).len(),
{
    vstd::utf8::encode_utf8_valid_utf8(written);
    vstd::utf8::encode_utf8_decode_utf8(written);
    vstd::utf8::encode_utf8_decode_utf8(out->Ok_0.content@);
}

/// What is read is what the file holds, byte for byte, under the name of its
/// corpus and the path that was asked for; bytes that are no text are refused.
pub proof fn files_are_read_as_they_are(
    file: WikiTarget,
    bytes: Vec<u8>,
    out: Result<ReadMarkdownResult, DaemonResponse>,
)
    requires
        reads_as(file, Ok(bytes), out),
    ensures
        out is Ok <==> valid_utf8(bytes@),
        out matches Ok(result) ==> {
            &&& encode_utf8(result.content@) == bytes@
            &&& result.bytes == bytes@.len()
            &&& result.path@ == file.relative@
            &&& result.corpus@ == file.corpus@.name
            &&& result.absolute_path@ == crate::path::joined(file.root@, file.relative@)
        },
{
}

/// A file that is a link is not read, and one that is not there is said not to
/// exist; a reading that breaks down is a failure.
pub proof fn files_that_cannot_be_read_say_why(
    file: WikiTarget,
    error: WriteError,
    detail: String,
    out: Result<ReadMarkdownResult, DaemonResponse>,
    broken: Result<ReadMarkdownResult, DaemonResponse>,
)
    requires
        reads_as(file, Err(ReadFailure::Refused(error)), out),
        reads_as(file, Err(ReadFailure::Panicked(detail)), broken),
    ensures
        error.kind is Symlink ==> refused(
            out,
            "refusing to read symlink "@ + file.relative@ + ": "@ + error.detail@,
        ),
        error.kind is Io && error.not_found ==> refused(out, file.relative@ + " does not exist"@),
        error.kind is Io && !error.not_found ==> failed(
            out,
            "read "@ + file.relative@ + ": "@ + error.detail@,
        ),
        failed(broken, "read task panicked: "@ + detail@),
{
    reveal_strlit("refusing to ");
    reveal_strlit("read");
    reveal_strlit(" symlink ");
    reveal_strlit("refusing to read symlink ");
    reveal_strlit("read ");
    reveal_strlit(" ");
    assert("refusing to read symlink "@ =~= "refusing to "@ + "read"@ + " symlink "@);
    assert("read "@ =~= "read"@ + " "@);
}

} // verus!
