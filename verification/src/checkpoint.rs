//! What a checkpoint load deals in: the progress of the download, the anchor
//! it ends in, its errors, and the rules for taking a response, counting the
//! body and choosing the anchor.

use crate::text::{decimal, digit_char, push_decimal};
use vstd::prelude::*;
use vstd::string::StringExecFns;

verus! {

/// How far a download has come.
#[derive(Debug, Clone, Copy, PartialEq, Eq, Structural)]
pub struct CheckpointProgress {
    /// The bytes received and written so far.
    pub downloaded: u64,
    /// The length that the server declared.
    pub total: u64,
}

/// A block of the chain: its hash and its height.
#[derive(Debug, Clone, Copy, PartialEq, Eq)]
pub struct ChainAnchor {
    pub hash: [u8; 32],
    pub height: u32,
}

/// A root anchor of a snapshot: the root of the state and the block at which
/// it was taken.
#[derive(Debug, Clone, Copy, PartialEq, Eq)]
pub struct RootAnchor {
    pub spaces_root: [u8; 32],
    pub block: ChainAnchor,
}

/// Why a checkpoint could not be loaded.
#[derive(Debug, PartialEq, Eq)]
pub enum LoadError {
    /// The data directory could not be created.
    DataDir(String),
    /// The request could not be sent.
    Request(String),
    /// The server answered with a status that is no success.
    Status(u16),
    /// The server did not declare the length of the snapshot.
    MissingLength,
    /// The snapshot file could not be created.
    CreateFile(String),
    /// A part of the body could not be read.
    ReadChunk(String),
    /// A part of the body could not be written.
    WriteChunk(String),
    /// The file could not be flushed.
    Flush(String),
    /// The snapshot could not be opened, or its anchors not be read.
    Store(String),
    /// The snapshot holds no anchor.
    NoAnchors,
}

/// The name of the snapshot file in the data directory.
pub fn snapshot_file_name() -> (name: &'static str)
    ensures
        name@ == "protocol.sdb"@,
{
    "protocol.sdb"
}

/// The name of the file that the extraction of the anchors works in, in the
/// directory for temporary files.
pub fn anchors_file_name() -> (name: &'static str)
    ensures
        name@ == "anchors"@,
{
    "anchors"
}

impl LoadError {
    /// What the error says to a reader.
    pub open spec fn message(self) -> Seq<char> {
        match self {
            LoadError::DataDir(cause) => cause@,
            LoadError::Request(_) => "Failed to send HTTP request"@,
            LoadError::Status(code) => "HTTP request failed with status: "@ + decimal(code as nat),
            LoadError::MissingLength => "Failed to get content length, does the path exist?"@,
            LoadError::CreateFile(_) => "Could not create spaces db file for checkpoint"@,
            LoadError::ReadChunk(_) => "Failed to read chunk"@,
            LoadError::WriteChunk(_) => "Failed to write chunk to file"@,
            LoadError::Flush(_) => "Failed to flush file"@,
            LoadError::Store(cause) => cause@,
            LoadError::NoAnchors => "No Anchors found"@,
        }
    }

    /// The error in words.
    pub fn describe(&self) -> (text: String)
        ensures
            text@ == self.message(),
    {
        match self {
            LoadError::DataDir(cause) => cause.clone(),
            LoadError::Request(_) => "Failed to send HTTP request".to_string(),
            LoadError::Status(code) => {
                let mut text = "HTTP request failed with status: ".to_string();
                push_decimal(&mut text, *code as u64);
                text
            },
            LoadError::MissingLength => "Failed to get content length, does the path exist?".to_string(),
            LoadError::CreateFile(_) => "Could not create spaces db file for checkpoint".to_string(),
            LoadError::ReadChunk(_) => "Failed to read chunk".to_string(),
            LoadError::WriteChunk(_) => "Failed to write chunk to file".to_string(),
            LoadError::Flush(_) => "Failed to flush file".to_string(),
            LoadError::Store(cause) => cause.clone(),
            LoadError::NoAnchors => "No Anchors found".to_string(),
        }
    }
}

/// Whether a status code reports success.
pub open spec fn is_success(status: u16) -> bool {
    200 <= status < 300
}

/// What a response leads to: a download that has received nothing yet, where
/// the status is a success and the length is declared; else the error, the
/// status first.
pub open spec fn accepted(status: u16, content_length: Option<u64>) -> Result<
    CheckpointProgress,
    LoadError,
> {
    if !is_success(status) {
        Err(LoadError::Status(status))
    } else {
        match content_length {
            None => Err(LoadError::MissingLength),
            Some(total) => Ok(CheckpointProgress { downloaded: 0, total }),
        }
    }
}

/// The progress after one more part of `len` bytes was received and written.
pub open spec fn advanced(progress: CheckpointProgress, len: nat) -> CheckpointProgress {
    CheckpointProgress { downloaded: (progress.downloaded + len) as u64, total: progress.total }
}

/// The anchor of a snapshot: the first of those that were extracted. A
/// snapshot without anchors is an error of its own.
pub open spec fn chosen(anchors: Seq<RootAnchor>) -> Result<RootAnchor, LoadError> {
    if anchors.len() == 0 {
        Err(LoadError::NoAnchors)
    } else {
        Ok(anchors[0])
    }
}

/// The character of one hexadecimal digit, letters in lower case.
pub open spec fn hex_digit(n: nat) -> char {
    if n < 10 {
        digit_char(n)
    } else {
        ((87 + n) as u8) as char
    }
}

/// Bytes in hexadecimal: two digits for each byte, the high one first.
pub open spec fn hex_text(bytes: Seq<u8>) -> Seq<char> {
    Seq::new(
        2 * bytes.len(),
        |i: int|
            hex_digit(
                if i % 2 == 0 {
                    (bytes[i / 2] / 16) as nat
                } else {
                    (bytes[i / 2] % 16) as nat
                },
            ),
    )
}

/// Trusted: `hex::encode` writes each byte of the data as two hexadecimal
/// digits, the high one first, with the letters `a` to `f` in lower case,
/// and nothing else.
#[verifier::external_body]
fn hex_encode(bytes: &[u8]) -> (text: String)
    ensures
        text@ == hex_text(bytes@),
{
    hex::encode(bytes)
}

/// The prune point of a light client that starts from this anchor: the hash
/// of the block in hexadecimal, a colon, and the block's height.
pub open spec fn prune_point_text(anchor: RootAnchor) -> Seq<char> {
    hex_text(anchor.block.hash@) + seq![':'] + decimal(anchor.block.height as nat)
}

/// The prune point to start a light client from.
pub fn prune_point(anchor: &RootAnchor) -> (text: String)
    ensures
        text@ == prune_point_text(*anchor),
{
    let mut text = hex_encode(anchor.block.hash.as_slice());
    text.push(':');
    push_decimal(&mut text, anchor.block.height as u64);
    text
}

} // verus!
