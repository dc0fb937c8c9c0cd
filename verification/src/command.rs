//! What running an outside command came to, and how its output is read.

use vstd::prelude::*;
use vstd::string::*;
use vstd::utf8::{decode_utf8, valid_utf8};

verus! {

/// What running a command came to.
#[derive(Debug)]
pub enum CommandOutcome {
    /// The command could not be run; the text says why.
    NotRun(String),
    /// The command ran to its end.
    Ended { success: bool, stdout: Vec<u8>, stderr: Vec<u8> },
}

/// The text that lenient decoding makes of `bytes`: the text they encode
/// where they are UTF-8, and a text with replacement characters in place of
/// what is not where they are not.
pub uninterp spec fn lossy_text(bytes: Seq<u8>) -> Seq<char>;

/// Decodes with `String::from_utf8_lossy`. The contract names the outcome
/// and claims that bytes which are UTF-8 give the text they encode.
#[verifier::external_body]
pub(crate) fn decode_lossy(bytes: &Vec<u8>) -> (text: String)
    ensures
        text@ == lossy_text(bytes@),
        valid_utf8(bytes@) ==> text@ == decode_utf8(bytes@),
{
    String::from_utf8_lossy(bytes).into_owned()
}

/// Decodes with `String::from_utf8`. The contract claims that exactly the
/// bytes which are UTF-8 are accepted and give the text they encode; of the
/// description of a failure it claims nothing.
#[verifier::external_body]
pub(crate) fn decode_strict(bytes: &Vec<u8>) -> (text: Result<String, String>)
    ensures
        text is Ok <==> valid_utf8(bytes@),
        text matches Ok(t) ==> t@ == decode_utf8(bytes@),
{
    match String::from_utf8(bytes.clone()) {
        Ok(text) => Ok(text),
        Err(e) => Err(e.to_string()),
    }
}

} // verus!
