//! What is in the foreground: the application and the title of its window,
//! read from what the system's scripting command printed.

use crate::command::{decode_lossy, decode_strict, lossy_text, CommandOutcome};
use crate::error::MetadataError;
use crate::text::{trim, trimmed};
use vstd::prelude::*;
use vstd::string::*;
use vstd::utf8::{decode_utf8, valid_utf8};

verus! {

/// The script that asks for the name of the foreground application.
pub const ACTIVE_APP_SCRIPT: &'static str =
    "tell application \"System Events\" to get name of first process whose frontmost is true";

/// The script that asks for the title of the front window.
pub const WINDOW_TITLE_SCRIPT: &'static str =
    "tell application \"System Events\" to get name of front window of first process whose frontmost is true";

/// Whether `result` is what the application query makes of `outcome`: the
/// printed name without the white space around it; a failure where the
/// command did not run, did not succeed, or printed what is not UTF-8.
pub open spec fn is_active_app(outcome: CommandOutcome, result: Result<String, MetadataError>) -> bool {
    match outcome {
        CommandOutcome::NotRun(why) => result matches Err(MetadataError::CommandFailed(text))
            && text@ == why@,
        CommandOutcome::Ended { success, stdout, stderr } => if !success {
            result matches Err(MetadataError::CommandFailed(text)) && text@
                == "osascript failed: "@ + lossy_text(stderr@)
        } else if valid_utf8(stdout@) {
            result matches Ok(name) && name@ == trimmed(decode_utf8(stdout@))
        } else {
            result is Err && result->Err_0 is Utf8Error
        },
    }
}

/// Whether `result` is what the title query makes of `outcome`: the printed
/// title without the white space around it; an empty title where the
/// command did not succeed, as some applications show no title; a failure
/// where the command did not run or printed what is not UTF-8.
pub open spec fn is_window_title(outcome: CommandOutcome, result: Result<String, MetadataError>) -> bool {
    match outcome {
        CommandOutcome::NotRun(why) => result matches Err(MetadataError::CommandFailed(text))
            && text@ == why@,
        CommandOutcome::Ended { success, stdout, stderr } => if !success {
            result matches Ok(title) && title@.len() == 0
        } else if valid_utf8(stdout@) {
            result matches Ok(title) && title@ == trimmed(decode_utf8(stdout@))
        } else {
            result is Err && result->Err_0 is Utf8Error
        },
    }
}

/// The title that is recorded: the one found, or none where the query
/// failed.
pub open spec fn title_or_empty(outcome: CommandOutcome) -> Seq<char> {
    match outcome {
        CommandOutcome::Ended { success, stdout, stderr } => if success && valid_utf8(stdout@) {
            trimmed(decode_utf8(stdout@))
        } else {
            Seq::empty()
        },
        CommandOutcome::NotRun(_) => Seq::empty(),
    }
}

/// The queries for what is in the foreground.
pub struct Metadata;

impl Metadata {
    /// The name of the foreground application, from the outcome of
    /// [`ACTIVE_APP_SCRIPT`].
    pub fn get_active_app(outcome: &CommandOutcome) -> (result: Result<String, MetadataError>)
        ensures
            is_active_app(*outcome, result),
    {
        match outcome {
            CommandOutcome::NotRun(why) => Err(MetadataError::CommandFailed(why.clone())),
            CommandOutcome::Ended { success, stdout, stderr } => {
                if !*success {
                    let mut text = String::from_str("osascript failed: ");
                    text.append(decode_lossy(stderr).as_str());
                    return Err(MetadataError::CommandFailed(text));
                }
                match decode_strict(stdout) {
                    Ok(name) => Ok(trim(name.as_str())),
                    Err(e) => Err(MetadataError::Utf8Error(e)),
                }
            },
        }
    }

    /// The title of the front window, from the outcome of
    /// [`WINDOW_TITLE_SCRIPT`].
    pub fn try_get_window_title(outcome: &CommandOutcome) -> (result: Result<String, MetadataError>)
        ensures
            is_window_title(*outcome, result),
    {
        match outcome {
            CommandOutcome::NotRun(why) => Err(MetadataError::CommandFailed(why.clone())),
            CommandOutcome::Ended { success, stdout, stderr } => {
                if !*success {
                    return Ok(String::new());
                }
                match decode_strict(stdout) {
                    Ok(title) => Ok(trim(title.as_str())),
                    Err(e) => Err(MetadataError::Utf8Error(e)),
                }
            },
        }
    }

    /// The title of the front window, empty where it is not to be had.
    pub fn get_window_title(outcome: &CommandOutcome) -> (title: String)
        ensures
            title@ == title_or_empty(*outcome),
    {
        match Metadata::try_get_window_title(outcome) {
            Ok(title) => title,
            Err(_) => String::new(),
        }
    }
}

} // verus!
