//! Text recognition on a stored image, through the system's scripting
//! command: the script that is run, and how its outcome is read.

use crate::command::{decode_lossy, lossy_text, CommandOutcome};
use crate::error::OcrError;
use crate::text::{starts_with, trim, trimmed};
use vstd::prelude::*;
use vstd::string::*;

verus! {

/// The script up to the path of the image.
pub const SCRIPT_HEAD: &'static str =
    "\nuse framework \"Vision\"\nuse framework \"AppKit\"\nuse scripting additions\n\nset imagePath to \"";

/// The script after the path of the image.
pub const SCRIPT_TAIL: &'static str =
    "\"\nset theImage to current application's NSImage's alloc()'s initWithContentsOfFile:imagePath\n\nif theImage is missing value then\n    return \"ERROR: Could not load image\"\nend if\n\nset requestHandler to current application's VNImageRequestHandler's alloc()'s initWithData:(theImage's TIFFRepresentation()) options:(current application's NSDictionary's dictionary())\n\nset textRequest to current application's VNRecognizeTextRequest's alloc()'s init()\ntextRequest's setRecognitionLevel:(current application's VNRequestTextRecognitionLevelAccurate)\ntextRequest's setRecognitionLanguages:{\"ja\", \"en\"}\ntextRequest's setUsesLanguageCorrection:true\n\nset {theResult, theError} to requestHandler's performRequests:({textRequest}) |error|:(reference)\n\nif theError is not missing value then\n    return \"ERROR: \" & (theError's localizedDescription() as text)\nend if\n\nset recognizedTexts to {}\nset observations to textRequest's results()\n\nrepeat with observation in observations\n    set topCandidate to (observation's topCandidates:1)'s firstObject()\n    if topCandidate is not missing value then\n        set end of recognizedTexts to (topCandidate's |string|() as text)\n    end if\nend repeat\n\nset AppleScript's text item delimiters to linefeed\nreturn recognizedTexts as text\n";

/// `path` with a backslash in front of every double quote, as it stands
/// inside the quotes of the script.
pub open spec fn quoted(path: Seq<char>) -> Seq<char>
    decreases path.len(),
{
    if path.len() == 0 {
        Seq::empty()
    } else if path.last() == '"' {
        quoted(path.drop_last()) + seq!['\\', '"']
    } else {
        quoted(path.drop_last()).push(path.last())
    }
}

/// The script that recognises the text of the image at `image_path`.
pub open spec fn script_text(image_path: Seq<char>) -> Seq<char> {
    SCRIPT_HEAD@ + quoted(image_path) + SCRIPT_TAIL@
}

/// What the script prints in front of a failure that it found itself.
pub open spec fn failure_mark() -> Seq<char> {
    "ERROR:"@
}

/// Whether `result` is what recognition reads from the text `output` that
/// its script printed: the output without the white space around it, as
/// the recognised text, or as a failure where it begins with the failure
/// mark.
pub open spec fn is_reading(output: Seq<char>, result: Result<String, OcrError>) -> bool {
    if failure_mark().is_prefix_of(trimmed(output)) {
        result matches Err(OcrError::ExecutionFailed(text)) && text@ == trimmed(output)
    } else {
        result matches Ok(text) && text@ == trimmed(output)
    }
}

/// Whether `result` is what recognition makes of the image at `image_path`
/// and of the outcome of its script, which is `None` where the image was
/// not found and the script not run. The text is the output without the
/// white space around it, and may be empty; output that begins with the
/// failure mark is a failure.
pub open spec fn is_recognition(
    image_path: Seq<char>,
    outcome: Option<CommandOutcome>,
    result: Result<String, OcrError>,
) -> bool {
    match outcome {
        None => result matches Err(OcrError::ImageNotFound(text)) && text@ == image_path,
        Some(CommandOutcome::NotRun(why)) => result matches Err(OcrError::ExecutionFailed(text))
            && text@ == why@,
        Some(CommandOutcome::Ended { success, stdout, stderr }) => if !success {
            result matches Err(OcrError::ExecutionFailed(text)) && text@ == lossy_text(stderr@)
        } else {
            is_reading(lossy_text(stdout@), result)
        },
    }
}

/// The script that recognises the text of the image at `image_path`.
pub fn recognition_script(image_path: &str) -> (script: String)
    ensures
        script@ == script_text(image_path@),
{
    let mut script = String::from_str(SCRIPT_HEAD);
    let n = image_path.unicode_len();
    let mut i: usize = 0;
    assert(image_path@.take(0) =~= Seq::<char>::empty());
    while i < n
        invariant
            i <= n,
            n == image_path@.len(),
            script@ == SCRIPT_HEAD@ + quoted(image_path@.take(i as int)),
        decreases n - i,
    {
        proof {
            reveal_strlit("\\\"");
            assert(image_path@.take(i + 1).drop_last() =~= image_path@.take(i as int));
            assert(image_path@.take(i + 1).last() == image_path@[i as int]);
            assert(image_path@.subrange(i as int, i + 1) =~= seq![image_path@[i as int]]);
        }
        if image_path.get_char(i) == '"' {
            script.append("\\\"");
            assert("\\\""@ =~= seq!['\\', '"']);
        } else {
            script.append(image_path.substring_char(i, i + 1));
        }
        assert(script@ =~= SCRIPT_HEAD@ + quoted(image_path@.take(i + 1)));
        i += 1;
    }
    assert(image_path@.take(n as int) =~= image_path@);
    script.append(SCRIPT_TAIL);
    script
}

/// The recognised text, read from what the script printed.
pub fn read_output(output: &str) -> (result: Result<String, OcrError>)
    ensures
        is_reading(output@, result),
{
    let text = trim(output);
    if starts_with(text.as_str(), "ERROR:") {
        Err(OcrError::ExecutionFailed(text))
    } else {
        Ok(text)
    }
}

/// The text of the image at `image_path`, from the outcome of its script;
/// `None` stands for an image that was not found, so that no script ran.
pub fn recognize_text(image_path: &str, outcome: Option<&CommandOutcome>) -> (result: Result<
    String,
    OcrError,
>)
    ensures
        is_recognition(
            image_path@,
            match outcome {
                Some(o) => Some(*o),
                None => None,
            },
            result,
        ),
{
    match outcome {
        None => Err(OcrError::ImageNotFound(String::from_str(image_path))),
        Some(CommandOutcome::NotRun(why)) => Err(OcrError::ExecutionFailed(why.clone())),
        Some(CommandOutcome::Ended { success, stdout, stderr }) => {
            if !*success {
                return Err(OcrError::ExecutionFailed(decode_lossy(stderr)));
            }
            read_output(decode_lossy(stdout).as_str())
        },
    }
}

} // verus!
