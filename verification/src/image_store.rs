//! Where screenshots are kept: one directory per day under a root, one file
//! per capture, named by the time of day.

use crate::command::{decode_lossy, lossy_text, CommandOutcome};
use crate::error::ImageStoreError;
use crate::path::{join, joined};
use crate::timestamp::{date_text, image_file_text, Moment, Timestamp};
use vstd::prelude::*;
use vstd::string::*;

verus! {

/// The path of the image taken at `moment` under the root `images_dir`:
/// `images_dir/YYYY-MM-DD/HHMMSS.jpg`.
pub open spec fn image_path(images_dir: Seq<char>, moment: Moment) -> Seq<char> {
    joined(joined(images_dir, date_text(moment)), image_file_text(moment))
}

/// The arguments of the screenshot command for the file at `path`: without
/// sound, as JPEG.
pub open spec fn capture_arguments(path: Seq<char>) -> Seq<Seq<char>> {
    seq!["-x"@, "-t"@, "jpg"@, path]
}

/// Whether `result` is what a capture at `moment` under `images_dir` makes
/// of the outcome of the screenshot command: the path of the image where
/// the command succeeded, a failure with its complaint where it did not.
pub open spec fn is_capture(
    images_dir: Seq<char>,
    moment: Moment,
    outcome: CommandOutcome,
    result: Result<String, ImageStoreError>,
) -> bool {
    match outcome {
        CommandOutcome::NotRun(why) => result matches Err(ImageStoreError::CommandFailed(text))
            && text@ == why@,
        CommandOutcome::Ended { success, stdout, stderr } => if success {
            result matches Ok(path) && path@ == image_path(images_dir, moment)
        } else {
            result matches Err(ImageStoreError::CaptureCommandFailed(text)) && text@
                == "screencapture failed: "@ + lossy_text(stderr@)
        },
    }
}

/// The store of screenshots under one root directory.
#[derive(Debug)]
pub struct ImageStore {
    images_dir: String,
    jpeg_quality: u8,
}

impl ImageStore {
    /// The root directory.
    pub closed spec fn root(&self) -> Seq<char> {
        self.images_dir@
    }

    /// The JPEG quality asked for.
    pub closed spec fn quality(&self) -> u8 {
        self.jpeg_quality
    }

    /// The store under `images_dir`.
    pub fn new(images_dir: String, jpeg_quality: u8) -> (store: ImageStore)
        ensures
            store.root() == images_dir@,
            store.quality() == jpeg_quality,
    {
        ImageStore { images_dir, jpeg_quality }
    }

    /// The root directory.
    pub fn images_dir(&self) -> (dir: &str)
        ensures
            dir@ == self.root(),
    {
        self.images_dir.as_str()
    }

    /// The JPEG quality asked for.
    pub fn jpeg_quality(&self) -> (quality: u8)
        ensures
            quality == self.quality(),
    {
        self.jpeg_quality
    }

    /// The path of the image taken at `timestamp`.
    pub fn get_path(&self, timestamp: &Timestamp) -> (path: String)
        ensures
            path@ == image_path(self.root(), timestamp@),
    {
        let day = join(self.images_dir.as_str(), timestamp.date().as_str());
        join(day.as_str(), timestamp.image_file_name().as_str())
    }

    /// The arguments with which the screenshot command writes to `path`.
    pub fn capture_command(&self, path: &str) -> (arguments: Vec<String>)
        ensures
            arguments@.map_values(|a: String| a@) == capture_arguments(path@),
    {
        let mut arguments: Vec<String> = Vec::new();
        arguments.push(String::from_str("-x"));
        arguments.push(String::from_str("-t"));
        arguments.push(String::from_str("jpg"));
        arguments.push(String::from_str(path));
        assert(arguments@.map_values(|a: String| a@) =~= capture_arguments(path@));
        arguments
    }

    /// The screenshot taken at `timestamp`, from the outcome of the
    /// screenshot command that was to write it.
    pub fn capture(&self, timestamp: &Timestamp, outcome: &CommandOutcome) -> (result: Result<
        String,
        ImageStoreError,
    >)
        ensures
            is_capture(self.root(), timestamp@, *outcome, result),
    {
        match outcome {
            CommandOutcome::NotRun(why) => Err(ImageStoreError::CommandFailed(why.clone())),
            CommandOutcome::Ended { success, stdout, stderr } => {
                if !*success {
                    let mut text = String::from_str("screencapture failed: ");
                    text.append(decode_lossy(stderr).as_str());
                    return Err(ImageStoreError::CaptureCommandFailed(text));
                }
                Ok(self.get_path(timestamp))
            },
        }
    }
}

} // verus!
