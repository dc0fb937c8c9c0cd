use habit_tracker::command::CommandOutcome;
use habit_tracker::error::OcrError;
use habit_tracker::ocr::{
    read_output, recognition_script, recognize_text, SCRIPT_HEAD, SCRIPT_TAIL,
};

#[test]
fn test_recognize_text_missing_file() {
    let result = recognize_text("/nonexistent/image.jpg", None);
    assert!(result.is_err());
    assert!(matches!(result.unwrap_err(), OcrError::ImageNotFound(_)));
}

#[test]
fn missing_image_is_named() {
    match recognize_text("/nonexistent/image.jpg", None) {
        Err(OcrError::ImageNotFound(path)) => assert_eq!(path, "/nonexistent/image.jpg"),
        _ => panic!("Expected ImageNotFound"),
    }
}

#[test]
fn recognised_text_is_trimmed_and_may_be_empty() {
    let out = CommandOutcome::Ended {
        success: true,
        stdout: "  hello\nworld \n".as_bytes().to_vec(),
        stderr: vec![],
    };
    assert_eq!(recognize_text("/a.jpg", Some(&out)).unwrap(), "hello\nworld");
    let nothing = CommandOutcome::Ended { success: true, stdout: b"\n".to_vec(), stderr: vec![] };
    assert_eq!(recognize_text("/a.jpg", Some(&nothing)).unwrap(), "");
    let garbled = CommandOutcome::Ended { success: true, stdout: vec![b'a', 0xff, b'\n'], stderr: vec![] };
    assert_eq!(recognize_text("/a.jpg", Some(&garbled)).unwrap(), "a\u{fffd}");
}

#[test]
fn failures_are_told_from_empty_text() {
    let marked = CommandOutcome::Ended {
        success: true,
        stdout: "ERROR: Could not load image\n".as_bytes().to_vec(),
        stderr: vec![],
    };
    match recognize_text("/a.jpg", Some(&marked)) {
        Err(OcrError::ExecutionFailed(text)) => assert_eq!(text, "ERROR: Could not load image"),
        _ => panic!("Expected ExecutionFailed"),
    }
    let failed = CommandOutcome::Ended {
        success: false,
        stdout: vec![],
        stderr: "syntax error\n".as_bytes().to_vec(),
    };
    match recognize_text("/a.jpg", Some(&failed)) {
        Err(OcrError::ExecutionFailed(text)) => assert_eq!(text, "syntax error\n"),
        _ => panic!("Expected ExecutionFailed"),
    }
    let not_run = CommandOutcome::NotRun("not found".to_string());
    match recognize_text("/a.jpg", Some(&not_run)) {
        Err(OcrError::ExecutionFailed(text)) => assert_eq!(text, "not found"),
        _ => panic!("Expected ExecutionFailed"),
    }
    let lower = CommandOutcome::Ended { success: true, stdout: b"error: x".to_vec(), stderr: vec![] };
    assert_eq!(recognize_text("/a.jpg", Some(&lower)).unwrap(), "error: x");
}

#[test]
fn script_holds_the_path_with_its_quotes_escaped() {
    let script = recognition_script("/img/a \"b\".jpg");
    assert_eq!(script, format!("{}{}{}", SCRIPT_HEAD, "/img/a \\\"b\\\".jpg", SCRIPT_TAIL));
    assert!(script.contains("set imagePath to \"/img/a \\\"b\\\".jpg\"\n"));
    assert!(script.starts_with("\nuse framework \"Vision\"\n"));
    assert!(script.contains("textRequest's setRecognitionLanguages:{\"ja\", \"en\"}"));
    assert!(script.contains("set {theResult, theError} to requestHandler's performRequests:({textRequest}) |error|:(reference)"));
    assert!(script.ends_with("return recognizedTexts as text\n"));
    assert_eq!(recognition_script(""), format!("{}{}", SCRIPT_HEAD, SCRIPT_TAIL));
}

#[test]
fn output_is_read_as_text_or_as_a_marked_failure() {
    assert_eq!(read_output("hi").unwrap(), "hi");
    assert_eq!(read_output("  hi\n").unwrap(), "hi");
    assert_eq!(read_output("").unwrap(), "");
    assert_eq!(read_output(" \n").unwrap(), "");
    assert_eq!(read_output("ERROR").unwrap(), "ERROR");
    match read_output("\nERROR: no text \n") {
        Err(OcrError::ExecutionFailed(text)) => assert_eq!(text, "ERROR: no text"),
        _ => panic!("Expected ExecutionFailed"),
    }
    match read_output("ERROR:") {
        Err(OcrError::ExecutionFailed(text)) => assert_eq!(text, "ERROR:"),
        _ => panic!("Expected ExecutionFailed"),
    }
}
