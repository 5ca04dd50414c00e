//! Text recognition with the external `tesseract` command: its arguments,
//! the waiting for it, how its output becomes the entry's OCR text, and the
//! checks made before OCR runs on an entry.
use vstd::prelude::*;

use crate::classify::{lossy_text, utf8_lossy};
use crate::format::u128_decimal;
use crate::models::{ClipboardEntry, EntryData};
use crate::text::{chars_of, i64_decimal, decimal_text, push_all, signed_decimal_text, string_of, trim, trim_chars};

verus! {

/// The arguments tesseract is run with: the image, output to standard
/// output, and the language.
pub fn tesseract_args(image_path: &str, language: &str) -> (r: Vec<String>)
    ensures
        r@.len() == 4,
        r@[0]@ == image_path@,
        r@[1]@ == "stdout"@,
        r@[2]@ == "-l"@,
        r@[3]@ == language@,
{
    vec![
        string_of(&chars_of(image_path)),
        string_of(&chars_of("stdout")),
        string_of(&chars_of("-l")),
        string_of(&chars_of(language)),
    ]
}

/// Why OCR did not produce text.
#[derive(Clone, Debug, PartialEq, Eq)]
pub enum OcrError {
    /// OCR is switched off in the configuration.
    Disabled,
    /// No entry has this id.
    NotFound { id: i64 },
    /// The entry is not an image.
    NotImage,
    /// The command exited unsuccessfully; its trimmed error output.
    Failed { command: String, stderr: String },
    /// The command ran past its timeout and was stopped.
    TimedOut { command: String, timeout_seconds: u64 },
}

/// The content of an `OcrError`.
pub enum OcrErrorModel {
    Disabled,
    NotFound(int),
    NotImage,
    Failed(Seq<char>, Seq<char>),
    TimedOut(Seq<char>, nat),
}

impl View for OcrError {
    type V = OcrErrorModel;

    open spec fn view(&self) -> OcrErrorModel {
        match self {
            OcrError::Disabled => OcrErrorModel::Disabled,
            OcrError::NotFound { id } => OcrErrorModel::NotFound(*id as int),
            OcrError::NotImage => OcrErrorModel::NotImage,
            OcrError::Failed { command, stderr } => OcrErrorModel::Failed(command@, stderr@),
            OcrError::TimedOut { command, timeout_seconds } => OcrErrorModel::TimedOut(
                command@,
                *timeout_seconds as nat,
            ),
        }
    }
}

/// The message an OCR error is reported with.
pub open spec fn ocr_error_message(e: OcrErrorModel) -> Seq<char> {
    match e {
        OcrErrorModel::Disabled => "OCR is disabled in config"@,
        OcrErrorModel::NotFound(id) => "entry "@ + signed_decimal_text(id) + " not found"@,
        OcrErrorModel::NotImage => "entry is not an image"@,
        OcrErrorModel::Failed(command, stderr) => command + " failed: "@ + stderr,
        OcrErrorModel::TimedOut(command, seconds) => command + " timed out after "@
            + decimal_text(seconds) + "s"@,
    }
}

impl OcrError {
    /// The message this error is reported with.
    pub fn message(&self) -> (r: String)
        ensures
            r@ == ocr_error_message(self@),
    {
        match self {
            OcrError::Disabled => string_of(&chars_of("OCR is disabled in config")),
            OcrError::NotFound { id } => {
                let mut v = chars_of("entry ");
                push_all(&mut v, &i64_decimal(*id));
                push_all(&mut v, &chars_of(" not found"));
                string_of(&v)
            },
            OcrError::NotImage => string_of(&chars_of("entry is not an image")),
            OcrError::Failed { command, stderr } => {
                let mut v = chars_of(command.as_str());
                push_all(&mut v, &chars_of(" failed: "));
                push_all(&mut v, &chars_of(stderr.as_str()));
                string_of(&v)
            },
            OcrError::TimedOut { command, timeout_seconds } => {
                let mut v = chars_of(command.as_str());
                push_all(&mut v, &chars_of(" timed out after "));
                push_all(&mut v, &u128_decimal(*timeout_seconds as u128));
                push_all(&mut v, &chars_of("s"));
                string_of(&v)
            },
        }
    }
}

/// What a finished tesseract run yields: its standard output, decoded
/// (invalid UTF-8 replaced) and trimmed, when it succeeded; otherwise an
/// error with its standard error, decoded and trimmed.
pub fn tesseract_result(command: &str, success: bool, stdout: &[u8], stderr: &[u8]) -> (r: Result<
    String,
    OcrError,
>)
    ensures
        success ==> (r matches Ok(text) && text@ == trim(lossy_text(stdout@))),
        !success ==> (r matches Err(e) && e@ == OcrErrorModel::Failed(
            command@,
            trim(lossy_text(stderr@)),
        )),
{
    if success {
        let text = utf8_lossy(stdout);
        Ok(string_of(&trim_chars(&chars_of(text.as_str()))))
    } else {
        let text = utf8_lossy(stderr);
        Err(
            OcrError::Failed {
                command: string_of(&chars_of(command)),
                stderr: string_of(&trim_chars(&chars_of(text.as_str()))),
            },
        )
    }
}

/// What to do while waiting for tesseract under a timeout.
#[derive(Clone, Copy, Debug, PartialEq, Eq, Structural)]
pub enum WaitStep {
    /// The process has exited: collect its output.
    Finished,
    /// The deadline has passed: stop the process and report a timeout.
    TimedOut,
    /// Sleep briefly and check again.
    Wait,
}

/// Whether tesseract runs under a timeout, polled with `wait_step`: only a
/// positive number of seconds sets one; with none, its output is awaited.
pub fn waits_with_timeout(timeout_seconds: u64) -> (r: bool)
    ensures
        r == (timeout_seconds > 0),
{
    timeout_seconds > 0
}

/// After `elapsed_ms` milliseconds: finished once the process exited,
/// timed out once `timeout_seconds` have passed, and waiting otherwise.
pub fn wait_step(exited: bool, elapsed_ms: u128, timeout_seconds: u64) -> (r: WaitStep)
    ensures
        r == (if exited {
            WaitStep::Finished
        } else if elapsed_ms >= timeout_seconds * 1000 {
            WaitStep::TimedOut
        } else {
            WaitStep::Wait
        }),
{
    if exited {
        WaitStep::Finished
    } else if elapsed_ms >= (timeout_seconds as u128) * 1000 {
        WaitStep::TimedOut
    } else {
        WaitStep::Wait
    }
}

/// The image to run OCR on for the entry with this id: OCR must be on, the
/// entry must exist, and it must be an image.
pub fn ocr_image_path(enabled: bool, entry_id: i64, entry: Option<&ClipboardEntry>) -> (r: Result<
    String,
    OcrError,
>)
    ensures
        !enabled ==> (r matches Err(e) && e@ == OcrErrorModel::Disabled),
        enabled && entry is None ==> (r matches Err(e) && e@ == OcrErrorModel::NotFound(
            entry_id as int,
        )),
        enabled && entry is Some ==> match entry->0.data {
            EntryData::Image { file_path, .. } => (r matches Ok(p) && p@ == file_path@),
            _ => (r matches Err(e) && e@ == OcrErrorModel::NotImage),
        },
{
    if !enabled {
        return Err(OcrError::Disabled);
    }
    match entry {
        None => Err(OcrError::NotFound { id: entry_id }),
        Some(e) => match &e.data {
            EntryData::Image { file_path, .. } => Ok(string_of(&chars_of(file_path.as_str()))),
            _ => Err(OcrError::NotImage),
        },
    }
}

} // verus!
