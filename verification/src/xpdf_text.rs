//! The pdftotext invocation outcome: raw extracted bytes, or a typed failure.
//!
//! A process that could not be spawned is a different condition from one that
//! ran but emitted nothing; the two are classified apart, and each carries
//! the available diagnostic text unmodified.

use vstd::prelude::*;

use crate::text::{lossy_decode, utf8_lossy};
use crate::{PdfError, PdfErrorKind, ProcessOutcome};

verus! {

/// The human-facing summary for a failed text extraction of this document.
pub open spec fn spec_text_error_message(pdf_file: Seq<char>) -> Seq<char> {
    "pdf_to_text parse error: "@ + pdf_file
}

fn text_error_message(pdf_file: &str) -> (r: String)
    ensures
        r@ == spec_text_error_message(pdf_file@),
{
    "pdf_to_text parse error: ".to_owned().concat(pdf_file)
}

/// Classify a completed pdftotext spawn attempt into the raw extracted
/// bytes or a typed failure. A spawn failure carries the spawn error's
/// description; a process that ran but produced empty standard output is the
/// distinct empty-output failure, carrying the decoded standard-error text;
/// any nonempty standard output is success, whatever the exit status.
pub fn pdf_to_binary(pdf_file: &str, outcome: &ProcessOutcome) -> (r: Result<Vec<u8>, PdfError>)
    ensures
        match outcome {
            ProcessOutcome::Spawned { stdout, stderr } => {
                if stdout@.len() == 0 {
                    r matches Err(e) && e.error_kind == PdfErrorKind::PdfToTextErrorNoOutput
                        && e.message@ == spec_text_error_message(pdf_file@) && e.process_message@
                        == lossy_decode(stderr@)
                } else {
                    r matches Ok(v) && v@ == stdout@
                }
            },
            ProcessOutcome::SpawnFailed { description } => r matches Err(e) && e.error_kind
                == PdfErrorKind::PdfToTextError && e.message@ == spec_text_error_message(pdf_file@)
                && e.process_message@ == description@,
        },
{
    match outcome {
        ProcessOutcome::Spawned { stdout, stderr } => {
            if stdout.len() == 0 {
                Err(
                    PdfError {
                        message: text_error_message(pdf_file),
                        process_message: utf8_lossy(stderr.as_slice()),
                        error_kind: PdfErrorKind::PdfToTextErrorNoOutput,
                    },
                )
            } else {
                let out = stdout.clone();
                proof {
                    assert(out@ =~= stdout@);
                }
                Ok(out)
            }
        },
        ProcessOutcome::SpawnFailed { description } => Err(
            PdfError {
                message: text_error_message(pdf_file),
                process_message: description.clone(),
                error_kind: PdfErrorKind::PdfToTextError,
            },
        ),
    }
}

/// The extracted text as a lossily decoded string; failures are exactly
/// those of `pdf_to_binary`. When the tool's output is valid UTF-8 the
/// decoding is lossless: the text's encoding is the output bytes themselves.
pub fn pdf_to_text(pdf_file: &str, outcome: &ProcessOutcome) -> (r: Result<String, PdfError>)
    ensures
        match outcome {
            ProcessOutcome::Spawned { stdout, stderr } => {
                if stdout@.len() == 0 {
                    r matches Err(e) && e.error_kind == PdfErrorKind::PdfToTextErrorNoOutput
                        && e.message@ == spec_text_error_message(pdf_file@) && e.process_message@
                        == lossy_decode(stderr@)
                } else {
                    r matches Ok(s) && s@ == lossy_decode(stdout@) && (vstd::utf8::valid_utf8(
                        stdout@,
                    ) ==> vstd::utf8::encode_utf8(s@) == stdout@)
                }
            },
            ProcessOutcome::SpawnFailed { description } => r matches Err(e) && e.error_kind
                == PdfErrorKind::PdfToTextError && e.message@ == spec_text_error_message(pdf_file@)
                && e.process_message@ == description@,
        },
{
    match pdf_to_binary(pdf_file, outcome) {
        Ok(output) => Ok(utf8_lossy(output.as_slice())),
        Err(e) => Err(e),
    }
}

} // verus!
