//! Processing orchestration: configuration checks, failure classification,
//! output naming and the per-file and batch bookkeeping. The caller performs
//! the file-system work and runs the processor; every decision is made here.
use vstd::prelude::*;
use vstd::string::*;
use crate::ffmpeg::{fault_text, FfmpegError, FfmpegFault};
use crate::paths::{
    joined, last_component, name_extension, name_stem, path_extension, path_file_stem, path_join,
    plain_name, simple_dir, simple_path,
};
use crate::text::{blank, is_blank};
use crate::types::{
    coordinate_error, coordinate_message, in_unit_range, BatchResult, FileResult, ProcessingStatus,
    ProgressPayload, WatermarkConfig, WatermarkType, UNIT,
};

verus! {

#[derive(Clone, Debug)]
pub enum ProcessingError {
    Message(String),
    Ffmpeg(FfmpegError),
    Io(String),
}

/// The content of a `ProcessingError`.
pub enum ProcessingFault {
    Message(Seq<char>),
    Ffmpeg(FfmpegFault),
    Io(Seq<char>),
}

impl View for ProcessingError {
    type V = ProcessingFault;

    open spec fn view(&self) -> ProcessingFault {
        match self {
            ProcessingError::Message(s) => ProcessingFault::Message(s@),
            ProcessingError::Ffmpeg(e) => ProcessingFault::Ffmpeg(e@),
            ProcessingError::Io(s) => ProcessingFault::Io(s@),
        }
    }
}

/// The human-readable text of a processing fault.
pub open spec fn processing_text(f: ProcessingFault) -> Seq<char> {
    match f {
        ProcessingFault::Message(s) => s,
        ProcessingFault::Ffmpeg(e) => fault_text(e),
        ProcessingFault::Io(s) => s,
    }
}

/// A fault that means no file of the run can be processed: the processor
/// is missing or cannot be started.
pub open spec fn catastrophic(f: ProcessingFault) -> bool {
    match f {
        ProcessingFault::Ffmpeg(FfmpegFault::MissingBinary(_)) => true,
        ProcessingFault::Ffmpeg(FfmpegFault::Spawn(_)) => true,
        _ => false,
    }
}

impl ProcessingError {
    pub fn is_catastrophic(&self) -> (r: bool)
        ensures
            r == catastrophic(self@),
    {
        match self {
            ProcessingError::Ffmpeg(FfmpegError::MissingBinary(_)) => true,
            ProcessingError::Ffmpeg(FfmpegError::Spawn(_)) => true,
            _ => false,
        }
    }

    /// The human-readable text of the error.
    pub fn message(&self) -> (r: String)
        ensures
            r@ == processing_text(self@),
    {
        match self {
            ProcessingError::Message(s) => s.clone(),
            ProcessingError::Ffmpeg(e) => e.message(),
            ProcessingError::Io(s) => s.clone(),
        }
    }
}

/// The watermark-kind requirement: text that is not blank, or an image
/// that is named and on disk.
pub open spec fn kind_check(config: WatermarkConfig, image_exists: bool) -> Result<(), Seq<char>> {
    match config.watermark_type {
        WatermarkType::Text => if is_blank(config.text@) {
            Err("Text watermark requires non-empty text"@)
        } else {
            Ok(())
        },
        WatermarkType::Image => match config.image_path {
            None => Err("Image watermark requires image_path"@),
            Some(p) => if !image_exists {
                Err("Watermark image not found at "@ + p@)
            } else {
                Ok(())
            },
        },
    }
}

/// The custom-position requirement, which applies in custom mode only.
pub open spec fn custom_check(config: WatermarkConfig) -> Result<(), Seq<char>> {
    if !config.custom_mode() {
        Ok(())
    } else {
        match config.custom_position {
            None => Err("Custom position mode requires customPosition field"@),
            Some(p) => if !in_unit_range(p.x) {
                Err(coordinate_error('x', p.x))
            } else if !in_unit_range(p.y) {
                Err(coordinate_error('y', p.y))
            } else {
                Ok(())
            },
        }
    }
}

/// Validation of a configuration: the kind requirement, then opacity at
/// most 100, then the custom position; the first failure is reported.
pub open spec fn config_check(config: WatermarkConfig, image_exists: bool) -> Result<(), Seq<char>> {
    if kind_check(config, image_exists) is Err {
        kind_check(config, image_exists)
    } else if config.opacity > 100 {
        Err("Opacity must be between 0 and 100"@)
    } else {
        custom_check(config)
    }
}

/// Checks a configuration once for a whole request. `image_exists` reports
/// whether the configured watermark image is on disk.
pub fn validate_config(config: &WatermarkConfig, image_exists: bool) -> (r: Result<
    (),
    ProcessingError,
>)
    ensures
        r is Ok <==> config_check(*config, image_exists) is Ok,
        r matches Err(e) ==> e is Message && config_check(*config, image_exists) == Err::<
            (),
            Seq<char>,
        >(e->Message_0@),
{
    match config.watermark_type {
        WatermarkType::Text => {
            if blank(config.text.as_str()) {
                return Err(
                    ProcessingError::Message(
                        String::from_str("Text watermark requires non-empty text"),
                    ),
                );
            }
        },
        WatermarkType::Image => {
            match &config.image_path {
                None => {
                    return Err(
                        ProcessingError::Message(
                            String::from_str("Image watermark requires image_path"),
                        ),
                    );
                },
                Some(p) => {
                    if !image_exists {
                        let mut m = String::from_str("Watermark image not found at ");
                        m.append(p.as_str());
                        return Err(ProcessingError::Message(m));
                    }
                },
            }
        },
    }
    if config.opacity > 100 {
        return Err(ProcessingError::Message(String::from_str("Opacity must be between 0 and 100")));
    }
    if config.is_custom_position() {
        match &config.custom_position {
            None => {
                return Err(
                    ProcessingError::Message(
                        String::from_str("Custom position mode requires customPosition field"),
                    ),
                );
            },
            Some(p) => {
                if p.x < 0 || p.x > UNIT {
                    return Err(ProcessingError::Message(coordinate_message('x', p.x)));
                }
                if p.y < 0 || p.y > UNIT {
                    return Err(ProcessingError::Message(coordinate_message('y', p.y)));
                }
            },
        }
    }
    Ok(())
}

/// Opacity above 100 always fails validation; at or below 100 opacity plays
/// no part in the outcome, which rests on the other two requirements.
pub proof fn lemma_opacity_rule(config: WatermarkConfig, image_exists: bool)
    ensures
        config.opacity > 100 ==> config_check(config, image_exists) is Err,
        config.opacity <= 100 ==> (config_check(config, image_exists) is Ok <==> (kind_check(
            config,
            image_exists,
        ) is Ok && custom_check(config) is Ok)),
{
}

/// In custom mode, once the earlier requirements hold, a coordinate outside
/// `[0, 1]` fails validation naming its axis and value (x first), and two
/// coordinates inside it pass.
pub proof fn lemma_custom_range_rule(config: WatermarkConfig, image_exists: bool)
    requires
        kind_check(config, image_exists) is Ok,
        config.opacity <= 100,
        config.custom_mode(),
        config.custom_position is Some,
    ensures
        ({
            let p = config.custom_position->0;
            &&& !in_unit_range(p.x) ==> config_check(config, image_exists) == Err::<(), Seq<char>>(
                coordinate_error('x', p.x),
            )
            &&& in_unit_range(p.x) && !in_unit_range(p.y) ==> config_check(config, image_exists)
                == Err::<(), Seq<char>>(coordinate_error('y', p.y))
            &&& in_unit_range(p.x) && in_unit_range(p.y) ==> config_check(config, image_exists) is Ok
        }),
{
}

/// The output file name `{stem}_watermarked.{extension}`, with `watermarked`
/// and `out` standing in for a missing stem or extension.
pub open spec fn output_name(stem: Option<Seq<char>>, extension: Option<Seq<char>>) -> Seq<char> {
    let s = match stem {
        Some(s) => s,
        None => "watermarked"@,
    };
    let e = match extension {
        Some(e) => e,
        None => "out"@,
    };
    s + "_watermarked."@ + e
}

pub fn output_file_name(stem: Option<&str>, extension: Option<&str>) -> (r: String)
    ensures
        r@ == output_name(
            match stem {
                Some(s) => Some(s@),
                None => None,
            },
            match extension {
                Some(e) => Some(e@),
                None => None,
            },
        ),
{
    let mut r = match stem {
        Some(s) => String::from_str(s),
        None => String::from_str("watermarked"),
    };
    r.append("_watermarked.");
    match extension {
        Some(e) => r.append(e),
        None => r.append("out"),
    }
    r
}

/// Where a batch writes the watermarked copy of `input_path`.
pub fn build_output_path(output_dir: &str, input_path: &str) -> (r: String)
    ensures
        ({
            let name = last_component(input_path@);
            let out = output_name(Some(name_stem(name)), name_extension(name));
            simple_dir(output_dir@) && simple_path(input_path@) && plain_name(out) ==> joined(
                r@,
                output_dir@,
                out,
            )
        }),
{
    let stem = path_file_stem(input_path);
    let ext = path_extension(input_path);
    let name = match (&stem, &ext) {
        (Some(s), Some(e)) => output_file_name(Some(s.as_str()), Some(e.as_str())),
        (Some(s), None) => output_file_name(Some(s.as_str()), None),
        (None, Some(e)) => output_file_name(None, Some(e.as_str())),
        (None, None) => output_file_name(None, None),
    };
    path_join(output_dir, name.as_str())
}

/// The error of a per-file attempt whose input is missing.
pub fn input_missing() -> (r: ProcessingError)
    ensures
        r@ == ProcessingFault::Message("Input file not found"@),
{
    ProcessingError::Message(String::from_str("Input file not found"))
}

/// A result that records a failure of one file.
pub open spec fn is_failed_record(r: FileResult, input: Seq<char>, message: Seq<char>) -> bool {
    &&& r.input_path@ == input
    &&& r.output_path is None
    &&& r.status == ProcessingStatus::Failed
    &&& r.error matches Some(m) && m@ == message
}

/// A result that records a success of one file.
pub open spec fn is_success_record(r: FileResult, input: Seq<char>, output: Seq<char>) -> bool {
    &&& r.input_path@ == input
    &&& r.output_path matches Some(o) && o@ == output
    &&& r.status == ProcessingStatus::Success
    &&& r.error is None
}

fn failed_record(input_path: String, message: String) -> (r: FileResult)
    ensures
        is_failed_record(r, input_path@, message@),
{
    FileResult { input_path, output_path: None, status: ProcessingStatus::Failed, error: Some(message) }
}

/// The result of a failed validation of a single-file request: the file is
/// recorded as failed and nothing is processed.
pub fn rejected_file_result(input_path: String, error: &ProcessingError) -> (r: FileResult)
    ensures
        is_failed_record(r, input_path@, processing_text(error@)),
{
    failed_record(input_path, error.message())
}

/// The outcome of a single-file request. A configuration that failed
/// validation gives a failed result and no attempt is made; otherwise the
/// attempt decides: a success or a recoverable failure is a result, a
/// catastrophic failure is an error.
pub fn process_single_file(
    input_path: String,
    output_path: String,
    validation: Result<(), ProcessingError>,
    attempt: Option<Result<(), ProcessingError>>,
) -> (r: Result<FileResult, String>)
    requires
        validation is Ok ==> attempt is Some,
    ensures
        match validation {
            Err(v) => r matches Ok(fr) && is_failed_record(fr, input_path@, processing_text(v@)),
            Ok(_) => match attempt->0 {
                Ok(_) => r matches Ok(fr) && is_success_record(fr, input_path@, output_path@),
                Err(e) => if catastrophic(e@) {
                    r matches Err(m) && m@ == processing_text(e@)
                } else {
                    r matches Ok(fr) && is_failed_record(fr, input_path@, processing_text(e@))
                },
            },
        },
{
    if let Err(v) = validation {
        return Ok(rejected_file_result(input_path, &v));
    }
    match attempt.unwrap() {
        Ok(_) => Ok(
            FileResult {
                input_path,
                output_path: Some(output_path),
                status: ProcessingStatus::Success,
                error: None,
            },
        ),
        Err(e) => {
            if e.is_catastrophic() {
                Err(e.message())
            } else {
                Ok(failed_record(input_path, e.message()))
            }
        },
    }
}

/// How many results carry the given status.
pub open spec fn count_status(rs: Seq<FileResult>, status: ProcessingStatus) -> nat
    decreases rs.len(),
{
    if rs.len() == 0 {
        0
    } else {
        count_status(rs.drop_last(), status) + if rs.last().status == status {
            1nat
        } else {
            0nat
        }
    }
}

/// A batch in progress: results so far, in input order, and their
/// counts. A catastrophic failure aborts it for good.
pub struct BatchRun {
    pub total: usize,
    pub results: Vec<FileResult>,
    pub successful: usize,
    pub failed: usize,
    pub aborted: bool,
}

impl BatchRun {
    /// The counts match the recorded results, which are all successes or
    /// failures, and no more than the batch holds.
    pub open spec fn wf(&self) -> bool {
        &&& self.results.len() <= self.total
        &&& self.successful == count_status(self.results@, ProcessingStatus::Success)
        &&& self.failed == count_status(self.results@, ProcessingStatus::Failed)
        &&& self.successful + self.failed == self.results.len()
    }

    pub fn new(total: usize) -> (r: BatchRun)
        ensures
            r.wf(),
            r.total == total,
            r.results@.len() == 0,
            !r.aborted,
    {
        BatchRun { total, results: Vec::new(), successful: 0, failed: 0, aborted: false }
    }

    /// The event announcing that the next file is being processed.
    pub fn start_file(&self, file_path: &str) -> (r: ProgressPayload)
        requires
            !self.aborted,
        ensures
            r.file_path@ == file_path@,
            r.file_index == self.results.len(),
            r.total_files == self.total,
            r.status@ == "processing"@,
    {
        ProgressPayload {
            file_path: String::from_str(file_path),
            file_index: self.results.len(),
            total_files: self.total,
            status: String::from_str("processing"),
        }
    }

    /// Records the attempt on the next file and returns the event that ends
    /// it. A catastrophic failure aborts the run and is returned as an
    /// error; an aborted run records nothing more.
    pub fn finish_file(&mut self, input_path: String, output_path: String, attempt: Result<
        (),
        ProcessingError,
    >) -> (r: Result<ProgressPayload, String>)
        requires
            old(self).wf(),
            old(self).aborted || old(self).results.len() < old(self).total,
        ensures
            final(self).wf(),
            final(self).total == old(self).total,
            old(self).aborted ==> r is Err && final(self).aborted && final(self).results@
                == old(self).results@,
            !old(self).aborted ==> match attempt {
                Ok(_) => {
                    &&& !final(self).aborted
                    &&& final(self).results@.len() == old(self).results@.len() + 1
                    &&& final(self).results@.drop_last() == old(self).results@
                    &&& is_success_record(final(self).results@.last(), input_path@, output_path@)
                    &&& r matches Ok(p) && p.status@ == "complete"@ && p.file_path@ == input_path@
                        && p.file_index == old(self).results.len() && p.total_files == old(self).total
                },
                Err(e) => if catastrophic(e@) {
                    &&& final(self).aborted
                    &&& final(self).results@ == old(self).results@
                    &&& r matches Err(m) && m@ == processing_text(e@)
                } else {
                    &&& !final(self).aborted
                    &&& final(self).results@.len() == old(self).results@.len() + 1
                    &&& final(self).results@.drop_last() == old(self).results@
                    &&& is_failed_record(
                        final(self).results@.last(),
                        input_path@,
                        processing_text(e@),
                    )
                    &&& r matches Ok(p) && p.status@ == "error"@ && p.file_path@ == input_path@
                        && p.file_index == old(self).results.len() && p.total_files == old(self).total
                },
            },
    {
        if self.aborted {
            return Err(String::from_str("batch aborted"));
        }
        let index = self.results.len();
        let file_path = input_path.clone();
        let ghost before = self.results@;
        let (status_label, record) = match attempt {
            Ok(_) => {
                self.successful = self.successful + 1;
                (
                    String::from_str("complete"),
                    FileResult {
                        input_path,
                        output_path: Some(output_path),
                        status: ProcessingStatus::Success,
                        error: None,
                    },
                )
            },
            Err(e) => {
                if e.is_catastrophic() {
                    self.aborted = true;
                    return Err(e.message());
                }
                self.failed = self.failed + 1;
                (String::from_str("error"), failed_record(input_path, e.message()))
            },
        };
        self.results.push(record);
        assert(self.results@.drop_last() =~= before);
        Ok(
            ProgressPayload {
                file_path,
                file_index: index,
                total_files: self.total,
                status: status_label,
            },
        )
    }

    /// The aggregate result, once every file of the batch has been
    /// recorded; none for an aborted or unfinished run.
    pub fn finish(self) -> (r: Option<BatchResult>)
        requires
            self.wf(),
        ensures
            r is Some <==> !self.aborted && self.results.len() == self.total,
            r matches Some(b) ==> b.files@ == self.results@ && b.total == self.total
                && b.successful == self.successful && b.failed == self.failed
                && b.total == b.successful + b.failed,
    {
        if self.aborted || self.results.len() != self.total {
            return None;
        }
        Some(
            BatchResult {
                files: self.results,
                total: self.total,
                successful: self.successful,
                failed: self.failed,
            },
        )
    }
}

} // verus!
