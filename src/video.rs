//! The video artifact lifecycle after recording stops: locate the raw
//! capture, decide between reporting it, renaming it and transcoding it, and
//! decide what the reply is and whether the temporary artifacts go.
use crate::protocol::{json_string, json_text, Response};
use crate::text::{chars_of, ends_with, ends_with_exec, extend, string_of, views};
use vstd::prelude::*;

verus! {

/// The extension of the raw capture files that the engine writes.
pub const RAW_EXTENSION: &'static str = ".webm";

/// The external transcoder.
pub const TRANSCODER: &'static str = "ffmpeg";

/// The failure where recording stopped but left no raw capture.
pub const NO_VIDEO_FILE: &'static str = "no video file found";

/// A file name with a stem and the raw capture extension.
pub open spec fn is_raw_capture(name: Seq<char>) -> bool {
    name.len() > RAW_EXTENSION@.len() && ends_with(name, RAW_EXTENSION@)
}

/// The first index at or after `i` that names a raw capture.
pub open spec fn first_raw_from(names: Seq<Seq<char>>, i: int) -> Option<int>
    decreases names.len() - i,
{
    if i < 0 || i >= names.len() {
        None
    } else if is_raw_capture(names[i]) {
        Some(i)
    } else {
        first_raw_from(names, i + 1)
    }
}

/// Picks the raw capture among the file names of the capture directory: the
/// first with the raw extension.
pub fn find_raw_capture(names: &Vec<String>) -> (r: Option<usize>)
    ensures
        r matches Some(i) ==> first_raw_from(views(names@), 0) == Some(i as int),
        r is None ==> first_raw_from(views(names@), 0) is None,
{
    let ext = chars_of(RAW_EXTENSION);
    let mut i: usize = 0;
    while i < names.len()
        invariant
            i <= names@.len(),
            ext@ == RAW_EXTENSION@,
            first_raw_from(views(names@), 0) == first_raw_from(views(names@), i as int),
        decreases names@.len() - i,
    {
        let name = chars_of(names[i].as_str());
        assert(name@ == views(names@)[i as int]);
        if name.len() > ext.len() && ends_with_exec(&name, &ext) {
            return Some(i);
        }
        i = i + 1;
    }
    None
}

/// What to do with the capture once recording has stopped.
pub enum StopPlan {
    /// No raw capture was produced.
    Missing,
    /// No output was asked for: report where the raw capture is.
    Report { raw: String },
    /// The output has the raw format's extension: move the capture there.
    Rename { from: String, to: String },
    /// Any other output: run the transcoder from the capture to the output.
    Transcode { input: String, output: String },
}

/// Plans the end of a recording from the raw capture's path (if one was
/// found) and the output path (if one was asked for).
pub fn plan_video_stop(raw: Option<String>, output: Option<String>) -> (r: StopPlan)
    ensures
        raw is None ==> r is Missing,
        raw is Some && output is None ==> (r matches StopPlan::Report { raw: q } && q@
            == raw->0@),
        raw is Some && output is Some && ends_with(output->0@, RAW_EXTENSION@) ==> (
        r matches StopPlan::Rename { from, to } && from@ == raw->0@ && to@ == output->0@),
        raw is Some && output is Some && !ends_with(output->0@, RAW_EXTENSION@) ==> (
        r matches StopPlan::Transcode { input, output: out } && input@ == raw->0@ && out@
            == output->0@),
{
    match raw {
        None => StopPlan::Missing,
        Some(p) => match output {
            None => StopPlan::Report { raw: p },
            Some(o) => {
                if ends_with_exec(&chars_of(o.as_str()), &chars_of(RAW_EXTENSION)) {
                    StopPlan::Rename { from: p, to: o }
                } else {
                    StopPlan::Transcode { input: p, output: o }
                }
            },
        },
    }
}

/// The transcoder's arguments: overwrite without asking, read the capture,
/// write the output.
pub fn transcoder_args(input: &str, output: &str) -> (r: Vec<String>)
    ensures
        views(r@) == seq!["-y"@, "-i"@, input@, output@],
{
    let mut r: Vec<String> = Vec::new();
    r.push(String::from_str("-y"));
    r.push(String::from_str("-i"));
    r.push(String::from_str(input));
    r.push(String::from_str(output));
    assert(views(r@) =~= seq!["-y"@, "-i"@, input@, output@]);
    r
}

/// The reply to a stopped recording, and whether the temporary capture
/// directory is to be removed.
pub struct StopOutcome {
    pub response: Response,
    pub remove_artifacts: bool,
}

/// `"ffmpeg exited with <status>"`
pub open spec fn transcoder_failure_message(status: Seq<char>) -> Seq<char> {
    TRANSCODER@ + " exited with "@ + status
}

/// Settles a stopped recording once its plan has been carried out.
/// `transcoder_failure` holds the transcoder's exit status where it ran and
/// failed. A failed transcode leaves the artifacts in place for diagnosis.
pub fn video_stop_outcome(plan: &StopPlan, transcoder_failure: Option<String>) -> (r: StopOutcome)
    ensures
        r.response.well_formed(),
        plan is Missing ==> !r.response.ok && r.response.error is Some
            && r.response.error->0@ == NO_VIDEO_FILE@ && !r.remove_artifacts,
        plan is Report ==> r.response.ok && r.response.value == Some(json_string(plan->raw@))
            && !r.remove_artifacts,
        plan is Rename ==> r.response.ok && r.response.value is None && r.remove_artifacts,
        plan is Transcode && transcoder_failure is None ==> r.response.ok && r.response.value is None
            && r.remove_artifacts,
        plan is Transcode && transcoder_failure is Some ==> !r.response.ok
            && r.response.error is Some && r.response.error->0@ == transcoder_failure_message(
            transcoder_failure->0@,
        ) && !r.remove_artifacts,
{
    match plan {
        StopPlan::Missing => StopOutcome {
            response: Response::err(String::from_str(NO_VIDEO_FILE)),
            remove_artifacts: false,
        },
        StopPlan::Report { raw } => StopOutcome {
            response: Response::ok_value(json_text(raw.clone())),
            remove_artifacts: false,
        },
        StopPlan::Rename { .. } => StopOutcome { response: Response::ok_empty(), remove_artifacts: true },
        StopPlan::Transcode { .. } => match transcoder_failure {
            None => StopOutcome { response: Response::ok_empty(), remove_artifacts: true },
            Some(s) => {
                let mut m = chars_of(TRANSCODER);
                extend(&mut m, &chars_of(" exited with "));
                extend(&mut m, &chars_of(s.as_str()));
                StopOutcome { response: Response::err(string_of(&m)), remove_artifacts: false }
            },
        },
    }
}

} // verus!
