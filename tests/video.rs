use plwr::session::{SessionState, ALREADY_RECORDING, NOT_RECORDING};
use plwr::video::{find_raw_capture, plan_video_stop, transcoder_args, video_stop_outcome, StopPlan};

fn names(v: &[&str]) -> Vec<String> {
    v.iter().map(|s| s.to_string()).collect()
}

#[test]
fn first_raw_capture_is_picked() {
    assert_eq!(find_raw_capture(&names(&["log.txt", "a.webm", "b.webm"])), Some(1));
    assert_eq!(find_raw_capture(&names(&[".webm", "x.webmx", "y.mp4"])), None);
    assert_eq!(find_raw_capture(&names(&[])), None);
}

#[test]
fn stop_without_output_reports_raw_location() {
    let mut st = SessionState::new();
    assert!(st.start_video(".plwr-video".to_string()).is_ok());
    let v = st.stop_video().ok().unwrap();
    assert_eq!(v.dir, ".plwr-video");
    let plan = plan_video_stop(Some("/tmp/v/abc.webm".to_string()), None);
    assert!(matches!(&plan, StopPlan::Report { raw } if raw == "/tmp/v/abc.webm"));
    let out = video_stop_outcome(&plan, None);
    assert!(out.response.ok);
    assert_eq!(out.response.value, Some(serde_json::Value::String("/tmp/v/abc.webm".to_string())));
    assert!(!out.remove_artifacts);
}

#[test]
fn stop_to_same_format_renames() {
    let plan = plan_video_stop(Some("/tmp/v/abc.webm".to_string()), Some("demo.webm".to_string()));
    assert!(matches!(&plan, StopPlan::Rename { from, to } if from == "/tmp/v/abc.webm" && to == "demo.webm"));
    let out = video_stop_outcome(&plan, None);
    assert!(out.response.ok && out.response.value.is_none());
    assert!(out.remove_artifacts);
}

#[test]
fn stop_to_other_format_transcodes() {
    let plan = plan_video_stop(Some("raw.webm".to_string()), Some("demo.mp4".to_string()));
    assert!(matches!(&plan, StopPlan::Transcode { input, output } if input == "raw.webm" && output == "demo.mp4"));
    let ok = video_stop_outcome(&plan, None);
    assert!(ok.response.ok && ok.remove_artifacts);
    let failed = video_stop_outcome(&plan, Some("exit status: 1".to_string()));
    assert!(!failed.response.ok);
    assert_eq!(failed.response.error.as_deref(), Some("ffmpeg exited with exit status: 1"));
    assert!(!failed.remove_artifacts);
}

#[test]
fn missing_capture_is_its_own_error() {
    let plan = plan_video_stop(None, Some("demo.mp4".to_string()));
    assert!(matches!(plan, StopPlan::Missing));
    let out = video_stop_outcome(&plan, None);
    assert_eq!(out.response.error.as_deref(), Some("no video file found"));
    assert!(!out.remove_artifacts);
}

#[test]
fn transcoder_arguments() {
    assert_eq!(transcoder_args("in.webm", "out.gif"), names(&["-y", "-i", "in.webm", "out.gif"]));
}

#[test]
fn recording_twice_or_stopping_idle_fails() {
    let mut st = SessionState::new();
    assert_eq!(st.stop_video().err().as_deref(), Some(NOT_RECORDING));
    assert!(st.start_video("d".to_string()).is_ok());
    assert_eq!(st.start_video("e".to_string()).err().as_deref(), Some(ALREADY_RECORDING));
    assert_eq!(st.video.as_ref().unwrap().dir, "d");
}
