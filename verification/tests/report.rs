use codex_acp::report::{pipeline_report_json, pipeline_report_line, PipelineReport};

#[test]
fn report_of_nothing_is_all_zero() {
    let report = PipelineReport::default();
    let json = pipeline_report_json(&report);
    assert_eq!(json["phase1_claimed"], 0);
    assert_eq!(json["phase1_succeeded"], 0);
    assert_eq!(json["phase2_ran"], false);
    assert_eq!(json["phase2_changed"], false);
    assert_eq!(json.len(), 4);
}

#[test]
fn report_is_one_line_of_json() {
    assert_eq!(
        pipeline_report_line(&PipelineReport::default()),
        r#"{"phase1_claimed":0,"phase1_succeeded":0,"phase2_ran":false,"phase2_changed":false}"#
    );
    let report = PipelineReport {
        phase1_claimed: 1203,
        phase1_succeeded: 40,
        phase2_ran: true,
        phase2_changed: false,
    };
    assert_eq!(
        pipeline_report_line(&report),
        r#"{"phase1_claimed":1203,"phase1_succeeded":40,"phase2_ran":true,"phase2_changed":false}"#
    );
}

#[test]
fn report_line_reads_back_as_the_object() {
    let report = PipelineReport {
        phase1_claimed: usize::MAX,
        phase1_succeeded: 9,
        phase2_ran: true,
        phase2_changed: true,
    };
    let line = pipeline_report_line(&report);
    assert_eq!(line.lines().count(), 1);
    let read: serde_json::Value = serde_json::from_str(&line).unwrap();
    assert_eq!(read, serde_json::Value::Object(pipeline_report_json(&report)));
    assert_eq!(read["phase1_claimed"], usize::MAX);
}

#[test]
fn members_keep_the_order_of_the_report() {
    let json = pipeline_report_json(&PipelineReport::default());
    let keys: Vec<&str> = json.keys().map(String::as_str).collect();
    assert_eq!(keys, ["phase1_claimed", "phase1_succeeded", "phase2_ran", "phase2_changed"]);
}
