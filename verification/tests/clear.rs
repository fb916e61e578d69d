use fluvio_control::clear::command::{is_confirmed, ClearTopicOpt};
use fluvio_control::clear::handler::{
    authorization_step, clear_topic, clear_topic_status, handle_clear_request,
    unknown_object_status, AuthStep, ClearStep, ErrorCode, FailureKind,
    PartitionClear,
};
use fluvio_control::clear::request::{
    ClearRequest, ObjectApiClearRequest, COMMON_VERSION, TOPIC_LABEL,
};

fn encoded(key: &str, reset: bool) -> ObjectApiClearRequest {
    ObjectApiClearRequest::try_encode_from(
        ClearRequest::with_reset_hw(key.to_string(), reset),
        TOPIC_LABEL,
        COMMON_VERSION,
    )
    .unwrap()
}

#[test]
fn a_request_is_read_back() {
    for (key, reset) in [("topic", true), ("topic", false), ("", true), ("\u{e4}\u{1f600}", false)] {
        let request = encoded(key, reset);
        let back = request.downcast(TOPIC_LABEL).unwrap().unwrap();
        assert_eq!(back.reset_high_watermark(), reset);
        assert_eq!(back.key(), key);
        assert!(request.downcast("Spu").unwrap().is_none());
    }
}

#[test]
fn a_request_as_bytes() {
    let request = encoded("ab", true);
    assert_eq!(request.ty, "Topic");
    assert_eq!(request.version, COMMON_VERSION);
    assert_eq!(request.buf, vec![0, 2, b'a', b'b', 1]);
    assert_eq!(encoded("", false).buf, vec![0, 0, 0]);
}

fn raw(buf: Vec<u8>) -> ObjectApiClearRequest {
    ObjectApiClearRequest {
        version: COMMON_VERSION,
        ty: TOPIC_LABEL.to_string(),
        buf,
    }
}

#[test]
fn bytes_that_hold_no_request() {
    for buf in [
        vec![],
        vec![0],
        vec![0, 1],
        vec![0, 1, b'a'],
        vec![0, 1, b'a', 2],
        vec![0, 1, 0xff, 0],
    ] {
        assert!(raw(buf.clone()).downcast(TOPIC_LABEL).is_err(), "{buf:?}");
        assert!(raw(buf).downcast("Spu").unwrap().is_none());
    }
    let back = raw(vec![0xff, 0xff, 1, 9]).downcast(TOPIC_LABEL).unwrap().unwrap();
    assert!(back.reset_high_watermark());
    assert_eq!(back.key(), "");
}

#[test]
fn a_new_request_leaves_the_high_watermark() {
    let request = ClearRequest::new(7);
    assert!(!request.reset_high_watermark());
    assert_eq!(request.key(), 7);
}

#[test]
fn who_may_clear_a_topic() {
    assert!(matches!(authorization_step("t", Some(true)), AuthStep::Proceed));
    match authorization_step("t", Some(false)) {
        AuthStep::Reply(status) => {
            assert_eq!(status.name, "t");
            assert_eq!(status.error_code, ErrorCode::PermissionDenied);
            assert_eq!(status.error_entity.as_deref(), Some("permission denied"));
        }
        other => panic!("{other:?}"),
    }
    match authorization_step("t", None) {
        AuthStep::Failed { kind, reason } => {
            assert_eq!(kind, FailureKind::Interrupted);
            assert_eq!(reason, "authorization io error");
        }
        other => panic!("{other:?}"),
    }
}

#[test]
fn answers_to_a_request() {
    let status = clear_topic_status("t".to_string(), true);
    assert_eq!(status.error_code, ErrorCode::NoError);
    assert_eq!(status.error_entity, None);
    let status = clear_topic_status("t".to_string(), false);
    assert_eq!(status.name, "t");
    assert_eq!(status.error_code, ErrorCode::TopicNotFound);
    assert_eq!(status.error_entity.as_deref(), Some("not found"));
    let status = unknown_object_status();
    assert_eq!(status.name, "clear error");
    assert_eq!(
        status.error_code,
        ErrorCode::Other("unknown admin object type".to_string())
    );
}

#[test]
fn the_command_asks_first() {
    let mut opt = ClearTopicOpt {
        topic: "t".to_string(),
        reset_hw: false,
        confirm: false,
    };
    assert_eq!(
        opt.prompt(),
        ["This will clear ALL data for topic 't'.", "Are you sure? [y/N]"]
    );
    assert!(opt.request("n\n").is_none());
    assert!(opt.request("").is_none());
    let request = opt.request("Yes \n").unwrap();
    assert!(!request.reset_high_watermark());
    assert_eq!(request.key(), "t");
    opt.reset_hw = true;
    assert_eq!(
        opt.prompt(),
        [
            "This will clear ALL data for topic 't' and reset the high watermark.",
            "Consumers will restart from offset 0. Are you sure? [y/N]"
        ]
    );
    opt.confirm = true;
    assert!(opt.prompt().is_empty());
    assert!(opt.request("").unwrap().reset_high_watermark());
    assert_eq!(opt.done(), "topic \"t\" cleared");
}

#[test]
fn answers_that_agree() {
    assert!(is_confirmed("y") && is_confirmed("Y\r\n") && is_confirmed("yEs\t"));
    assert!(!is_confirmed(" y") && !is_confirmed("ye") && !is_confirmed("yess"));
}

#[test]
fn every_partition_of_a_topic_is_truncated() {
    for reset_high_watermark in [true, false] {
        let plan = clear_topic("t".to_string(), Some(vec![0, 1, 7]), reset_high_watermark);
        assert_eq!(plan.status, clear_topic_status("t".to_string(), true));
        assert_eq!(
            plan.partitions,
            [0, 1, 7]
                .into_iter()
                .map(|partition| PartitionClear {
                    topic: "t".to_string(),
                    partition,
                    reset_high_watermark,
                })
                .collect::<Vec<_>>()
        );
    }
    let plan = clear_topic("t".to_string(), Some(vec![]), true);
    assert_eq!(plan.status.error_code, ErrorCode::NoError);
    assert!(plan.partitions.is_empty());
    let plan = clear_topic("t".to_string(), None, true);
    assert_eq!(plan.status, clear_topic_status("t".to_string(), false));
    assert!(plan.partitions.is_empty());
}

#[test]
fn what_follows_from_a_request() {
    match handle_clear_request(&encoded("t", true)).unwrap() {
        ClearStep::Authorize {
            topic,
            reset_high_watermark,
        } => {
            assert_eq!(topic, "t");
            assert!(reset_high_watermark);
        }
        other => panic!("{other:?}"),
    }
    assert!(matches!(
        handle_clear_request(&encoded("t", false)).unwrap(),
        ClearStep::Authorize {
            reset_high_watermark: false,
            ..
        }
    ));
    let mut other_kind = encoded("t", true);
    other_kind.ty = "Spu".to_string();
    match handle_clear_request(&other_kind).unwrap() {
        ClearStep::Reply(status) => assert_eq!(status, unknown_object_status()),
        other => panic!("{other:?}"),
    }
    assert!(handle_clear_request(&raw(vec![0])).is_err());
}
