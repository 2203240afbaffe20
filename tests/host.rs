use vi5_render::cache::{CallError, InternalModule};
use vi5_render::capture::{readback_layout, texture_extent, CaptureError};
use vi5_render::host::{build_batch_requests, build_render_request, HostFrameInfo, HostParameter};
use vi5_render::notify::NotificationBacklog;
use vi5_render::types::{
    Color, LogNotification, LogNotificationLevel, Notification, ParameterValue, RenderResponse,
    RenderResponseData,
};

fn host_frame(current_frame: i32) -> HostFrameInfo {
    HostFrameInfo {
        x_bits: 0.5f64.to_bits(),
        y_bits: 0.25f64.to_bits(),
        z_bits: 0.0f64.to_bits(),
        canvas_width: 1280,
        canvas_height: 720,
        current_frame,
        current_time_bits: 1.0f64.to_bits(),
        total_frames: 100,
        total_time_bits: 4.0f64.to_bits(),
        framerate_bits: 25.0f64.to_bits(),
    }
}

fn host_params(label: &str) -> Vec<(String, HostParameter)> {
    vec![
        ("label".to_string(), HostParameter::Str(label.to_string())),
        ("tint".to_string(), HostParameter::Color(0xFF102030)),
        ("size".to_string(), HostParameter::Number(12.0f64.to_bits())),
    ]
}

fn image(nonce: i32, side: i32, fill: u8) -> RenderResponse {
    RenderResponse {
        render_nonce: nonce,
        response: RenderResponseData::Success { width: side, height: side, image_data: vec![fill; (side * side * 4) as usize] },
    }
}

#[test]
fn host_request_conversion() {
    let request = build_render_request("title".to_string(), -3, host_params("hi"), &host_frame(7));
    assert_eq!(request.object, "title");
    assert_eq!(request.object_id, -3);
    assert_eq!(request.frame_info.screen_width, 1280);
    assert_eq!(request.frame_info.current_frame, 7);
    assert_eq!(request.frame_info.framerate_bits, 25.0f64.to_bits());
    assert_eq!(request.parameters.len(), 3);
    assert_eq!(request.parameters[1].key, "tint");
    assert!(matches!(request.parameters[1].value, ParameterValue::Color(Color { r: 0x10, g: 0x20, b: 0x30, a: 0xFF })));
    assert!(matches!(&request.parameters[0].value, ParameterValue::Str(s) if s == "hi"));
}

#[test]
fn mismatched_host_batch_is_refused() {
    let r = build_batch_requests(&"title".to_string(), 1, vec![host_params("a"), host_params("b")], &vec![host_frame(0)]);
    assert_eq!(r.err(), Some(CallError::MismatchedBatch { params: 2, frames: 1 }));
}

#[test]
fn host_call_renders_then_reuses_cache() {
    let mut module = InternalModule::new();
    let frames: Vec<HostFrameInfo> = (0..3).map(host_frame).collect();
    let params = vec![host_params("a"), host_params("a"), host_params("a")];
    let requests = build_batch_requests(&"title".to_string(), 9, params, &frames).unwrap();
    assert_eq!(requests.len(), 3);
    let plan = module.prepare_call(9, 16, requests).unwrap();
    assert_eq!(plan.keys.len(), 3);
    assert_eq!(plan.rendered_keys, plan.keys);
    assert_eq!(plan.requests.len(), 3);
    let responses = vec![image(0, 64, 1), image(1, 64, 2), image(2, 64, 3)];
    assert_eq!(module.finish_call(9, &plan.keys, &plan.rendered_keys, responses), Ok((64, 64)));
    assert_eq!(module.handed_out_image(9), Some(&vec![1u8; 64 * 64 * 4]));

    let again = build_batch_requests(&"title".to_string(), 9, vec![host_params("a"), host_params("a"), host_params("a")], &frames).unwrap();
    let plan2 = module.prepare_call(9, 16, again).unwrap();
    assert_eq!(plan2.keys, plan.keys);
    assert!(plan2.rendered_keys.is_empty());
    assert!(plan2.requests.is_empty());
    assert_eq!(module.finish_call(9, &plan2.keys, &plan2.rendered_keys, vec![]), Ok((64, 64)));
}

#[test]
fn host_call_errors() {
    let mut module = InternalModule::new();
    assert_eq!(module.prepare_call(1, -1, vec![]).err(), Some(CallError::InvalidBatchSize(-1)));
    assert_eq!(module.prepare_call(1, 4, vec![]).err(), Some(CallError::EmptyBatch));
    let requests = build_batch_requests(&"t".to_string(), 1, vec![host_params("x")], &vec![host_frame(0)]).unwrap();
    let plan = module.prepare_call(1, 4, requests).unwrap();
    let failed = vec![RenderResponse { render_nonce: 0, response: RenderResponseData::Error("js".to_string()) }];
    assert_eq!(module.finish_call(1, &plan.keys, &plan.rendered_keys, failed), Err(CallError::FirstFrameFailed("js".to_string())));
    assert_eq!(module.finish_call(1, &plan.keys, &plan.rendered_keys, vec![]), Err(CallError::FirstFrameMissing));
}

#[test]
fn readback_rows_are_aligned() {
    assert_eq!(readback_layout(64, 64), Ok((256, 256 * 64)));
    assert_eq!(readback_layout(65, 2), Ok((512, 1024)));
    assert_eq!(readback_layout(1, 1), Ok((256, 256)));
    assert_eq!(readback_layout(u32::MAX / 4 + 1, 1), Err(CaptureError::TextureTooLarge));
}

#[test]
fn texture_size_must_be_positive() {
    assert_eq!(texture_extent(0, 10), Err(CaptureError::InvalidTextureSize));
    assert_eq!(texture_extent(10, -1), Err(CaptureError::InvalidTextureSize));
    assert_eq!(texture_extent(800, 600), Ok((800, 600)));
}

fn log(message: &str) -> Notification {
    Notification::Log(LogNotification { level: LogNotificationLevel::Info, message: message.to_string() })
}

fn messages(backlog: &NotificationBacklog) -> Vec<String> {
    backlog
        .snapshot()
        .iter()
        .map(|n| match n {
            Notification::Log(l) => l.message.clone(),
            Notification::ObjectInfos(_) => String::new(),
        })
        .collect()
}

#[test]
fn backlog_keeps_recent_history() {
    let mut backlog = NotificationBacklog::new(2);
    backlog.record(log("a"));
    assert_eq!(messages(&backlog), vec!["a"]);
    backlog.record(log("b"));
    backlog.record(log("c"));
    assert_eq!(messages(&backlog), vec!["b", "c"]);
    let mut none = NotificationBacklog::new(0);
    none.record(log("x"));
    assert!(none.snapshot().is_empty());
}
