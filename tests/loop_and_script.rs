use vi5_render::dispatch::{BatchReply, HandlerKind, PageReply, PaintRoute, RegionOutcome, SingleRenderReply, CONTROL_NONCE};
use vi5_render::render_loop::{wait_expired, LoopEvent, RenderError, RenderLoop, BATCH_TIMEOUT_MS};
use vi5_render::script::{choose_content_port, content_url, port_for_draw, push_decimal, render_script};
use vi5_render::types::{
    Color, ConversionError, InitializeResponse, LogNotification, LogNotificationLevel, NumberStep,
    ObjectInfo, Parameter, ParameterDefinition, ParameterType, ParameterValue, RenderResponse,
    RenderResponseData,
};

fn encode_frame(nonce: u32, message: &[u8], width: usize) -> Vec<u8> {
    let mut logical = vec![255u8, 192, 128];
    logical.extend_from_slice(&nonce.to_le_bytes());
    logical.extend_from_slice(&(message.len() as u32).to_le_bytes());
    logical.extend_from_slice(message);
    let pixels = ((logical.len() + 2) / 3).max(width);
    let mut raw = vec![0u8; pixels * 4];
    for p in 0..pixels {
        for c in 0..3 {
            let l = p * 3 + c;
            if l < logical.len() {
                raw[p * 4 + c] = logical[l];
            }
        }
        raw[p * 4 + 3] = 255;
    }
    raw
}

fn ready_loop() -> RenderLoop {
    let mut render_loop = RenderLoop::new();
    render_loop.begin_initialize();
    let info = InitializeResponse { project_name: "proj".to_string(), renderer_version: "1.0".to_string() };
    let event = render_loop.deliver(CONTROL_NONCE, &[], 0, PageReply::Initialized(info));
    assert!(matches!(event, LoopEvent::Initialized(true)));
    render_loop
}

#[test]
fn initialize_reports_project_and_becomes_ready() {
    let mut render_loop = RenderLoop::new();
    assert_eq!(render_loop.assert_initialized(), Err(RenderError::NotInitialized));
    render_loop.begin_initialize();
    assert!(!render_loop.initialization_settled());
    let frame = encode_frame(CONTROL_NONCE, b"payload", 4);
    let route = render_loop.on_software_paint(&frame, frame.len() / 4, 1);
    let (nonce, width) = match route {
        PaintRoute::Matched { nonce, kind, message, frame: packed } => {
            assert_eq!(kind, HandlerKind::Control);
            assert_eq!(message, Some(b"payload".to_vec()));
            (nonce, packed.len() / 4)
        }
        other => panic!("unexpected route {:?}", other),
    };
    let info = InitializeResponse { project_name: "proj".to_string(), renderer_version: "1.0".to_string() };
    let event = render_loop.deliver(nonce, &frame, width, PageReply::Initialized(info));
    assert!(matches!(event, LoopEvent::Initialized(true)));
    assert!(render_loop.initialization_settled());
    assert_eq!(render_loop.assert_initialized(), Ok(()));
    let info = render_loop.initialize_info().expect("ready");
    assert_eq!(info.project_name, "proj");
    assert_eq!(info.renderer_version, "1.0");
}

#[test]
fn reinitialize_starts_over() {
    let mut render_loop = ready_loop();
    let nonce = render_loop.begin_batch(1).unwrap().unwrap();
    render_loop.begin_initialize();
    assert!(!render_loop.is_pending(nonce));
    assert_eq!(render_loop.assert_initialized(), Err(RenderError::NotInitialized));
}

#[test]
fn reported_initialization_failure_fails() {
    let mut render_loop = RenderLoop::new();
    render_loop.begin_initialize();
    let event = render_loop.deliver(CONTROL_NONCE, &[], 0, PageReply::Failed("project not found".to_string()));
    assert!(matches!(event, LoopEvent::Initialized(false)));
    assert_eq!(
        render_loop.assert_initialized(),
        Err(RenderError::InitializationFailed("project not found".to_string()))
    );
    assert_eq!(render_loop.begin_batch(1), Err(RenderError::InitializationFailed("project not found".to_string())));
}

#[test]
fn initialization_timeout_fails_and_drops_control_nonce() {
    let mut render_loop = RenderLoop::new();
    render_loop.begin_initialize();
    assert!(render_loop.is_pending(CONTROL_NONCE));
    render_loop.initialization_timed_out();
    assert!(!render_loop.is_pending(CONTROL_NONCE));
    assert!(matches!(render_loop.assert_initialized(), Err(RenderError::InitializationFailed(_))));
    let late = PageReply::Initialized(InitializeResponse { project_name: "p".to_string(), renderer_version: "v".to_string() });
    assert!(matches!(render_loop.deliver(CONTROL_NONCE, &[], 0, late), LoopEvent::Ignored));
}

#[test]
fn empty_batch_needs_no_nonce() {
    let mut render_loop = ready_loop();
    assert_eq!(render_loop.begin_batch(0), Ok(None));
}

#[test]
fn batch_before_initialization_is_refused() {
    let mut render_loop = RenderLoop::new();
    assert_eq!(render_loop.begin_batch(2), Err(RenderError::NotInitialized));
}

#[test]
fn single_frame_batch_success() {
    let mut render_loop = ready_loop();
    let nonce = render_loop.begin_batch(1).unwrap().unwrap();
    assert!(render_loop.is_pending(nonce));
    let frame = vec![200u8; 64 * 64 * 4];
    let reply = PageReply::Rendered(BatchReply {
        items: vec![SingleRenderReply { nonce: 1, outcome: RegionOutcome::Rendered { x: 0, y: 0, width: 64, height: 64 } }],
        is_incomplete: false,
    });
    match render_loop.deliver(nonce, &frame, 64, reply) {
        LoopEvent::Batch { responses, complete } => {
            assert!(complete);
            assert_eq!(responses.len(), 1);
            match &responses[0].response {
                RenderResponseData::Success { width, height, image_data } => {
                    assert_eq!((*width, *height), (64, 64));
                    assert_eq!(image_data.len(), 64 * 64 * 4);
                }
                other => panic!("unexpected response {:?}", other),
            }
        }
        other => panic!("unexpected event {:?}", other),
    }
    assert!(!render_loop.is_pending(nonce));
}

#[test]
fn batch_timeout_removes_registration() {
    let mut render_loop = ready_loop();
    let nonce = render_loop.begin_batch(3).unwrap().unwrap();
    assert!(!wait_expired(BATCH_TIMEOUT_MS, BATCH_TIMEOUT_MS));
    assert!(wait_expired(BATCH_TIMEOUT_MS + 1, BATCH_TIMEOUT_MS));
    assert!(render_loop.abandon_batch(nonce));
    let frame = encode_frame(nonce, b"late", 4);
    assert!(matches!(render_loop.on_software_paint(&frame, frame.len() / 4, 1), PaintRoute::Unmatched(n) if n == nonce));
    let reply = PageReply::Rendered(BatchReply { items: vec![], is_incomplete: false });
    assert!(matches!(render_loop.deliver(nonce, &frame, frame.len() / 4, reply), LoopEvent::Ignored));
}

#[test]
fn render_script_embeds_nonce_and_base64() {
    assert_eq!(render_script(4242, &b"abc".to_vec()), "window.__vi5__.render(4242, 'YWJj');");
    assert_eq!(render_script(1025, &vec![]), "window.__vi5__.render(1025, '');");
    assert_eq!(render_script(u32::MAX, &vec![0xff]), "window.__vi5__.render(4294967295, '/w==');");
}

#[test]
fn decimal_text() {
    let mut s = String::from("n=");
    push_decimal(&mut s, 0);
    assert_eq!(s, "n=0");
    let mut s = String::new();
    push_decimal(&mut s, 1234567890);
    assert_eq!(s, "1234567890");
}

#[test]
fn content_server_address() {
    assert_eq!(content_url(12345), "http://localhost:12345/vi5");
    assert_eq!(port_for_draw(0), 10000);
    assert_eq!(port_for_draw(19999), 29999);
    assert_eq!(port_for_draw(20000), 10000);
    assert_eq!(port_for_draw(u16::MAX), 10000 + 65535 % 20000);
    let p = choose_content_port();
    assert!((10000..30000).contains(&p));
}

#[test]
fn number_step_text() {
    assert_eq!(NumberStep::One.as_str(), "1");
    assert_eq!(NumberStep::PointOne.as_str(), "0.1");
    assert_eq!(NumberStep::PointZeroOne.as_str(), "0.01");
    assert_eq!(NumberStep::PointZeroZeroOne.as_str(), "0.001");
}

#[test]
fn color_from_host_word() {
    assert_eq!(Color::from_argb(0x80FF4020), Color { r: 0xFF, g: 0x40, b: 0x20, a: 0x80 });
    assert_eq!(Color::from_argb(0), Color { r: 0, g: 0, b: 0, a: 0 });
}

#[test]
fn conversion_error_text() {
    assert_eq!(ConversionError::MissingRenderResponse.message(), "missing render response");
    assert_eq!(ConversionError::MissingParameterValue.message(), "missing parameter value");
    assert_eq!(ConversionError::MissingParameterType.message(), "missing parameter type");
    assert_eq!(ConversionError::MissingParameterTypeKind.message(), "missing parameter type kind");
}

#[test]
fn log_notification_record() {
    let n = LogNotification { level: LogNotificationLevel::Warn, message: "careful".to_string() };
    assert_eq!(n.level, LogNotificationLevel::Warn);
    assert_eq!(n.message, "careful");
}

#[test]
fn wire_records_with_missing_fields_are_refused() {
    assert_eq!(Parameter::from_wire("k".to_string(), None).err(), Some(ConversionError::MissingParameterValue));
    let p = Parameter::from_wire("k".to_string(), Some(ParameterValue::Bool(true))).unwrap();
    assert_eq!(p.key, "k");
    assert_eq!(RenderResponse::from_wire(3, None).err(), Some(ConversionError::MissingRenderResponse));
    let r = RenderResponse::from_wire(3, Some(RenderResponseData::Error("e".to_string()))).unwrap();
    assert_eq!(r.render_nonce, 3);
    assert_eq!(
        ParameterDefinition::from_wire("k".to_string(), "K".to_string(), None, None).err(),
        Some(ConversionError::MissingParameterType)
    );
    assert_eq!(
        ParameterDefinition::from_wire("k".to_string(), "K".to_string(), Some(None), None).err(),
        Some(ConversionError::MissingParameterTypeKind)
    );
    let d = ParameterDefinition::from_wire("k".to_string(), "K".to_string(), Some(Some(ParameterType::Boolean)), None).unwrap();
    assert_eq!(d.parameter_type, ParameterType::Boolean);
    let info = ObjectInfo::from_wire("id".to_string(), "Label".to_string(), vec![Ok(d.clone()), Ok(d.clone())]).unwrap();
    assert_eq!(info.parameter_definitions.len(), 2);
    let failed = ObjectInfo::from_wire(
        "id".to_string(),
        "Label".to_string(),
        vec![Ok(d.clone()), Err(ConversionError::MissingParameterType), Err(ConversionError::MissingParameterValue)],
    );
    assert_eq!(failed.err(), Some(ConversionError::MissingParameterType));
}
