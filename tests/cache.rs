use vi5_render::cache::{clear_render_cache, should_render_now, InternalModule, RenderCache};
use vi5_render::fingerprint::{batch_cache_keys, compute_cache_key, encode_parameter, hash_parameter_value};
use vi5_render::types::{
    Color, FrameInfo, Parameter, ParameterValue, RenderRequest, RenderResponse, RenderResponseData,
};

fn frame(current_frame: u64) -> FrameInfo {
    FrameInfo {
        x_bits: 1.5f64.to_bits(),
        y_bits: (-2.0f64).to_bits(),
        z_bits: 0.0f64.to_bits(),
        screen_width: 1920,
        screen_height: 1080,
        current_frame,
        current_time_bits: (current_frame as f64 / 30.0).to_bits(),
        total_frames: 300,
        total_time_bits: 10.0f64.to_bits(),
        framerate_bits: 30.0f64.to_bits(),
    }
}

fn param(key: &str, value: ParameterValue) -> Parameter {
    Parameter { key: key.to_string(), value }
}

fn request(current_frame: u64, parameters: Vec<Parameter>) -> RenderRequest {
    RenderRequest { object: "title".to_string(), object_id: 7, frame_info: frame(current_frame), parameters }
}

fn some_parameters() -> Vec<Parameter> {
    vec![
        param("text", ParameterValue::Text("hello\nworld".to_string())),
        param("size", ParameterValue::Number(42.0f64.to_bits())),
        param("bold", ParameterValue::Bool(true)),
        param("color", ParameterValue::Color(Color { r: 1, g: 2, b: 3, a: 255 })),
        param("font", ParameterValue::Str("Sans".to_string())),
    ]
}

fn success(nonce: i32, width: i32, height: i32, fill: u8) -> RenderResponse {
    RenderResponse {
        render_nonce: nonce,
        response: RenderResponseData::Success {
            width,
            height,
            image_data: vec![fill; (width * height * 4) as usize],
        },
    }
}

#[test]
fn cache_key_ignores_parameter_order() {
    let a = request(3, some_parameters());
    let mut reversed = some_parameters();
    reversed.reverse();
    let b = request(3, reversed);
    let mut rotated = some_parameters();
    rotated.rotate_left(2);
    let c = request(3, rotated);
    assert_eq!(compute_cache_key(&a), compute_cache_key(&b));
    assert_eq!(compute_cache_key(&a), compute_cache_key(&c));
}

#[test]
fn cache_key_depends_on_values_and_frame() {
    let a = request(3, some_parameters());
    let mut changed = some_parameters();
    changed[1] = param("size", ParameterValue::Number(43.0f64.to_bits()));
    assert_ne!(compute_cache_key(&a), compute_cache_key(&request(3, changed)));
    assert_ne!(compute_cache_key(&a), compute_cache_key(&request(4, some_parameters())));
    let mut other_object = request(3, some_parameters());
    other_object.object_id = 8;
    assert_ne!(compute_cache_key(&a), compute_cache_key(&other_object));
}

#[test]
fn parameter_value_encoding() {
    let mut out = vec![9u8];
    hash_parameter_value(&ParameterValue::Bool(true), &mut out);
    assert_eq!(out, vec![9, 3, 1]);
    let mut out = vec![];
    hash_parameter_value(&ParameterValue::Color(Color { r: 10, g: 20, b: 30, a: 40 }), &mut out);
    assert_eq!(out, vec![4, 10, 20, 30, 40]);
    let mut out = vec![];
    hash_parameter_value(&ParameterValue::Str("ab".to_string()), &mut out);
    assert_eq!(out, vec![0, 2, 0, 0, 0, 0, 0, 0, 0, b'a', b'b']);
    let mut out = vec![];
    hash_parameter_value(&ParameterValue::Number(0x0102030405060708), &mut out);
    assert_eq!(out, vec![2, 8, 7, 6, 5, 4, 3, 2, 1]);
    let encoded = encode_parameter(&param("k", ParameterValue::Text("v".to_string())));
    assert_eq!(encoded, vec![1, 0, 0, 0, 0, 0, 0, 0, b'k', 1, 1, 0, 0, 0, 0, 0, 0, 0, b'v']);
}

#[test]
fn uncached_first_frame_renders_now() {
    assert!(should_render_now(16, true, 1, 16));
    assert!(should_render_now(16, true, 16, 16));
    assert!(should_render_now(16, true, 5, 16));
}

#[test]
fn fully_cached_batch_never_renders() {
    assert!(!should_render_now(16, false, 0, 16));
    assert!(!should_render_now(3, false, 0, 16));
}

#[test]
fn short_batch_renders_now() {
    assert!(should_render_now(5, false, 1, 16));
}

#[test]
fn mostly_stale_batch_renders_now() {
    assert!(should_render_now(16, false, 12, 16));
    assert!(!should_render_now(16, false, 11, 16));
    assert!(!should_render_now(16, false, 5, 16));
}

#[test]
fn second_identical_batch_comes_from_the_cache() {
    let mut module = InternalModule::new();
    let requests = vec![request(0, some_parameters())];
    let keys = batch_cache_keys(&requests);
    let plan = module.render_cache().plan_batch(7, &keys, 16);
    assert_eq!(plan, vec![0]);
    let (rendered_keys, to_render) = module.render_cache().take_uncached(7, requests, &keys);
    assert_eq!(rendered_keys, keys);
    assert_eq!(to_render.len(), 1);
    assert_eq!(module.store_batch(7, &keys, &rendered_keys, vec![success(1, 64, 64, 9)]), Ok(()));
    assert_eq!(module.hand_out(7, keys[0]), Some((64, 64)));
    assert_eq!(module.handed_out_image(7).map(|v| v.len()), Some(64 * 64 * 4));
    let again = batch_cache_keys(&vec![request(0, some_parameters())]);
    assert_eq!(again, keys);
    assert!(module.render_cache().plan_batch(7, &again, 16).is_empty());
    assert_eq!(module.hand_out(7, again[0]), Some((64, 64)));
    assert_eq!(module.handed_out_image(7), Some(&vec![9u8; 64 * 64 * 4]));
}

#[test]
fn cache_keeps_only_the_window() {
    let mut cache = RenderCache::new();
    let keys = vec![10u64, 11, 12];
    assert_eq!(cache.plan_batch(1, &keys, 16), vec![0, 1, 2]);
    let responses = vec![success(1, 1, 1, 1), success(2, 1, 1, 2), success(3, 1, 1, 3)];
    assert_eq!(cache.store_batch(1, &keys, &keys, responses), Ok(()));
    assert!(cache.is_cached(1, 10) && cache.is_cached(1, 11) && cache.is_cached(1, 12));
    assert!(!cache.is_cached(2, 10));
    let next = vec![11u64, 12, 13];
    assert_eq!(cache.uncached_positions(1, &next), vec![2]);
    assert_eq!(cache.store_batch(1, &next, &vec![13], vec![success(4, 1, 1, 4)]), Ok(()));
    assert!(!cache.is_cached(1, 10));
    assert!(cache.is_cached(1, 13));
}

#[test]
fn first_frame_error_fails_the_call() {
    let mut cache = RenderCache::new();
    let keys = vec![20u64, 21, 22];
    let responses = vec![
        success(1, 1, 1, 1),
        RenderResponse { render_nonce: 2, response: RenderResponseData::Error("page failed".to_string()) },
    ];
    let rendered = vec![21u64, 20, 22];
    assert_eq!(cache.store_batch(3, &keys, &rendered, responses), Err("page failed".to_string()));
    assert!(cache.is_cached(3, 21));
    assert!(!cache.is_cached(3, 20));
}

#[test]
fn later_frame_error_is_tolerated() {
    let mut cache = RenderCache::new();
    let keys = vec![30u64, 31];
    let responses = vec![
        success(1, 2, 2, 1),
        RenderResponse { render_nonce: 2, response: RenderResponseData::Error("late".to_string()) },
    ];
    assert_eq!(cache.store_batch(4, &keys, &keys, responses), Ok(()));
    assert!(cache.is_cached(4, 30));
    assert!(!cache.is_cached(4, 31));
}

#[test]
fn free_and_clear() {
    let mut module = InternalModule::new();
    let keys = vec![40u64];
    assert_eq!(module.store_batch(5, &keys, &keys, vec![success(1, 1, 1, 7)]), Ok(()));
    assert_eq!(module.hand_out(5, 40), Some((1, 1)));
    assert_eq!(module.hand_out(5, 41), None);
    assert!(module.free_image(5));
    assert!(!module.free_image(5));
    assert_eq!(module.hand_out(5, 40), Some((1, 1)));
    clear_render_cache(&mut module);
    assert!(module.handed_out_image(5).is_none());
    assert!(!module.render_cache().is_cached(5, 40));
}
