//! Requests as the host editor describes them, turned into render requests.
use vstd::prelude::*;
use crate::cache::CallError;
use crate::types::{Color, FrameInfo, Parameter, ParameterValue, RenderRequest};

verus! {

/// A parameter value as the host sends it: numbers as `f64` bits, colors as
/// `0xAARRGGBB` words.
#[derive(Debug, Clone)]
pub enum HostParameter {
    Str(String),
    Text(String),
    Number(u64),
    Bool(bool),
    Color(u32),
}

/// The host's frame context; position, times and framerate as `f64` bits.
#[derive(Debug, Clone, Copy, PartialEq, Eq, Structural)]
pub struct HostFrameInfo {
    pub x_bits: u64,
    pub y_bits: u64,
    pub z_bits: u64,
    pub canvas_width: i32,
    pub canvas_height: i32,
    pub current_frame: i32,
    pub current_time_bits: u64,
    pub total_frames: i32,
    pub total_time_bits: u64,
    pub framerate_bits: u64,
}

/// The color that a host color word stands for.
pub open spec fn color_of(v: u32) -> Color {
    Color {
        r: ((v / 65536) % 256) as u8,
        g: ((v / 256) % 256) as u8,
        b: (v % 256) as u8,
        a: (v / 16777216) as u8,
    }
}

/// The parameter value that a host value stands for.
pub open spec fn value_of(h: HostParameter) -> ParameterValue {
    match h {
        HostParameter::Str(s) => ParameterValue::Str(s),
        HostParameter::Text(s) => ParameterValue::Text(s),
        HostParameter::Number(bits) => ParameterValue::Number(bits),
        HostParameter::Bool(b) => ParameterValue::Bool(b),
        HostParameter::Color(c) => ParameterValue::Color(color_of(c)),
    }
}

/// The frame context that the host's stands for; sizes and frame counts are
/// widened as two's-complement words.
pub open spec fn frame_of(h: HostFrameInfo) -> FrameInfo {
    FrameInfo {
        x_bits: h.x_bits,
        y_bits: h.y_bits,
        z_bits: h.z_bits,
        screen_width: h.canvas_width as u64,
        screen_height: h.canvas_height as u64,
        current_frame: h.current_frame as u64,
        current_time_bits: h.current_time_bits,
        total_frames: h.total_frames as u64,
        total_time_bits: h.total_time_bits,
        framerate_bits: h.framerate_bits,
    }
}

/// `r` is the request for `object` and `effect_id` with these parameters and
/// frame context.
pub open spec fn request_of(
    r: RenderRequest,
    object: String,
    effect_id: i32,
    params: Seq<(String, HostParameter)>,
    frame: HostFrameInfo,
) -> bool {
    &&& r.object == object
    &&& r.object_id == effect_id as i64
    &&& r.frame_info == frame_of(frame)
    &&& r.parameters@.len() == params.len()
    &&& forall|i: int|
        0 <= i < params.len() ==> (#[trigger] r.parameters@[i]).key == params[i].0
            && r.parameters@[i].value == value_of(params[i].1)
}

/// Converts one host value.
pub fn convert_value(h: HostParameter) -> (r: ParameterValue)
    ensures
        r == value_of(h),
{
    match h {
        HostParameter::Str(s) => ParameterValue::Str(s),
        HostParameter::Text(s) => ParameterValue::Text(s),
        HostParameter::Number(bits) => ParameterValue::Number(bits),
        HostParameter::Bool(b) => ParameterValue::Bool(b),
        HostParameter::Color(c) => ParameterValue::Color(Color::from_argb(c)),
    }
}

/// Converts the host's frame context.
pub fn convert_frame(h: &HostFrameInfo) -> (r: FrameInfo)
    ensures
        r == frame_of(*h),
{
    FrameInfo {
        x_bits: h.x_bits,
        y_bits: h.y_bits,
        z_bits: h.z_bits,
        screen_width: #[verifier::truncate] (h.canvas_width as u64),
        screen_height: #[verifier::truncate] (h.canvas_height as u64),
        current_frame: #[verifier::truncate] (h.current_frame as u64),
        current_time_bits: h.current_time_bits,
        total_frames: #[verifier::truncate] (h.total_frames as u64),
        total_time_bits: h.total_time_bits,
        framerate_bits: h.framerate_bits,
    }
}

/// The render request for one frame of an object, as the host describes it.
pub fn build_render_request(
    object_name: String,
    effect_id: i32,
    params: Vec<(String, HostParameter)>,
    frame_info: &HostFrameInfo,
) -> (r: RenderRequest)
    ensures
        request_of(r, object_name, effect_id, params@, *frame_info),
{
    let ghost all = params@;
    let mut rest = params;
    let mut parameters: Vec<Parameter> = Vec::new();
    while rest.len() > 0
        invariant
            parameters@.len() + rest@.len() == all.len(),
            rest@ == all.skip(parameters@.len() as int),
            forall|i: int|
                0 <= i < parameters@.len() ==> (#[trigger] parameters@[i]).key == all[i].0
                    && parameters@[i].value == value_of(all[i].1),
        decreases rest@.len(),
    {
        let ghost k = parameters@.len() as int;
        let (key, value) = rest.remove(0);
        proof {
            assert(all[k] == (key, value));
            assert(rest@ =~= all.skip(k + 1));
        }
        parameters.push(Parameter { key, value: convert_value(value) });
    }
    RenderRequest {
        object: object_name,
        object_id: effect_id as i64,
        frame_info: convert_frame(frame_info),
        parameters,
    }
}

/// The requests of a host batch: parameters and frame contexts pair up in
/// order; lists of different lengths are refused.
pub fn build_batch_requests(
    object_name: &String,
    effect_id: i32,
    params: Vec<Vec<(String, HostParameter)>>,
    frames: &Vec<HostFrameInfo>,
) -> (r: Result<Vec<RenderRequest>, CallError>)
    ensures
        params@.len() != frames@.len() ==> r == Err::<Vec<RenderRequest>, CallError>(
            CallError::MismatchedBatch { params: params@.len() as usize, frames: frames@.len() as usize },
        ),
        params@.len() == frames@.len() ==> match r {
            Ok(v) => v@.len() == params@.len() && forall|i: int|
                0 <= i < v@.len() ==> request_of(
                    #[trigger] v@[i],
                    *object_name,
                    effect_id,
                    params@[i]@,
                    frames@[i],
                ),
            Err(_) => false,
        },
{
    if params.len() != frames.len() {
        return Err(CallError::MismatchedBatch { params: params.len(), frames: frames.len() });
    }
    let ghost all = params@;
    let mut rest = params;
    let mut out: Vec<RenderRequest> = Vec::new();
    while rest.len() > 0
        invariant
            all.len() == frames@.len(),
            out@.len() + rest@.len() == all.len(),
            rest@ == all.skip(out@.len() as int),
            forall|i: int|
                0 <= i < out@.len() ==> request_of(
                    #[trigger] out@[i],
                    *object_name,
                    effect_id,
                    all[i]@,
                    frames@[i],
                ),
        decreases rest@.len(),
    {
        let ghost k = out@.len() as int;
        let p = rest.remove(0);
        proof {
            assert(all[k] == p);
            assert(rest@ =~= all.skip(k + 1));
        }
        let i = out.len();
        let request = build_render_request(object_name.clone(), effect_id, p, &frames[i]);
        out.push(request);
    }
    Ok(out)
}

} // verus!
