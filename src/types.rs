//! The records exchanged with the host and the page.
//!
//! Floating-point quantities are carried as their IEEE-754 bit patterns
//! (`f64::to_bits`): the cache key is defined over those bits, and nothing in
//! this crate computes with them.
use vstd::prelude::*;

verus! {

/// Identity of a loaded project, as reported by the page after loading.
#[derive(Debug, Clone)]
pub struct InitializeResponse {
    pub project_name: String,
    pub renderer_version: String,
}

/// Step of a numeric parameter's editor control.
#[derive(Debug, Clone, Copy, PartialEq, Eq, Structural)]
pub enum NumberStep {
    One,
    PointOne,
    PointZeroOne,
    PointZeroZeroOne,
}

impl NumberStep {
    /// The step written as a decimal number.
    pub fn as_str(self) -> (r: &'static str)
        ensures
            self == NumberStep::One ==> r@ == "1"@,
            self == NumberStep::PointOne ==> r@ == "0.1"@,
            self == NumberStep::PointZeroOne ==> r@ == "0.01"@,
            self == NumberStep::PointZeroZeroOne ==> r@ == "0.001"@,
    {
        match self {
            NumberStep::One => "1",
            NumberStep::PointOne => "0.1",
            NumberStep::PointZeroOne => "0.01",
            NumberStep::PointZeroZeroOne => "0.001",
        }
    }
}

/// The type of a parameter an object declares; number bounds are `f64` bits.
#[derive(Debug, Clone, Copy, PartialEq, Eq, Structural)]
pub enum ParameterType {
    String,
    Text,
    Boolean,
    Number { step: NumberStep, min_bits: u64, max_bits: u64 },
    Color,
}

/// One parameter an object declares.
#[derive(Debug, Clone)]
pub struct ParameterDefinition {
    pub key: String,
    pub parameter_type: ParameterType,
    pub label: String,
    pub default_value: Option<Parameter>,
}

/// One object of the catalog that a page offers.
#[derive(Debug, Clone)]
pub struct ObjectInfo {
    pub id: String,
    pub label: String,
    pub parameter_definitions: Vec<ParameterDefinition>,
}

/// An RGBA color.
#[derive(Debug, Clone, Copy, PartialEq, Eq, Structural)]
pub struct Color {
    pub r: u8,
    pub g: u8,
    pub b: u8,
    pub a: u8,
}

impl Color {
    /// Splits a host color word laid out as `0xAARRGGBB`.
    pub fn from_argb(v: u32) -> (c: Color)
        ensures
            c.a == v / 16777216,
            c.r == (v / 65536) % 256,
            c.g == (v / 256) % 256,
            c.b == v % 256,
    {
        let a = ((v >> 24) & 0xff) as u8;
        let r = ((v >> 16) & 0xff) as u8;
        let g = ((v >> 8) & 0xff) as u8;
        let b = (v & 0xff) as u8;
        assert((v >> 24) & 0xff == v / 16777216) by (bit_vector);
        assert((v >> 16) & 0xff == (v / 65536) % 256) by (bit_vector);
        assert((v >> 8) & 0xff == (v / 256) % 256) by (bit_vector);
        assert(v & 0xff == v % 256) by (bit_vector);
        Color { r, g, b, a }
    }
}

/// The value of a parameter; a number is carried as its `f64` bits.
#[derive(Debug, Clone)]
pub enum ParameterValue {
    Str(String),
    Text(String),
    Number(u64),
    Bool(bool),
    Color(Color),
}

/// A parameter: a key and its value.
#[derive(Debug, Clone)]
pub struct Parameter {
    pub key: String,
    pub value: ParameterValue,
}

/// Scene and time context of one render; `x`, `y`, `z`, the times and the
/// framerate are `f64` bits.
#[derive(Debug, Clone, Copy, PartialEq, Eq, Structural)]
pub struct FrameInfo {
    pub x_bits: u64,
    pub y_bits: u64,
    pub z_bits: u64,
    pub screen_width: u64,
    pub screen_height: u64,
    pub current_frame: u64,
    pub current_time_bits: u64,
    pub total_frames: u64,
    pub total_time_bits: u64,
    pub framerate_bits: u64,
}

/// Draw one object at one frame with these parameter values.
#[derive(Debug, Clone)]
pub struct RenderRequest {
    pub object: String,
    pub object_id: i64,
    pub frame_info: FrameInfo,
    pub parameters: Vec<Parameter>,
}

/// Outcome of one render: an image or the page's error message.
#[derive(Debug, Clone)]
pub enum RenderResponseData {
    Success { width: i32, height: i32, image_data: Vec<u8> },
    Error(String),
}

/// Outcome of one render, tagged with the nonce of the sub-request it answers.
#[derive(Debug, Clone)]
pub struct RenderResponse {
    pub render_nonce: i32,
    pub response: RenderResponseData,
}

/// Severity of a log line that a page emits.
#[derive(Debug, Clone, Copy, PartialEq, Eq, Structural)]
pub enum LogNotificationLevel {
    Info,
    Warn,
    Error,
}

/// A log line that a page emits.
#[derive(Debug, Clone)]
pub struct LogNotification {
    pub level: LogNotificationLevel,
    pub message: String,
}

/// A new object catalog that a page announces.
#[derive(Debug, Clone)]
pub struct ObjectInfosNotification {
    pub object_infos: Vec<ObjectInfo>,
}

/// Out-of-band data that a page emits.
#[derive(Debug, Clone)]
pub enum Notification {
    Log(LogNotification),
    ObjectInfos(ObjectInfosNotification),
}

/// A field that a wire record must carry was absent.
#[derive(Debug, Clone, Copy, PartialEq, Eq, Structural)]
pub enum ConversionError {
    MissingRenderResponse,
    MissingParameterValue,
    MissingParameterType,
    MissingParameterTypeKind,
}

impl ConversionError {
    /// A human-readable description.
    pub fn message(self) -> (r: &'static str)
        ensures
            self == ConversionError::MissingRenderResponse ==> r@ == "missing render response"@,
            self == ConversionError::MissingParameterValue ==> r@ == "missing parameter value"@,
            self == ConversionError::MissingParameterType ==> r@ == "missing parameter type"@,
            self == ConversionError::MissingParameterTypeKind ==> r@ == "missing parameter type kind"@,
    {
        match self {
            ConversionError::MissingRenderResponse => "missing render response",
            ConversionError::MissingParameterValue => "missing parameter value",
            ConversionError::MissingParameterType => "missing parameter type",
            ConversionError::MissingParameterTypeKind => "missing parameter type kind",
        }
    }
}

impl Parameter {
    /// A parameter from a wire record whose value may be absent.
    pub fn from_wire(key: String, value: Option<ParameterValue>) -> (r: Result<Parameter, ConversionError>)
        ensures
            match value {
                Some(v) => r == Ok::<Parameter, ConversionError>(Parameter { key, value: v }),
                None => r == Err::<Parameter, ConversionError>(ConversionError::MissingParameterValue),
            },
    {
        match value {
            Some(v) => Ok(Parameter { key, value: v }),
            None => Err(ConversionError::MissingParameterValue),
        }
    }
}

impl RenderResponse {
    /// A response from a wire record whose outcome may be absent.
    pub fn from_wire(render_nonce: i32, response: Option<RenderResponseData>) -> (r: Result<
        RenderResponse,
        ConversionError,
    >)
        ensures
            match response {
                Some(d) => r == Ok::<RenderResponse, ConversionError>(RenderResponse { render_nonce, response: d }),
                None => r == Err::<RenderResponse, ConversionError>(ConversionError::MissingRenderResponse),
            },
    {
        match response {
            Some(d) => Ok(RenderResponse { render_nonce, response: d }),
            None => Err(ConversionError::MissingRenderResponse),
        }
    }
}

impl ParameterDefinition {
    /// A definition from a wire record: its type record may be absent, and so
    /// may the kind inside it.
    pub fn from_wire(
        key: String,
        label: String,
        parameter_type: Option<Option<ParameterType>>,
        default_value: Option<Parameter>,
    ) -> (r: Result<ParameterDefinition, ConversionError>)
        ensures
            match parameter_type {
                None => r == Err::<ParameterDefinition, ConversionError>(ConversionError::MissingParameterType),
                Some(None) => r == Err::<ParameterDefinition, ConversionError>(ConversionError::MissingParameterTypeKind),
                Some(Some(t)) => r == Ok::<ParameterDefinition, ConversionError>(
                    ParameterDefinition { key, parameter_type: t, label, default_value },
                ),
            },
    {
        match parameter_type {
            None => Err(ConversionError::MissingParameterType),
            Some(None) => Err(ConversionError::MissingParameterTypeKind),
            Some(Some(t)) => Ok(ParameterDefinition { key, parameter_type: t, label, default_value }),
        }
    }
}

/// The first error among converted items, or all of them in order.
pub open spec fn first_error<T>(items: Seq<Result<T, ConversionError>>) -> Option<ConversionError>
    decreases items.len(),
{
    if items.len() == 0 {
        None
    } else {
        match items[0] {
            Err(e) => Some(e),
            Ok(_) => first_error(items.drop_first()),
        }
    }
}

impl ObjectInfo {
    /// An object from a wire record whose definitions were converted one by
    /// one: the first failed definition fails the object.
    pub fn from_wire(
        id: String,
        label: String,
        definitions: Vec<Result<ParameterDefinition, ConversionError>>,
    ) -> (r: Result<ObjectInfo, ConversionError>)
        ensures
            match first_error(definitions@) {
                Some(e) => r == Err::<ObjectInfo, ConversionError>(e),
                None => r matches Ok(info) && info.id == id && info.label == label
                    && info.parameter_definitions@.len() == definitions@.len() && forall|i: int|
                    0 <= i < definitions@.len() ==> definitions@[i] == Ok::<ParameterDefinition, ConversionError>(
                        #[trigger] info.parameter_definitions@[i],
                    ),
            },
    {
        let ghost all = definitions@;
        let mut rest = definitions;
        let mut out: Vec<ParameterDefinition> = Vec::new();
        while rest.len() > 0
            invariant
                all == definitions@,
                out@.len() + rest@.len() == all.len(),
                rest@ == all.skip(out@.len() as int),
                first_error(all) == first_error(rest@),
                forall|i: int| 0 <= i < out@.len() ==> all[i] == Ok::<ParameterDefinition, ConversionError>(#[trigger] out@[i]),
            decreases rest@.len(),
        {
            let ghost k = out@.len() as int;
            let ghost before = rest@;
            let item = rest.remove(0);
            proof {
                assert(item == all[k]);
                assert(rest@ =~= all.skip(k + 1));
                assert(before.drop_first() =~= rest@);
                assert(before[0] == item);
            }
            match item {
                Ok(d) => out.push(d),
                Err(e) => {
                    proof {
                        assert(first_error(before) == Some(e));
                    }
                    return Err(e);
                },
            }
        }
        Ok(ObjectInfo { id, label, parameter_definitions: out })
    }
}

} // verus!
