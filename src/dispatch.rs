//! The paint dispatch table: which logical request waits on which nonce, and
//! the routing of each paint to it.
//!
//! The page answers a request by painting a frame tagged with the request's
//! nonce. A paint without the protocol marker is unrelated compositor activity
//! and is ignored; a paint whose nonce nobody waits on is dropped. A batch may
//! be answered over several paints: each delivery either leaves the nonce
//! registered for more, or completes it and removes it.
use dashmap::DashMap;
use vstd::prelude::*;
use vstd::string::StringExecFns;
use crate::capture::{copy_rows, pack_rows, rows_copyable, strided_rows};
use crate::codec::{frame_message, frame_nonce, has_frame_marker, has_marker, read_frame_nonce, read_message_from_image};
use crate::types::{InitializeResponse, RenderResponse, RenderResponseData};

verus! {

/// `dashmap::DashMap`, the concurrent map that holds the registrations; its
/// contents are known only through [`registrations`].
#[verifier::external_type_specification]
#[verifier::external_body]
#[verifier::reject_recursive_types(K)]
#[verifier::reject_recursive_types(V)]
#[verifier::reject_recursive_types(S)]
pub struct ExDashMap<K, V, S>(DashMap<K, V, S>);

/// Relies on `rand::random` to draw a value from the thread-local generator;
/// nothing is assumed of the value drawn.
pub assume_specification<T>[ rand::random::<T> ]() -> (r: T)
    where
        rand::distributions::Standard: rand::distributions::Distribution<T>,
;

/// The reserved control nonce on which the page reports its initialization.
pub const CONTROL_NONCE: u32 = 0;

/// Nonces up to this value are reserved for control messages.
pub const RESERVED_NONCE_MAX: u32 = 1024;

/// How many random nonces a batch draws before giving up.
pub const NONCE_ATTEMPTS: u32 = 64;

/// What waits on a nonce.
#[derive(Debug, Clone, Copy, PartialEq, Eq, Structural)]
pub enum HandlerKind {
    /// The page's initialization report, on the reserved control nonce.
    Control,
    /// A streamed batch of render results.
    Batch,
}

/// What a dispatch map holds.
pub uninterp spec fn registrations(m: DashMap<u32, HandlerKind>) -> Map<u32, HandlerKind>;

/// The empty table.
pub open spec fn no_registrations() -> Map<u32, HandlerKind> {
    Map::empty()
}

/// Relies on `DashMap::new`: a new map holds nothing.
#[verifier::external_body]
fn map_new() -> (r: DashMap<u32, HandlerKind>)
    ensures
        registrations(r) == no_registrations(),
{
    DashMap::new()
}

/// Relies on `DashMap::insert`: the key now maps to the value; the value it
/// replaced, if any, is returned.
#[verifier::external_body]
fn map_insert(m: &mut DashMap<u32, HandlerKind>, k: u32, v: HandlerKind) -> (r: Option<HandlerKind>)
    ensures
        registrations(*final(m)) == registrations(*old(m)).insert(k, v),
        r == (if registrations(*old(m)).contains_key(k) {
            Some(registrations(*old(m))[k])
        } else {
            None
        }),
{
    m.insert(k, v)
}

/// Relies on `DashMap::remove`: the key is gone; its entry, if any, is returned.
#[verifier::external_body]
fn map_remove(m: &mut DashMap<u32, HandlerKind>, k: u32) -> (r: Option<(u32, HandlerKind)>)
    ensures
        registrations(*final(m)) == registrations(*old(m)).remove(k),
        r == (if registrations(*old(m)).contains_key(k) {
            Some((k, registrations(*old(m))[k]))
        } else {
            None
        }),
{
    m.remove(&k)
}

/// Relies on `DashMap::get`: the value under the key, if any.
#[verifier::external_body]
fn map_get(m: &DashMap<u32, HandlerKind>, k: u32) -> (r: Option<HandlerKind>)
    ensures
        r == (if registrations(*m).contains_key(k) {
            Some(registrations(*m)[k])
        } else {
            None
        }),
{
    m.get(&k).map(|entry| *entry.value())
}

/// Relies on `DashMap::clear`: the map holds nothing afterwards.
#[verifier::external_body]
fn map_clear(m: &mut DashMap<u32, HandlerKind>)
    ensures
        registrations(*final(m)) == no_registrations(),
{
    m.clear()
}

/// Outcome of one rendered item as the page reports it: a region of the
/// painted frame, or an error message.
#[derive(Debug, Clone)]
pub enum RegionOutcome {
    Rendered { x: i32, y: i32, width: i32, height: i32 },
    Failed(String),
}

/// One item of a batch reply, tagged with the sub-request's nonce.
#[derive(Debug, Clone)]
pub struct SingleRenderReply {
    pub nonce: i32,
    pub outcome: RegionOutcome,
}

/// What one painted frame reports for a batch; `is_incomplete` when more
/// frames will follow.
#[derive(Debug, Clone)]
pub struct BatchReply {
    pub items: Vec<SingleRenderReply>,
    pub is_incomplete: bool,
}

/// A frame's message, decoded: the page's initialization report, a batch
/// reply, or a failure the page reports for the nonce. Frames that cannot be
/// decoded are not delivered at all.
#[derive(Debug, Clone)]
pub enum PageReply {
    Initialized(InitializeResponse),
    Rendered(BatchReply),
    Failed(String),
}

/// Where a paint goes.
#[derive(Debug)]
pub enum PaintRoute {
    /// Not a protocol frame (no marker, or too short): ignored.
    NotAFrame,
    /// Tagged with a nonce that nobody waits on: dropped.
    Unmatched(u32),
    /// For a registered nonce: the packed frame and its message, if it holds one.
    Matched { nonce: u32, kind: HandlerKind, frame: Vec<u8>, message: Option<Vec<u8>> },
}

/// What a delivery produced.
#[derive(Debug)]
pub enum Delivery {
    /// Nobody waits on the nonce.
    Unmatched,
    /// The control nonce completed with the page's report or an error.
    Initialized(Result<InitializeResponse, String>),
    /// Results for a batch; `complete` when the nonce is done and removed.
    Batch { responses: Vec<RenderResponse>, complete: bool },
}

/// Byte offset of pixel `(x, y)` in a packed frame `fw` pixels wide.
pub open spec fn region_offset(fw: int, x: int, y: int) -> int {
    (y * fw + x) * 4
}

/// Whether a region lies within a packed frame of `len` bytes, `fw` pixels wide.
pub open spec fn region_fits(len: int, fw: int, x: int, y: int, w: int, h: int) -> bool {
    &&& 0 <= x && 0 <= y && 0 <= w && 0 <= h
    &&& x + w <= fw
    &&& rows_copyable(len, region_offset(fw, x, y), fw * 4, w * 4, h)
}

/// The pixels of a region, row by row.
pub open spec fn region_bytes(frame: Seq<u8>, fw: int, x: int, y: int, w: int, h: int) -> Seq<u8> {
    strided_rows(frame, region_offset(fw, x, y), fw * 4, w * 4, h)
}

/// `r` is the response that `item` calls for, cut from `frame`.
pub open spec fn answers(r: RenderResponse, frame: Seq<u8>, fw: int, item: SingleRenderReply) -> bool {
    &&& r.render_nonce == item.nonce
    &&& match item.outcome {
        RegionOutcome::Rendered { x, y, width, height } => if region_fits(
            frame.len() as int,
            fw,
            x as int,
            y as int,
            width as int,
            height as int,
        ) {
            match r.response {
                RenderResponseData::Success { width: w, height: h, image_data } => w == width && h
                    == height && image_data@ == region_bytes(
                    frame,
                    fw,
                    x as int,
                    y as int,
                    width as int,
                    height as int,
                ),
                RenderResponseData::Error(_) => false,
            }
        } else {
            r.response is Error
        },
        RegionOutcome::Failed(m) => r.response == RenderResponseData::Error(m),
    }
}

/// Whether a paint tagged `nonce` reaches a registration.
pub open spec fn routes_to(t: Map<u32, HandlerKind>, nonce: u32) -> bool {
    t.contains_key(nonce)
}

/// `r` is where a paint of `height` rows of `width` pixels, rows `stride`
/// bytes apart, goes: nowhere without the marker and a nonce, dropped when no
/// one waits on the nonce, else to the registration with the packed frame and
/// the message it holds.
pub open spec fn paint_routed(
    t: Map<u32, HandlerKind>,
    buffer: Seq<u8>,
    width: int,
    height: int,
    stride: int,
    r: PaintRoute,
) -> bool {
    if !has_marker(buffer) {
        r is NotAFrame
    } else {
        match frame_nonce(buffer) {
            None => r is NotAFrame,
            Some(n) => if !routes_to(t, n) {
                r == PaintRoute::Unmatched(n)
            } else {
                match r {
                    PaintRoute::Matched { nonce, kind, frame, message } => {
                        &&& nonce == n
                        &&& kind == t[n]
                        &&& width * 4 <= usize::MAX
                        &&& rows_copyable(buffer.len() as int, 0, stride, width * 4, height)
                        &&& frame@ == strided_rows(buffer, 0, stride, width * 4, height)
                        &&& match message {
                            Some(m) => frame_message(frame@) == Some(m@),
                            None => frame_message(frame@) is None,
                        }
                    },
                    PaintRoute::NotAFrame => width * 4 > usize::MAX || !rows_copyable(
                        buffer.len() as int,
                        0,
                        stride,
                        width * 4,
                        height,
                    ),
                    PaintRoute::Unmatched(_) => false,
                }
            },
        }
    }
}

/// Whether `nonce` can be registered.
pub open spec fn accepts_registration(t: Map<u32, HandlerKind>, nonce: u32) -> bool {
    !t.contains_key(nonce)
}

/// Cuts a region out of a packed frame `frame_width` pixels wide.
pub fn crop_region(frame: &[u8], frame_width: usize, x: i32, y: i32, w: i32, h: i32) -> (r: Option<
    Vec<u8>,
>)
    requires
        frame_width * 4 <= usize::MAX,
    ensures
        match r {
            Some(v) => region_fits(frame@.len() as int, frame_width as int, x as int, y as int, w as int, h as int)
                && v@ == region_bytes(frame@, frame_width as int, x as int, y as int, w as int, h as int),
            None => !region_fits(frame@.len() as int, frame_width as int, x as int, y as int, w as int, h as int),
        },
{
    if x < 0 || y < 0 || w < 0 || h < 0 {
        return None;
    }
    if x as u128 + w as u128 > frame_width as u128 {
        return None;
    }
    proof {
        vstd::arithmetic::mul::lemma_mul_inequality(y as int, 0x7fff_ffff, frame_width as int);
        vstd::arithmetic::mul::lemma_mul_inequality(frame_width as int, 0xffff_ffff_ffff_ffff, 0x7fff_ffff);
    }
    let offset: u128 = (y as u128 * frame_width as u128 + x as u128) * 4;
    if offset > usize::MAX as u128 {
        if w == 0 || h == 0 {
            let empty: Vec<u8> = Vec::new();
            proof {
                assert((h as int) * ((w as int) * 4) == 0) by (nonlinear_arith)
                    requires
                        w == 0 || h == 0,
                ;
                assert(empty@ =~= region_bytes(frame@, frame_width as int, x as int, y as int, w as int, h as int));
            }
            return Some(empty);
        }
        let len = frame.len();
        proof {
            assert(((h as int) - 1) * ((frame_width as int) * 4) >= 0) by (nonlinear_arith)
                requires
                    h >= 1,
                    frame_width >= 0,
            ;
        }
        return None;
    }
    copy_rows(frame, offset as usize, frame_width * 4, w as usize * 4, h as usize)
}

/// The responses that a batch reply calls for, in order.
pub fn responses_from(frame: &[u8], frame_width: usize, items: Vec<SingleRenderReply>) -> (r: Vec<
    RenderResponse,
>)
    requires
        frame_width * 4 <= usize::MAX,
    ensures
        r@.len() == items@.len(),
        forall|i: int| 0 <= i < r@.len() ==> answers(#[trigger] r@[i], frame@, frame_width as int, items@[i]),
{
    let ghost all = items@;
    let mut rest = items;
    let mut out: Vec<RenderResponse> = Vec::new();
    while rest.len() > 0
        invariant
            frame_width * 4 <= usize::MAX,
            out@.len() + rest@.len() == all.len(),
            rest@ == all.skip(out@.len() as int),
            forall|i: int| 0 <= i < out@.len() ==> answers(#[trigger] out@[i], frame@, frame_width as int, all[i]),
        decreases rest@.len(),
    {
        let ghost k = out@.len() as int;
        let item = rest.remove(0);
        proof {
            assert(item == all[k]);
            assert(rest@ =~= all.skip(k + 1));
        }
        let response = match item.outcome {
            RegionOutcome::Rendered { x, y, width, height } => match crop_region(frame, frame_width, x, y, width, height) {
                Some(image_data) => RenderResponseData::Success { width, height, image_data },
                None => {
                    let mut m = String::new();
                    m.append("rendered region lies outside the frame");
                    RenderResponseData::Error(m)
                },
            },
            RegionOutcome::Failed(m) => RenderResponseData::Error(m),
        };
        out.push(RenderResponse { render_nonce: item.nonce, response });
    }
    out
}

/// Nonce registrations, shared by the paint path and the request path.
pub struct PaintDispatchTable {
    entries: DashMap<u32, HandlerKind>,
}

impl View for PaintDispatchTable {
    type V = Map<u32, HandlerKind>;

    closed spec fn view(&self) -> Map<u32, HandlerKind> {
        registrations(self.entries)
    }
}

impl PaintDispatchTable {
    /// An empty table.
    pub fn new() -> (r: PaintDispatchTable)
        ensures
            r@ == no_registrations(),
    {
        PaintDispatchTable { entries: map_new() }
    }

    /// What waits on `nonce`, if anything.
    pub fn lookup(&self, nonce: u32) -> (r: Option<HandlerKind>)
        ensures
            r == (if self@.contains_key(nonce) { Some(self@[nonce]) } else { None }),
    {
        map_get(&self.entries, nonce)
    }

    /// Registers `kind` on `nonce`; refused, leaving the table unchanged, when
    /// the nonce is already registered.
    pub fn register(&mut self, nonce: u32, kind: HandlerKind) -> (r: Result<(), HandlerKind>)
        ensures
            r is Ok <==> accepts_registration(old(self)@, nonce),
            r is Ok ==> final(self)@ == old(self)@.insert(nonce, kind),
            r matches Err(k) ==> final(self)@ == old(self)@ && k == old(self)@[nonce],
    {
        match map_get(&self.entries, nonce) {
            Some(existing) => Err(existing),
            None => {
                map_insert(&mut self.entries, nonce, kind);
                Ok(())
            },
        }
    }

    /// Removes the registration on `nonce`, as a timeout does; `false` when
    /// there was none.
    pub fn unregister(&mut self, nonce: u32) -> (r: bool)
        ensures
            r == old(self)@.contains_key(nonce),
            final(self)@ == old(self)@.remove(nonce),
    {
        map_remove(&mut self.entries, nonce).is_some()
    }

    /// Prepares for a page (re)load: every registration is dropped and the
    /// control nonce is registered.
    pub fn reset_for_load(&mut self)
        ensures
            final(self)@ == no_registrations().insert(CONTROL_NONCE, HandlerKind::Control),
    {
        map_clear(&mut self.entries);
        map_insert(&mut self.entries, CONTROL_NONCE, HandlerKind::Control);
    }

    /// Registers a batch on `candidate` when it lies above the reserved range
    /// and is free.
    pub fn try_reserve(&mut self, candidate: u32) -> (r: bool)
        ensures
            r == (candidate > RESERVED_NONCE_MAX && accepts_registration(old(self)@, candidate)),
            r ==> final(self)@ == old(self)@.insert(candidate, HandlerKind::Batch),
            !r ==> final(self)@ == old(self)@,
    {
        if candidate <= RESERVED_NONCE_MAX {
            return false;
        }
        self.register(candidate, HandlerKind::Batch).is_ok()
    }

    /// Draws random nonces until one can be reserved for a batch; `None` when
    /// every draw was reserved or taken.
    pub fn reserve_nonce(&mut self) -> (r: Option<u32>)
        ensures
            match r {
                Some(n) => n > RESERVED_NONCE_MAX && accepts_registration(old(self)@, n)
                    && final(self)@ == old(self)@.insert(n, HandlerKind::Batch),
                None => final(self)@ == old(self)@,
            },
    {
        let mut attempt: u32 = 0;
        while attempt < NONCE_ATTEMPTS
            invariant
                self@ == old(self)@,
            decreases NONCE_ATTEMPTS - attempt,
        {
            let candidate: u32 = rand::random::<u32>();
            if self.try_reserve(candidate) {
                return Some(candidate);
            }
            attempt = attempt + 1;
        }
        None
    }

    /// Routes a paint whose rows are `bytes_per_row` bytes apart.
    pub fn on_paint(&self, buffer: &[u8], width: usize, height: usize, bytes_per_row: usize) -> (r:
        PaintRoute)
        ensures
            paint_routed(self@, buffer@, width as int, height as int, bytes_per_row as int, r),
    {
        if !has_frame_marker(buffer) {
            return PaintRoute::NotAFrame;
        }
        let nonce = match read_frame_nonce(buffer) {
            Some(n) => n,
            None => return PaintRoute::NotAFrame,
        };
        let kind = match self.lookup(nonce) {
            Some(k) => k,
            None => return PaintRoute::Unmatched(nonce),
        };
        let frame = match pack_rows(buffer, width, height, bytes_per_row) {
            Some(f) => f,
            None => return PaintRoute::NotAFrame,
        };
        let message = read_message_from_image(frame.as_slice());
        PaintRoute::Matched { nonce, kind, frame, message }
    }

    /// Routes a software paint, whose rows are tightly packed.
    pub fn on_software_paint(&self, buffer: &[u8], width: usize, height: usize) -> (r: PaintRoute)
        ensures
            paint_routed(self@, buffer@, width as int, height as int, width * 4, r),
    {
        if width > usize::MAX / 4 {
            if !has_frame_marker(buffer) {
                return PaintRoute::NotAFrame;
            }
            return match read_frame_nonce(buffer) {
                Some(n) => match self.lookup(n) {
                    Some(_) => PaintRoute::NotAFrame,
                    None => PaintRoute::Unmatched(n),
                },
                None => PaintRoute::NotAFrame,
            };
        }
        self.on_paint(buffer, width, height, width * 4)
    }

    /// Hands a decoded frame to what waits on `nonce`.
    ///
    /// The control nonce completes on its first delivery. A batch gets the
    /// responses the reply calls for and stays registered while the reply says
    /// more frames follow; a reported failure ends it.
    pub fn deliver(&mut self, nonce: u32, frame: &[u8], frame_width: usize, reply: PageReply) -> (r:
        Delivery)
        requires
            frame_width * 4 <= usize::MAX,
        ensures
            !routes_to(old(self)@, nonce) ==> r is Unmatched && final(self)@ == old(self)@,
            routes_to(old(self)@, nonce) && old(self)@[nonce] == HandlerKind::Control ==> {
                &&& final(self)@ == old(self)@.remove(nonce)
                &&& match reply {
                    PageReply::Initialized(info) => r == Delivery::Initialized(Ok(info)),
                    PageReply::Failed(e) => r == Delivery::Initialized(Err(e)),
                    PageReply::Rendered(_) => r matches Delivery::Initialized(Err(_)),
                }
            },
            routes_to(old(self)@, nonce) && old(self)@[nonce] == HandlerKind::Batch ==> match reply {
                PageReply::Rendered(b) => {
                    &&& final(self)@ == (if b.is_incomplete {
                        old(self)@
                    } else {
                        old(self)@.remove(nonce)
                    })
                    &&& match r {
                        Delivery::Batch { responses, complete } => {
                            &&& complete == !b.is_incomplete
                            &&& responses@.len() == b.items@.len()
                            &&& forall|i: int|
                                0 <= i < responses@.len() ==> answers(
                                    #[trigger] responses@[i],
                                    frame@,
                                    frame_width as int,
                                    b.items@[i],
                                )
                        },
                        _ => false,
                    }
                },
                _ => final(self)@ == old(self)@.remove(nonce) && (r matches Delivery::Batch {
                    responses,
                    complete,
                } && complete && responses@.len() == 0),
            },
    {
        let kind = match self.lookup(nonce) {
            Some(k) => k,
            None => return Delivery::Unmatched,
        };
        match kind {
            HandlerKind::Control => {
                self.unregister(nonce);
                match reply {
                    PageReply::Initialized(info) => Delivery::Initialized(Ok(info)),
                    PageReply::Failed(e) => Delivery::Initialized(Err(e)),
                    PageReply::Rendered(_) => {
                        let mut m = String::new();
                        m.append("unexpected batch reply on the control nonce");
                        Delivery::Initialized(Err(m))
                    },
                }
            },
            HandlerKind::Batch => match reply {
                PageReply::Rendered(b) => {
                    let complete = !b.is_incomplete;
                    let responses = responses_from(frame, frame_width, b.items);
                    if complete {
                        self.unregister(nonce);
                    }
                    Delivery::Batch { responses, complete }
                },
                _ => {
                    self.unregister(nonce);
                    Delivery::Batch { responses: Vec::new(), complete: true }
                },
            },
        }
    }
}

/// A nonce is never held by two registrations: once a nonce is registered,
/// registering it again is refused, whatever is registered.
pub proof fn lemma_register_twice_refused(t: Map<u32, HandlerKind>, nonce: u32, kind: HandlerKind)
    ensures
        !accepts_registration(t.insert(nonce, kind), nonce),
{
}

/// Once a nonce has been removed, as its timeout does, a later paint tagged
/// with it reaches nothing and is dropped as unmatched.
pub proof fn lemma_expired_nonce_unmatched(t: Map<u32, HandlerKind>, nonce: u32)
    ensures
        !routes_to(t.remove(nonce), nonce),
{
}

} // verus!
