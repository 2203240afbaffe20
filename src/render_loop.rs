//! The render loop's decisions: the initialization state machine, batch
//! admission, and what each delivered frame means for the waiting caller.
//!
//! The caller owns the browser: it loads the page, runs scripts, pumps the
//! browser's message loop between short sleeps, and hands every paint to
//! [`RenderLoop::on_paint`]. Every wait is bounded; a wait that runs out
//! removes its registration so that a late paint finds nothing.
use vstd::prelude::*;
use vstd::string::StringExecFns;
use crate::dispatch::{
    answers, paint_routed, Delivery, HandlerKind, PageReply, PaintDispatchTable, PaintRoute, CONTROL_NONCE,
    RESERVED_NONCE_MAX,
};
use crate::types::{InitializeResponse, RenderResponse};

verus! {

/// How long initialization may take, in milliseconds.
pub const INITIALIZE_TIMEOUT_MS: u64 = 30000;

/// How long a batch render may take, in milliseconds.
pub const BATCH_TIMEOUT_MS: u64 = 30000;

/// Sleep between message-loop pumps while initializing, in milliseconds.
pub const INITIALIZE_POLL_MS: u64 = 10;

/// Sleep between message-loop pumps while rendering, in milliseconds.
pub const BATCH_POLL_MS: u64 = 5;

/// Where initialization stands.
#[derive(Debug)]
pub enum LoopState {
    Uninitialized,
    Loading,
    Ready(InitializeResponse),
    Failed(String),
}

/// Why an operation of the render loop failed.
#[derive(Debug, Clone, PartialEq, Eq)]
pub enum RenderError {
    /// No page has been loaded, or it is still loading.
    NotInitialized,
    /// The page failed to load; the message says why.
    InitializationFailed(String),
    /// Every nonce drawn for a batch was reserved or taken.
    NoFreeNonce,
}

/// What a delivered frame meant.
#[derive(Debug)]
pub enum LoopEvent {
    /// Nobody waited on the frame's nonce.
    Ignored,
    /// The control nonce answered; `true` when the page is now ready.
    Initialized(bool),
    /// Results for the batch on the frame's nonce; `complete` when it is done.
    Batch { responses: Vec<RenderResponse>, complete: bool },
}

/// Whether a wait that started `elapsed_ms` ago has run out.
pub open spec fn expired(elapsed_ms: u64, limit_ms: u64) -> bool {
    elapsed_ms > limit_ms
}

/// The render loop's own state: initialization and the dispatch table.
pub struct RenderLoop {
    state: LoopState,
    table: PaintDispatchTable,
}

impl RenderLoop {
    /// Where initialization stands.
    pub closed spec fn state(&self) -> LoopState {
        self.state
    }

    /// The registrations.
    pub closed spec fn table(&self) -> Map<u32, HandlerKind> {
        self.table@
    }

    /// A render loop with no page loaded.
    pub fn new() -> (r: RenderLoop)
        ensures
            r.state() is Uninitialized,
            r.table() == Map::<u32, HandlerKind>::empty(),
    {
        RenderLoop { state: LoopState::Uninitialized, table: PaintDispatchTable::new() }
    }

    /// Starts a page (re)load: forgets the previous outcome, drops every
    /// registration and registers the control nonce.
    pub fn begin_initialize(&mut self)
        ensures
            final(self).state() is Loading,
            final(self).table() == Map::<u32, HandlerKind>::empty().insert(
                CONTROL_NONCE,
                HandlerKind::Control,
            ),
    {
        self.state = LoopState::Loading;
        self.table.reset_for_load();
    }

    /// Routes a paint whose rows are `bytes_per_row` bytes apart.
    pub fn on_paint(&self, buffer: &[u8], width: usize, height: usize, bytes_per_row: usize) -> (r:
        PaintRoute)
        ensures
            paint_routed(self.table(), buffer@, width as int, height as int, bytes_per_row as int, r),
    {
        self.table.on_paint(buffer, width, height, bytes_per_row)
    }

    /// Routes a software paint, whose rows are tightly packed.
    pub fn on_software_paint(&self, buffer: &[u8], width: usize, height: usize) -> (r: PaintRoute)
        ensures
            paint_routed(self.table(), buffer@, width as int, height as int, width * 4, r),
    {
        self.table.on_software_paint(buffer, width, height)
    }

    /// Hands a decoded frame to what waits on `nonce`. The first report on the
    /// control nonce while loading decides the state: ready with the page's
    /// information, or failed with the error.
    pub fn deliver(&mut self, nonce: u32, frame: &[u8], frame_width: usize, reply: PageReply) -> (r:
        LoopEvent)
        requires
            frame_width * 4 <= usize::MAX,
        ensures
            !old(self).table().contains_key(nonce) ==> r is Ignored && final(self).table()
                == old(self).table() && final(self).state() == old(self).state(),
            old(self).table().contains_key(nonce) && old(self).table()[nonce]
                == HandlerKind::Control ==> {
                &&& final(self).table() == old(self).table().remove(nonce)
                &&& old(self).state() is Loading ==> match reply {
                    PageReply::Initialized(info) => final(self).state() == LoopState::Ready(info)
                        && r == LoopEvent::Initialized(true),
                    PageReply::Failed(e) => final(self).state() == LoopState::Failed(e)
                        && r == LoopEvent::Initialized(false),
                    PageReply::Rendered(_) => final(self).state() is Failed && r
                        == LoopEvent::Initialized(false),
                }
                &&& !(old(self).state() is Loading) ==> final(self).state() == old(self).state()
            },
            old(self).table().contains_key(nonce) && old(self).table()[nonce] == HandlerKind::Batch
                ==> {
                &&& final(self).state() == old(self).state()
                &&& match reply {
                    PageReply::Rendered(b) => {
                        &&& final(self).table() == (if b.is_incomplete {
                            old(self).table()
                        } else {
                            old(self).table().remove(nonce)
                        })
                        &&& match r {
                            LoopEvent::Batch { responses, complete } => {
                                &&& complete == !b.is_incomplete
                                &&& responses@.len() == b.items@.len()
                                &&& forall|i: int|
                                    0 <= i < responses@.len() ==> answers(
                                        #[trigger] responses@[i],
                                        frame@,
                                        frame_width as int,
                                        b.items@[i],
                                    )
                            },
                            _ => false,
                        }
                    },
                    _ => final(self).table() == old(self).table().remove(nonce) && (r matches LoopEvent::Batch {
                        responses,
                        complete,
                    } && complete && responses@.len() == 0),
                }
            },
    {
        match self.table.deliver(nonce, frame, frame_width, reply) {
            Delivery::Unmatched => LoopEvent::Ignored,
            Delivery::Initialized(result) => {
                if !matches!(self.state, LoopState::Loading) {
                    return LoopEvent::Initialized(matches!(self.state, LoopState::Ready(_)));
                }
                match result {
                    Ok(info) => {
                        self.state = LoopState::Ready(info);
                        LoopEvent::Initialized(true)
                    },
                    Err(e) => {
                        self.state = LoopState::Failed(e);
                        LoopEvent::Initialized(false)
                    },
                }
            },
            Delivery::Batch { responses, complete } => LoopEvent::Batch { responses, complete },
        }
    }

    /// Gives up on a load that did not report in time: the loop fails and the
    /// control nonce is dropped.
    pub fn initialization_timed_out(&mut self)
        ensures
            final(self).table() == old(self).table().remove(CONTROL_NONCE),
            old(self).state() is Loading ==> final(self).state() is Failed,
            !(old(self).state() is Loading) ==> final(self).state() == old(self).state(),
    {
        self.table.unregister(CONTROL_NONCE);
        if matches!(self.state, LoopState::Loading) {
            let mut m = String::new();
            m.append("timeout waiting for initialization");
            self.state = LoopState::Failed(m);
        }
    }

    /// Whether the load has finished, successfully or not.
    pub fn initialization_settled(&self) -> (r: bool)
        ensures
            r == (self.state() is Ready || self.state() is Failed),
    {
        matches!(self.state, LoopState::Ready(_) | LoopState::Failed(_))
    }

    /// Succeeds only when the page is loaded and ready.
    pub fn assert_initialized(&self) -> (r: Result<(), RenderError>)
        ensures
            r is Ok <==> self.state() is Ready,
            self.state() matches LoopState::Failed(e) ==> r == Err::<(), RenderError>(
                RenderError::InitializationFailed(e),
            ),
            (self.state() is Uninitialized || self.state() is Loading) ==> r == Err::<(), RenderError>(
                RenderError::NotInitialized,
            ),
    {
        match &self.state {
            LoopState::Ready(_) => Ok(()),
            LoopState::Failed(e) => Err(RenderError::InitializationFailed(e.clone())),
            _ => Err(RenderError::NotInitialized),
        }
    }

    /// The page's information once it is ready.
    pub fn initialize_info(&self) -> (r: Option<&InitializeResponse>)
        ensures
            match r {
                Some(info) => self.state() == LoopState::Ready(*info),
                None => !(self.state() is Ready),
            },
    {
        match &self.state {
            LoopState::Ready(info) => Some(info),
            _ => None,
        }
    }

    /// Admits a batch of `request_count` requests: refused unless the page is
    /// ready; an empty batch needs no nonce (`Ok(None)`); otherwise a fresh
    /// nonce above the reserved range is registered for it.
    pub fn begin_batch(&mut self, request_count: usize) -> (r: Result<Option<u32>, RenderError>)
        ensures
            final(self).state() == old(self).state(),
            !(old(self).state() is Ready) ==> final(self).table() == old(self).table() && r is Err
                && r != Err::<Option<u32>, RenderError>(RenderError::NoFreeNonce),
            old(self).state() is Ready && request_count == 0 ==> r == Ok::<Option<u32>, RenderError>(
                None,
            ) && final(self).table() == old(self).table(),
            old(self).state() is Ready && request_count > 0 ==> match r {
                Ok(Some(n)) => n > RESERVED_NONCE_MAX && !old(self).table().contains_key(n)
                    && final(self).table() == old(self).table().insert(n, HandlerKind::Batch),
                Err(e) => e == RenderError::NoFreeNonce && final(self).table() == old(self).table(),
                Ok(None) => false,
            },
    {
        match self.assert_initialized() {
            Ok(()) => {},
            Err(e) => return Err(e),
        }
        if request_count == 0 {
            return Ok(None);
        }
        match self.table.reserve_nonce() {
            Some(n) => Ok(Some(n)),
            None => Err(RenderError::NoFreeNonce),
        }
    }

    /// Gives up on the batch on `nonce`, as its timeout does: its registration
    /// is removed so that a late paint is dropped; `false` when it had
    /// already completed.
    pub fn abandon_batch(&mut self, nonce: u32) -> (r: bool)
        ensures
            r == old(self).table().contains_key(nonce),
            final(self).table() == old(self).table().remove(nonce),
            final(self).state() == old(self).state(),
    {
        self.table.unregister(nonce)
    }

    /// Whether the batch on `nonce` still waits for frames.
    pub fn is_pending(&self, nonce: u32) -> (r: bool)
        ensures
            r == self.table().contains_key(nonce),
    {
        self.table.lookup(nonce).is_some()
    }
}

/// Whether a wait that started `elapsed_ms` ago has outlived `limit_ms`.
pub fn wait_expired(elapsed_ms: u64, limit_ms: u64) -> (r: bool)
    ensures
        r == expired(elapsed_ms, limit_ms),
{
    elapsed_ms > limit_ms
}

} // verus!
