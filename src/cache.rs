//! Per-object cache of rendered frames, and the decision of when to render.
//!
//! Frames are cached per object id and, within an object, by cache key. A batch
//! is the window of frames the host expects to need next, the first one being
//! the frame on screen.
use std::collections::HashMap;
use vstd::prelude::*;
use crate::fingerprint::{append_bytes, batch_cache_keys, cache_key};
use crate::types::{RenderRequest, RenderResponse, RenderResponseData};

verus! {

broadcast use vstd::std_specs::hash::group_hash_axioms;

/// A rendered frame.
#[derive(Debug, Clone)]
pub struct RenderCacheEntry {
    pub image_data: Vec<u8>,
    pub width: i32,
    pub height: i32,
}

/// Whether a batch is rendered now: something in it is uncached, and either the
/// frame on screen is uncached, the batch is shorter than the working-set size
/// (near the end of a sequence), or at least `⌈3·batch_size/4⌉` of it is
/// uncached.
pub open spec fn render_now(n: int, first_uncached: bool, uncached: int, batch_size: int) -> bool {
    uncached > 0 && (first_uncached || n < batch_size || 4 * uncached >= 3 * batch_size)
}

/// Positions in `keys` whose frame `m` does not hold, in order.
pub open spec fn uncached_positions(m: Map<u64, RenderCacheEntry>, keys: Seq<u64>) -> Seq<int>
    decreases keys.len(),
{
    if keys.len() == 0 {
        Seq::empty()
    } else {
        let prev = uncached_positions(m, keys.drop_last());
        if m.contains_key(keys.last()) {
            prev
        } else {
            prev.push(keys.len() - 1)
        }
    }
}

/// The positions of a batch to render now: all uncached ones, or none.
pub open spec fn planned_positions(m: Map<u64, RenderCacheEntry>, keys: Seq<u64>, batch_size: int) -> Seq<int> {
    let u = uncached_positions(m, keys);
    if keys.len() > 0 && render_now(keys.len() as int, !m.contains_key(keys[0]), u.len() as int, batch_size) {
        u
    } else {
        Seq::empty()
    }
}

/// The frames of `m` that the batch window `keys` still needs.
pub open spec fn window(m: Map<u64, RenderCacheEntry>, keys: Seq<u64>) -> Map<u64, RenderCacheEntry> {
    m.restrict(keys.to_set())
}

/// Stores rendered frames under their keys, pairing keys and responses in order.
/// An error for the key `first` stops there and is returned with what was stored
/// so far; other errors leave their key uncached.
pub open spec fn store_results(
    m: Map<u64, RenderCacheEntry>,
    keys: Seq<u64>,
    responses: Seq<RenderResponse>,
    first: u64,
) -> (Map<u64, RenderCacheEntry>, Option<String>)
    decreases keys.len(),
{
    if keys.len() == 0 || responses.len() == 0 {
        (m, None)
    } else {
        match responses[0].response {
            RenderResponseData::Success { width, height, image_data } => store_results(
                m.insert(keys[0], RenderCacheEntry { image_data, width, height }),
                keys.drop_first(),
                responses.drop_first(),
                first,
            ),
            RenderResponseData::Error(e) => if keys[0] == first {
                (m, Some(e))
            } else {
                store_results(m, keys.drop_first(), responses.drop_first(), first)
            },
        }
    }
}

proof fn lemma_all_cached_nothing_uncached(m: Map<u64, RenderCacheEntry>, keys: Seq<u64>)
    requires
        forall|i: int| 0 <= i < keys.len() ==> m.contains_key(#[trigger] keys[i]),
    ensures
        uncached_positions(m, keys) == Seq::<int>::empty(),
    decreases keys.len(),
{
    if keys.len() > 0 {
        let prefix = keys.drop_last();
        assert forall|i: int| 0 <= i < prefix.len() implies m.contains_key(#[trigger] prefix[i]) by {
            assert(prefix[i] == keys[i]);
        }
        lemma_all_cached_nothing_uncached(m, prefix);
        assert(m.contains_key(keys[keys.len() - 1]));
    }
}

/// A batch whose frames are all cached is never rendered: asking again for
/// frames that a previous call stored goes to the cache alone.
pub proof fn lemma_cached_batch_not_rendered(m: Map<u64, RenderCacheEntry>, keys: Seq<u64>, batch_size: int)
    requires
        forall|i: int| 0 <= i < keys.len() ==> m.contains_key(#[trigger] keys[i]),
    ensures
        planned_positions(m, keys, batch_size) == Seq::<int>::empty(),
{
    lemma_all_cached_nothing_uncached(m, keys);
}

/// Decides whether a batch of `n` frames is rendered now.
pub fn should_render_now(n: usize, first_uncached: bool, uncached: usize, batch_size: usize) -> (r:
    bool)
    ensures
        r == render_now(n as int, first_uncached, uncached as int, batch_size as int),
{
    uncached > 0 && (first_uncached || n < batch_size || uncached as u128 * 4 >= batch_size as u128
        * 3)
}

/// Why a host call for a frame failed.
#[derive(Debug, Clone, PartialEq, Eq)]
pub enum CallError {
    /// The working-set size was negative.
    InvalidBatchSize(i32),
    /// The batch held no request.
    EmptyBatch,
    /// The parameter and frame lists of a batch differ in length.
    MismatchedBatch { params: usize, frames: usize },
    /// The page reported an error for the frame on screen.
    FirstFrameFailed(String),
    /// No frame came back for the frame on screen.
    FirstFrameMissing,
}

/// What a host call renders: the key of every request of the batch, and the
/// requests to render now with their keys.
#[derive(Debug)]
pub struct CallPlan {
    pub keys: Vec<u64>,
    pub rendered_keys: Vec<u64>,
    pub requests: Vec<RenderRequest>,
}

/// The frames of an object after a call stored what it rendered: nothing
/// changes when nothing was rendered.
pub open spec fn after_call(
    m: Map<u64, RenderCacheEntry>,
    keys: Seq<u64>,
    rendered_keys: Seq<u64>,
    responses: Seq<RenderResponse>,
) -> (Map<u64, RenderCacheEntry>, Option<String>) {
    if rendered_keys.len() > 0 {
        store_results(window(m, keys), rendered_keys, responses, keys[0])
    } else {
        (m, None)
    }
}

/// Rendered frames per object id.
pub struct RenderCache {
    objects: HashMap<i32, HashMap<u64, RenderCacheEntry>>,
}

impl RenderCache {
    /// The frames cached for an object.
    pub closed spec fn images(&self, object_id: i32) -> Map<u64, RenderCacheEntry> {
        if self.objects@.contains_key(object_id) {
            self.objects@[object_id]@
        } else {
            Map::empty()
        }
    }

    /// An empty cache.
    pub fn new() -> (r: RenderCache)
        ensures
            forall|id: i32| r.images(id) == Map::<u64, RenderCacheEntry>::empty(),
    {
        RenderCache { objects: HashMap::new() }
    }

    /// Whether the frame with `key` is cached for `object_id`.
    pub fn is_cached(&self, object_id: i32, key: u64) -> (r: bool)
        ensures
            r == self.images(object_id).contains_key(key),
    {
        match self.objects.get(&object_id) {
            Some(images) => images.contains_key(&key),
            None => false,
        }
    }

    /// The positions of `keys` that are not cached for `object_id`.
    pub fn uncached_positions(&self, object_id: i32, keys: &Vec<u64>) -> (r: Vec<usize>)
        ensures
            r@.map_values(|i: usize| i as int) == uncached_positions(self.images(object_id), keys@),
    {
        let mut out: Vec<usize> = Vec::new();
        let mut i: usize = 0;
        while i < keys.len()
            invariant
                i <= keys@.len(),
                out@.map_values(|i: usize| i as int) == uncached_positions(
                    self.images(object_id),
                    keys@.subrange(0, i as int),
                ),
            decreases keys@.len() - i,
        {
            let ghost prefix = keys@.subrange(0, i + 1);
            proof {
                assert(prefix.drop_last() =~= keys@.subrange(0, i as int));
            }
            if !self.is_cached(object_id, keys[i]) {
                out.push(i);
            }
            proof {
                assert(out@.map_values(|i: usize| i as int) =~= uncached_positions(self.images(object_id), prefix));
            }
            i = i + 1;
        }
        proof {
            assert(keys@.subrange(0, keys@.len() as int) =~= keys@);
        }
        out
    }

    /// The positions of a batch to render now for `object_id`: every uncached
    /// one when the batch is due for rendering, none otherwise.
    pub fn plan_batch(&self, object_id: i32, keys: &Vec<u64>, batch_size: usize) -> (r: Vec<usize>)
        ensures
            r@.map_values(|i: usize| i as int) == planned_positions(self.images(object_id), keys@, batch_size as int),
    {
        let positions = self.uncached_positions(object_id, keys);
        if keys.len() == 0 {
            return Vec::new();
        }
        let first_uncached = !self.is_cached(object_id, keys[0]);
        proof {
            assert(positions@.map_values(|i: usize| i as int).len() == positions@.len());
        }
        if should_render_now(keys.len(), first_uncached, positions.len(), batch_size) {
            positions
        } else {
            let empty: Vec<usize> = Vec::new();
            proof {
                assert(empty@.map_values(|i: usize| i as int) =~= Seq::<int>::empty());
            }
            empty
        }
    }
    /// Splits off the requests whose frames are not cached for `object_id`,
    /// with their keys, in batch order.
    pub fn take_uncached(&self, object_id: i32, requests: Vec<RenderRequest>, keys: &Vec<u64>) -> (r: (
        Vec<u64>,
        Vec<RenderRequest>,
    ))
        requires
            requests@.len() == keys@.len(),
        ensures
            r.0@ == uncached_positions(self.images(object_id), keys@).map_values(|p: int| keys@[p]),
            r.1@ == uncached_positions(self.images(object_id), keys@).map_values(
                |p: int| requests@[p],
            ),
    {
        let ghost all = requests@;
        let ghost m = self.images(object_id);
        let mut rest = requests;
        let mut out_keys: Vec<u64> = Vec::new();
        let mut out_requests: Vec<RenderRequest> = Vec::new();
        let mut i: usize = 0;
        while i < keys.len()
            invariant
                i <= keys@.len(),
                all.len() == keys@.len(),
                m == self.images(object_id),
                rest@ == all.skip(i as int),
                out_keys@ == uncached_positions(m, keys@.subrange(0, i as int)).map_values(
                    |p: int| keys@[p],
                ),
                out_requests@ == uncached_positions(m, keys@.subrange(0, i as int)).map_values(
                    |p: int| all[p],
                ),
                forall|q: int| 0 <= q < uncached_positions(m, keys@.subrange(0, i as int)).len()
                    ==> 0 <= #[trigger] uncached_positions(m, keys@.subrange(0, i as int))[q] < i,
            decreases keys@.len() - i,
        {
            let request = rest.remove(0);
            let ghost prefix = keys@.subrange(0, i + 1);
            let ghost before = uncached_positions(m, keys@.subrange(0, i as int));
            proof {
                assert(request == all[i as int]);
                assert(rest@ =~= all.skip(i + 1));
                assert(prefix.drop_last() =~= keys@.subrange(0, i as int));
                assert forall|q: int| 0 <= q < before.len() implies keys@.subrange(0, i as int)[before[q]] == keys@[before[q]] by {
                    assert(0 <= before[q] < i);
                }
            }
            if !self.is_cached(object_id, keys[i]) {
                out_keys.push(keys[i]);
                out_requests.push(request);
                proof {
                    assert(uncached_positions(m, prefix) == before.push(i as int));
                    assert(out_keys@ =~= uncached_positions(m, prefix).map_values(|p: int| keys@[p]));
                    assert(out_requests@ =~= uncached_positions(m, prefix).map_values(|p: int| all[p]));
                }
            } else {
                proof {
                    assert(uncached_positions(m, prefix) == before);
                }
            }
            i = i + 1;
        }
        proof {
            assert(keys@.subrange(0, keys@.len() as int) =~= keys@);
        }
        (out_keys, out_requests)
    }

    /// Drops the frames of `object_id` that the window `keys` does not need,
    /// then stores `responses`, paired in order with `rendered_keys`.
    ///
    /// An error response for `keys[0]`, the frame on screen, is returned as
    /// `Err` with its message; frames stored before it stay. Errors for other
    /// keys leave those frames uncached.
    pub fn store_batch(
        &mut self,
        object_id: i32,
        keys: &Vec<u64>,
        rendered_keys: &Vec<u64>,
        responses: Vec<RenderResponse>,
    ) -> (r: Result<(), String>)
        requires
            keys@.len() > 0,
        ensures
            ({
                let (m, err) = store_results(
                    window(old(self).images(object_id), keys@),
                    rendered_keys@,
                    responses@,
                    keys@[0],
                );
                &&& final(self).images(object_id) == m
                &&& match r {
                    Ok(()) => err.is_none(),
                    Err(e) => err == Some(e),
                }
            }),
            forall|id: i32| id != object_id ==> final(self).images(id) == old(self).images(id),
    {
        let ghost start = self.images(object_id);
        let mut cached = match self.objects.remove(&object_id) {
            Some(m) => m,
            None => HashMap::new(),
        };
        let mut kept: HashMap<u64, RenderCacheEntry> = HashMap::new();
        let mut i: usize = 0;
        proof {
            assert(cached@ == start);
            assert(kept@ =~= start.restrict(keys@.subrange(0, 0).to_set()));
            assert(cached@ =~= start.remove_keys(keys@.subrange(0, 0).to_set()));
        }
        while i < keys.len()
            invariant
                i <= keys@.len(),
                kept@ == start.restrict(keys@.subrange(0, i as int).to_set()),
                cached@ == start.remove_keys(keys@.subrange(0, i as int).to_set()),
            decreases keys@.len() - i,
        {
            let k = keys[i];
            let ghost before = keys@.subrange(0, i as int).to_set();
            let ghost after = keys@.subrange(0, i + 1).to_set();
            proof {
                assert(keys@.subrange(0, i + 1) =~= keys@.subrange(0, i as int).push(k));
                keys@.subrange(0, i as int).lemma_push_to_set_commute(k);
            }
            match cached.remove(&k) {
                Some(entry) => {
                    kept.insert(k, entry);
                },
                None => {},
            }
            proof {
                assert(kept@ =~= start.restrict(after));
                assert(cached@ =~= start.remove_keys(after));
            }
            i = i + 1;
        }
        proof {
            assert(keys@.subrange(0, keys@.len() as int) =~= keys@);
        }
        let ghost pruned = kept@;
        let mut rest = responses;
        let mut j: usize = 0;
        let first = keys[0];
        let mut result: Result<(), String> = Ok(());
        proof {
            assert(rendered_keys@.skip(0) =~= rendered_keys@);
        }
        while j < rendered_keys.len() && rest.len() > 0
            invariant_except_break
                j <= rendered_keys@.len(),
                result is Ok,
                store_results(pruned, rendered_keys@, responses@, first) == store_results(
                    kept@,
                    rendered_keys@.skip(j as int),
                    rest@,
                    first,
                ),
            ensures
                store_results(pruned, rendered_keys@, responses@, first) == (kept@, match result {
                    Ok(()) => None::<String>,
                    Err(e) => Some(e),
                }),
            decreases rest@.len(),
        {
            let ghost ks = rendered_keys@.skip(j as int);
            let ghost rs = rest@;
            let response = rest.remove(0);
            let k = rendered_keys[j];
            proof {
                assert(ks.drop_first() =~= rendered_keys@.skip(j + 1));
                assert(rs.drop_first() =~= rest@);
                assert(ks[0] == k);
            }
            match response.response {
                RenderResponseData::Success { width, height, image_data } => {
                    kept.insert(k, RenderCacheEntry { image_data, width, height });
                },
                RenderResponseData::Error(e) => {
                    if k == first {
                        result = Err(e);
                        break;
                    }
                },
            }
            j = j + 1;
        }
        self.objects.insert(object_id, kept);
        result
    }

    /// The cached frame `key` of `object_id`, if any.
    pub fn get(&self, object_id: i32, key: u64) -> (r: Option<&RenderCacheEntry>)
        ensures
            match r {
                Some(e) => self.images(object_id).contains_key(key) && *e == self.images(object_id)[key],
                None => !self.images(object_id).contains_key(key),
            },
    {
        match self.objects.get(&object_id) {
            Some(images) => images.get(&key),
            None => None,
        }
    }

    /// Drops every cached frame of every object.
    pub fn purge(&mut self)
        ensures
            forall|id: i32| final(self).images(id) == Map::<u64, RenderCacheEntry>::empty(),
    {
        self.objects.clear();
    }
}

/// The host-side module: the render cache, and the frame last handed to the
/// host for each object, kept alive until the host frees it.
pub struct InternalModule {
    cache: RenderCache,
    handed_out: HashMap<i32, Vec<u8>>,
}

impl InternalModule {
    /// The frame handed to the host for each object.
    pub closed spec fn handed_out(&self) -> Map<i32, Seq<u8>> {
        self.handed_out@.map_values(|v: Vec<u8>| v@)
    }

    /// The render cache.
    pub closed spec fn cache(&self) -> RenderCache {
        self.cache
    }

    /// The render cache, to plan a batch with.
    pub fn render_cache(&self) -> (r: &RenderCache)
        ensures
            *r == self.cache(),
    {
        &self.cache
    }

    /// Stores a batch's results in the render cache; see
    /// [`RenderCache::store_batch`].
    pub fn store_batch(
        &mut self,
        object_id: i32,
        keys: &Vec<u64>,
        rendered_keys: &Vec<u64>,
        responses: Vec<RenderResponse>,
    ) -> (r: Result<(), String>)
        requires
            keys@.len() > 0,
        ensures
            ({
                let (m, err) = store_results(
                    window(old(self).cache().images(object_id), keys@),
                    rendered_keys@,
                    responses@,
                    keys@[0],
                );
                &&& final(self).cache().images(object_id) == m
                &&& match r {
                    Ok(()) => err.is_none(),
                    Err(e) => err == Some(e),
                }
            }),
            forall|id: i32| id != object_id ==> final(self).cache().images(id) == old(self).cache().images(id),
            final(self).handed_out() == old(self).handed_out(),
    {
        self.cache.store_batch(object_id, keys, rendered_keys, responses)
    }

    /// Plans a host call for `object_id`: computes the key of every request
    /// and picks those to render now, following [`render_now`] with the
    /// working-set size `batch_size`.
    pub fn prepare_call(&self, object_id: i32, batch_size: i32, requests: Vec<RenderRequest>) -> (r:
        Result<CallPlan, CallError>)
        ensures
            batch_size < 0 ==> r == Err::<CallPlan, CallError>(CallError::InvalidBatchSize(batch_size)),
            batch_size >= 0 && requests@.len() == 0 ==> r == Err::<CallPlan, CallError>(
                CallError::EmptyBatch,
            ),
            batch_size >= 0 && requests@.len() > 0 ==> match r {
                Ok(p) => {
                    let positions = planned_positions(
                        self.cache().images(object_id),
                        p.keys@,
                        batch_size as int,
                    );
                    &&& p.keys@.len() == requests@.len()
                    &&& forall|i: int| 0 <= i < p.keys@.len() ==> #[trigger] p.keys@[i] == cache_key(requests@[i])
                    &&& p.rendered_keys@ == positions.map_values(|q: int| p.keys@[q])
                    &&& p.requests@ == positions.map_values(|q: int| requests@[q])
                },
                Err(_) => false,
            },
    {
        if batch_size < 0 {
            return Err(CallError::InvalidBatchSize(batch_size));
        }
        if requests.len() == 0 {
            return Err(CallError::EmptyBatch);
        }
        let keys = batch_cache_keys(&requests);
        let plan = self.cache.plan_batch(object_id, &keys, batch_size as usize);
        if plan.len() == 0 {
            proof {
                let positions = planned_positions(self.cache().images(object_id), keys@, batch_size as int);
                assert(plan@.map_values(|i: usize| i as int).len() == 0);
                assert(positions.len() == 0);
                assert(Seq::<u64>::empty() =~= positions.map_values(|q: int| keys@[q]));
                assert(Seq::<RenderRequest>::empty() =~= positions.map_values(|q: int| requests@[q]));
            }
            return Ok(CallPlan { keys, rendered_keys: Vec::new(), requests: Vec::new() });
        }
        let (rendered_keys, chosen) = self.cache.take_uncached(object_id, requests, &keys);
        Ok(CallPlan { keys, rendered_keys, requests: chosen })
    }

    /// Finishes a host call: stores what was rendered, if anything, and hands
    /// out the frame on screen, `keys[0]`, returning its size.
    pub fn finish_call(
        &mut self,
        object_id: i32,
        keys: &Vec<u64>,
        rendered_keys: &Vec<u64>,
        responses: Vec<RenderResponse>,
    ) -> (r: Result<(i32, i32), CallError>)
        requires
            keys@.len() > 0,
        ensures
            ({
                let (m, err) = after_call(
                    old(self).cache().images(object_id),
                    keys@,
                    rendered_keys@,
                    responses@,
                );
                &&& final(self).cache().images(object_id) == m
                &&& match err {
                    Some(e) => r == Err::<(i32, i32), CallError>(CallError::FirstFrameFailed(e))
                        && final(self).handed_out() == old(self).handed_out(),
                    None => if m.contains_key(keys@[0]) {
                        &&& r == Ok::<(i32, i32), CallError>((m[keys@[0]].width, m[keys@[0]].height))
                        &&& final(self).handed_out() == old(self).handed_out().insert(
                            object_id,
                            m[keys@[0]].image_data@,
                        )
                    } else {
                        r == Err::<(i32, i32), CallError>(CallError::FirstFrameMissing)
                            && final(self).handed_out() == old(self).handed_out()
                    },
                }
            }),
            forall|id: i32| id != object_id ==> final(self).cache().images(id) == old(self).cache().images(id),
    {
        if rendered_keys.len() > 0 {
            match self.store_batch(object_id, keys, rendered_keys, responses) {
                Ok(()) => {},
                Err(e) => return Err(CallError::FirstFrameFailed(e)),
            }
        }
        match self.hand_out(object_id, keys[0]) {
            Some(size) => Ok(size),
            None => Err(CallError::FirstFrameMissing),
        }
    }

    /// A module with an empty cache and nothing handed out.
    pub fn new() -> (r: InternalModule)
        ensures
            forall|id: i32| r.cache().images(id) == Map::<u64, RenderCacheEntry>::empty(),
            r.handed_out() == Map::<i32, Seq<u8>>::empty(),
    {
        let r = InternalModule { cache: RenderCache::new(), handed_out: HashMap::new() };
        proof {
            assert(r.handed_out() =~= Map::<i32, Seq<u8>>::empty());
        }
        r
    }

    /// Hands the cached frame `key` of `object_id` to the host: a copy is kept
    /// under the object id until `free_image`, and its size is returned. `None`
    /// when that frame is not cached.
    pub fn hand_out(&mut self, object_id: i32, key: u64) -> (r: Option<(i32, i32)>)
        ensures
            final(self).cache() == old(self).cache(),
            match r {
                Some((w, h)) => {
                    &&& old(self).cache().images(object_id).contains_key(key)
                    &&& w == old(self).cache().images(object_id)[key].width
                    &&& h == old(self).cache().images(object_id)[key].height
                    &&& final(self).handed_out() == old(self).handed_out().insert(
                        object_id,
                        old(self).cache().images(object_id)[key].image_data@,
                    )
                },
                None => !old(self).cache().images(object_id).contains_key(key)
                    && final(self).handed_out() == old(self).handed_out(),
            },
    {
        let (data, w, h) = match self.cache.get(object_id, key) {
            Some(entry) => {
                let mut data: Vec<u8> = Vec::new();
                append_bytes(&mut data, &entry.image_data);
                (data, entry.width, entry.height)
            },
            None => return None,
        };
        self.handed_out.insert(object_id, data);
        proof {
            assert(self.handed_out() =~= old(self).handed_out().insert(
                object_id,
                old(self).cache().images(object_id)[key].image_data@,
            ));
        }
        Some((w, h))
    }

    /// The frame last handed out for `object_id`.
    pub fn handed_out_image(&self, object_id: i32) -> (r: Option<&Vec<u8>>)
        ensures
            match r {
                Some(v) => self.handed_out().contains_key(object_id) && v@ == self.handed_out()[object_id],
                None => !self.handed_out().contains_key(object_id),
            },
    {
        self.handed_out.get(&object_id)
    }

    /// Releases the frame handed out for `id`; `false` when there was none.
    pub fn free_image(&mut self, id: i32) -> (r: bool)
        ensures
            r == old(self).handed_out().contains_key(id),
            final(self).handed_out() == old(self).handed_out().remove(id),
            final(self).cache() == old(self).cache(),
    {
        let removed = self.handed_out.remove(&id);
        proof {
            assert(self.handed_out() =~= old(self).handed_out().remove(id));
        }
        removed.is_some()
    }
}

/// Drops every cached and handed-out frame of every object.
pub fn clear_render_cache(module: &mut InternalModule)
    ensures
        forall|id: i32| final(module).cache().images(id) == Map::<u64, RenderCacheEntry>::empty(),
        final(module).handed_out() == Map::<i32, Seq<u8>>::empty(),
{
    module.cache.purge();
    module.handed_out.clear();
    proof {
        assert(module.handed_out() =~= Map::<i32, Seq<u8>>::empty());
    }
}

} // verus!
