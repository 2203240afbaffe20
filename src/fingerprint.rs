//! Cache keys: a canonical byte encoding of everything that affects a render,
//! hashed to 64 bits with std's `DefaultHasher`.
//!
//! Parameters are encoded one by one and the encodings are put in lexicographic
//! order before they are joined, so the order in which a request lists its
//! parameters never changes its key.
use vstd::prelude::*;
use vstd::seq_lib::*;
use std::collections::hash_map::DefaultHasher;
use std::hash::Hasher;
use vstd::std_specs::hash::DefaultHasherAdditionalSpecFns;
use vstd::string::StrSliceExecFns;
use crate::order::{canonical_order, lemma_canonical_order, sort_bytes, views};
use crate::types::{FrameInfo, Parameter, ParameterValue, RenderRequest};

verus! {

/// The `n` low bytes of `v`, least significant first.
pub open spec fn le_bytes_of(v: nat, n: nat) -> Seq<u8>
    decreases n,
{
    if n == 0 {
        Seq::empty()
    } else {
        seq![(v % 256) as u8] + le_bytes_of(v / 256, (n - 1) as nat)
    }
}

/// A 64-bit word as eight little-endian bytes.
pub open spec fn word_bytes(v: u64) -> Seq<u8> {
    le_bytes_of(v as nat, 8)
}

/// A string as its UTF-8 length and bytes.
pub open spec fn text_bytes(s: Seq<char>) -> Seq<u8> {
    word_bytes(vstd::utf8::encode_utf8(s).len() as u64) + vstd::utf8::encode_utf8(s)
}

/// A parameter value: a tag byte, then its payload.
pub open spec fn value_bytes(v: ParameterValue) -> Seq<u8> {
    match v {
        ParameterValue::Str(s) => seq![0u8] + text_bytes(s@),
        ParameterValue::Text(s) => seq![1u8] + text_bytes(s@),
        ParameterValue::Number(bits) => seq![2u8] + word_bytes(bits),
        ParameterValue::Bool(b) => seq![3u8, if b { 1u8 } else { 0u8 }],
        ParameterValue::Color(c) => seq![4u8, c.r, c.g, c.b, c.a],
    }
}

/// A parameter: its key, then its value.
pub open spec fn parameter_bytes(p: Parameter) -> Seq<u8> {
    text_bytes(p.key@) + value_bytes(p.value)
}

/// The encoding of each parameter, in the order given.
pub open spec fn parameter_encodings(ps: Seq<Parameter>) -> Seq<Seq<u8>> {
    ps.map_values(|p: Parameter| parameter_bytes(p))
}

/// The byte strings of `s` joined in order.
pub open spec fn concat_all(s: Seq<Seq<u8>>) -> Seq<u8>
    decreases s.len(),
{
    if s.len() == 0 {
        Seq::empty()
    } else {
        concat_all(s.drop_last()) + s.last()
    }
}

/// Every field of a frame context, one word each.
pub open spec fn frame_bytes(f: FrameInfo) -> Seq<u8> {
    word_bytes(f.x_bits) + word_bytes(f.y_bits) + word_bytes(f.z_bits) + word_bytes(
        f.screen_width,
    ) + word_bytes(f.screen_height) + word_bytes(f.current_frame) + word_bytes(
        f.current_time_bits,
    ) + word_bytes(f.total_frames) + word_bytes(f.total_time_bits) + word_bytes(f.framerate_bits)
}

/// Everything that affects the rendered image: object, object id, parameters in
/// canonical order, and frame context.
pub open spec fn fingerprint(r: RenderRequest) -> Seq<u8> {
    text_bytes(r.object@) + word_bytes(r.object_id as u64) + concat_all(
        canonical_order(parameter_encodings(r.parameters@)),
    ) + frame_bytes(r.frame_info)
}

/// The cache key of a request: its fingerprint written once into std's
/// `DefaultHasher`.
pub open spec fn cache_key(r: RenderRequest) -> u64 {
    DefaultHasher::spec_finish(seq![fingerprint(r)])
}

fn push_word(out: &mut Vec<u8>, v: u64)
    ensures
        final(out)@ == old(out)@ + word_bytes(v),
{
    let ghost start = out@;
    let mut x: u64 = v;
    let mut i: usize = 0;
    proof {
        assert(out@ + le_bytes_of(x as nat, 8) =~= start + word_bytes(v));
    }
    while i < 8
        invariant
            i <= 8,
            out@ + le_bytes_of(x as nat, (8 - i) as nat) == start + word_bytes(v),
        decreases 8 - i,
    {
        let ghost before = out@;
        let ghost rest = le_bytes_of((x / 256) as nat, (8 - i - 1) as nat);
        proof {
            assert(le_bytes_of(x as nat, (8 - i) as nat) == seq![(x % 256) as u8] + rest);
        }
        out.push((x % 256) as u8);
        x = x / 256;
        i = i + 1;
        proof {
            assert(out@ + le_bytes_of(x as nat, (8 - i) as nat) =~= before + (seq![out@.last()] + rest));
        }
    }
    proof {
        assert(out@ + le_bytes_of(x as nat, 0) =~= out@);
    }
}

pub(crate) fn append_bytes(out: &mut Vec<u8>, b: &Vec<u8>)
    ensures
        final(out)@ == old(out)@ + b@,
{
    let ghost start = out@;
    let mut i: usize = 0;
    while i < b.len()
        invariant
            i <= b@.len(),
            out@ == start + b@.subrange(0, i as int),
        decreases b@.len() - i,
    {
        out.push(b[i]);
        i = i + 1;
        proof {
            assert(out@ =~= start + b@.subrange(0, i as int));
        }
    }
    proof {
        assert(b@.subrange(0, b@.len() as int) =~= b@);
    }
}

fn push_text(out: &mut Vec<u8>, s: &String)
    ensures
        final(out)@ == old(out)@ + text_bytes(s@),
{
    let b = s.as_str().as_bytes_vec();
    push_word(out, b.len() as u64);
    append_bytes(out, &b);
    proof {
        assert(out@ =~= old(out)@ + text_bytes(s@));
    }
}

/// Appends the encoding of a parameter value to `out`.
pub fn hash_parameter_value(value: &ParameterValue, out: &mut Vec<u8>)
    ensures
        final(out)@ == old(out)@ + value_bytes(*value),
{
    let ghost start = out@;
    match value {
        ParameterValue::Str(s) => {
            out.push(0u8);
            push_text(out, s);
        },
        ParameterValue::Text(s) => {
            out.push(1u8);
            push_text(out, s);
        },
        ParameterValue::Number(bits) => {
            out.push(2u8);
            push_word(out, *bits);
        },
        ParameterValue::Bool(b) => {
            out.push(3u8);
            out.push(if *b { 1u8 } else { 0u8 });
        },
        ParameterValue::Color(c) => {
            out.push(4u8);
            out.push(c.r);
            out.push(c.g);
            out.push(c.b);
            out.push(c.a);
        },
    }
    proof {
        assert(out@ =~= start + value_bytes(*value));
    }
}

/// The encoding of one parameter.
pub fn encode_parameter(p: &Parameter) -> (r: Vec<u8>)
    ensures
        r@ == parameter_bytes(*p),
{
    let mut out: Vec<u8> = Vec::new();
    push_text(&mut out, &p.key);
    hash_parameter_value(&p.value, &mut out);
    proof {
        assert(out@ =~= parameter_bytes(*p));
    }
    out
}

/// The canonical byte encoding of everything that affects a request's image.
pub fn fingerprint_bytes(request: &RenderRequest) -> (r: Vec<u8>)
    ensures
        r@ == fingerprint(*request),
{
    let ghost encs = parameter_encodings(request.parameters@);
    let mut encoded: Vec<Vec<u8>> = Vec::new();
    let mut i: usize = 0;
    while i < request.parameters.len()
        invariant
            i <= request.parameters@.len(),
            encs == parameter_encodings(request.parameters@),
            views(encoded@) == encs.subrange(0, i as int),
        decreases request.parameters@.len() - i,
    {
        let ghost prev = encoded@;
        let e = encode_parameter(&request.parameters[i]);
        let ghost ev = e@;
        assert(ev == encs[i as int]);
        encoded.push(e);
        proof {
            assert(encoded@ == prev.push(e));
            assert(views(encoded@) =~= views(prev).push(ev));
            assert(encs.subrange(0, i + 1) =~= encs.subrange(0, i as int).push(encs[i as int]));
        }
        i = i + 1;
    }
    proof {
        assert(views(encoded@) =~= encs);
    }
    let sorted = sort_bytes(encoded);
    proof {
        lemma_canonical_order(encs, views(sorted@));
    }
    let mut out: Vec<u8> = Vec::new();
    push_text(&mut out, &request.object);
    push_word(&mut out, #[verifier::truncate] (request.object_id as u64));
    let ghost head = out@;
    let mut k: usize = 0;
    while k < sorted.len()
        invariant
            k <= sorted@.len(),
            out@ == head + concat_all(views(sorted@).subrange(0, k as int)),
        decreases sorted@.len() - k,
    {
        append_bytes(&mut out, &sorted[k]);
        proof {
            let s = views(sorted@).subrange(0, k + 1);
            assert(s.drop_last() =~= views(sorted@).subrange(0, k as int));
            assert(out@ =~= head + concat_all(s));
        }
        k = k + 1;
    }
    proof {
        assert(views(sorted@).subrange(0, sorted@.len() as int) =~= views(sorted@));
    }
    let f = request.frame_info;
    push_word(&mut out, f.x_bits);
    push_word(&mut out, f.y_bits);
    push_word(&mut out, f.z_bits);
    push_word(&mut out, f.screen_width);
    push_word(&mut out, f.screen_height);
    push_word(&mut out, f.current_frame);
    push_word(&mut out, f.current_time_bits);
    push_word(&mut out, f.total_frames);
    push_word(&mut out, f.total_time_bits);
    push_word(&mut out, f.framerate_bits);
    proof {
        assert(out@ =~= fingerprint(*request));
    }
    out
}

/// The 64-bit cache key of a request.
pub fn compute_cache_key(request: &RenderRequest) -> (r: u64)
    ensures
        r == cache_key(*request),
{
    let bytes = fingerprint_bytes(request);
    let mut hasher = DefaultHasher::new();
    hasher.write(bytes.as_slice());
    proof {
        assert(hasher@ =~= seq![fingerprint(*request)]);
    }
    hasher.finish()
}

/// The cache key of each request of a batch, in order.
pub fn batch_cache_keys(requests: &Vec<RenderRequest>) -> (r: Vec<u64>)
    ensures
        r@.len() == requests@.len(),
        forall|i: int| 0 <= i < r@.len() ==> #[trigger] r@[i] == cache_key(requests@[i]),
{
    let mut keys: Vec<u64> = Vec::new();
    let mut i: usize = 0;
    while i < requests.len()
        invariant
            i <= requests@.len(),
            keys@.len() == i,
            forall|k: int| 0 <= k < i ==> #[trigger] keys@[k] == cache_key(requests@[k]),
        decreases requests@.len() - i,
    {
        keys.push(compute_cache_key(&requests[i]));
        i = i + 1;
    }
    keys
}

proof fn lemma_encodings_multiset(s: Seq<Parameter>, t: Seq<Parameter>)
    requires
        s.to_multiset() == t.to_multiset(),
    ensures
        parameter_encodings(s).to_multiset() == parameter_encodings(t).to_multiset(),
    decreases s.len(),
{
    broadcast use vstd::multiset::group_multiset_axioms;

    to_multiset_len(s);
    to_multiset_len(t);
    if s.len() == 0 {
        assert(parameter_encodings(s) =~= parameter_encodings(t));
    } else {
        let x = s.last();
        let s1 = s.drop_last();
        assert(s =~= s1.push(x));
        to_multiset_build(s1, x);
        to_multiset_contains(t, x);
        assert(t.to_multiset().count(x) > 0);
        let j = choose|j: int| 0 <= j < t.len() && t[j] == x;
        let t1 = t.remove(j);
        to_multiset_remove(t, j);
        assert(s1.to_multiset() =~= t1.to_multiset());
        lemma_encodings_multiset(s1, t1);
        let ex = parameter_bytes(x);
        assert(parameter_encodings(s) =~= parameter_encodings(s1).push(ex));
        assert(parameter_encodings(t1) =~= parameter_encodings(t).remove(j));
        to_multiset_build(parameter_encodings(s1), ex);
        to_multiset_remove(parameter_encodings(t), j);
        to_multiset_contains(parameter_encodings(t), ex);
        assert(parameter_encodings(t).contains(ex)) by {
            assert(parameter_encodings(t)[j] == ex);
        }
        assert(parameter_encodings(s).to_multiset() =~= parameter_encodings(t).to_multiset());
    }
}

/// The cache key does not depend on the order of parameters: two requests for
/// the same object, object id and frame context whose parameter lists hold the
/// same parameters, in any order, have the same fingerprint and the same key.
pub proof fn lemma_cache_key_parameter_order(a: RenderRequest, b: RenderRequest)
    requires
        a.object@ == b.object@,
        a.object_id == b.object_id,
        a.frame_info == b.frame_info,
        a.parameters@.to_multiset() == b.parameters@.to_multiset(),
    ensures
        fingerprint(a) == fingerprint(b),
        cache_key(a) == cache_key(b),
{
    lemma_encodings_multiset(a.parameters@, b.parameters@);
    assert(canonical_order(parameter_encodings(a.parameters@)) == canonical_order(
        parameter_encodings(b.parameters@),
    ));
}

} // verus!
