//! Functions that rules may call. Bucketing hashes a context value, salted
//! with the namespace, the feature and the context key, into one of 100000
//! buckets, and passes when the bucket is at or below the threshold.
use vstd::prelude::*;
use vstd::utf8::encode_utf8;

use crate::evaluator::{EvalContext, EvalContextView};
use crate::rules_v3::{Bucket, BucketView};
use crate::status::{result_view, status, Code, Status, StatusView};
use crate::value::{Context, Kind, KindView, Value};

verus! {

/// The 32-bit xxHash of `input` with `seed`.
pub uninterp spec fn xxh32_hash(input: Seq<u8>, seed: u32) -> u32;

/// Calls `xxhash_rust::xxh32::xxh32`, which computes the 32-bit xxHash of its
/// input with the given seed. The contract claims only that the result is that
/// hash, a function of the input bytes and the seed alone.
#[verifier::external_body]
fn xxh32(input: &[u8], seed: u32) -> (h: u32)
    ensures
        h == xxh32_hash(input@, seed),
{
    xxhash_rust::xxh32::xxh32(input, seed)
}

/// The eight bytes of `x`, most significant first.
pub open spec fn be_bytes(x: u64) -> Seq<u8> {
    seq![
        ((x >> 56u64) & 0xff) as u8,
        ((x >> 48u64) & 0xff) as u8,
        ((x >> 40u64) & 0xff) as u8,
        ((x >> 32u64) & 0xff) as u8,
        ((x >> 24u64) & 0xff) as u8,
        ((x >> 16u64) & 0xff) as u8,
        ((x >> 8u64) & 0xff) as u8,
        (x & 0xff) as u8,
    ]
}

/// The bytes of `x`, most significant first.
pub fn to_be_bytes(x: u64) -> (v: Vec<u8>)
    ensures
        v@ == be_bytes(x),
{
    let v: Vec<u8> = vec![
        ((x >> 56u64) & 0xff) as u8,
        ((x >> 48u64) & 0xff) as u8,
        ((x >> 40u64) & 0xff) as u8,
        ((x >> 32u64) & 0xff) as u8,
        ((x >> 24u64) & 0xff) as u8,
        ((x >> 16u64) & 0xff) as u8,
        ((x >> 8u64) & 0xff) as u8,
        (x & 0xff) as u8,
    ];
    assert(v@ =~= be_bytes(x));
    v
}

/// The bytes by which a context value is hashed: the UTF-8 encoding of a
/// string, the big-endian bytes of an integer, or of the bit pattern of a
/// double. Booleans have none.
pub open spec fn bucket_value_bytes(k: KindView) -> Option<Seq<u8>> {
    match k {
        KindView::StringValue(s) => Some(encode_utf8(s)),
        KindView::IntValue(i) => Some(be_bytes(i as u64)),
        KindView::DoubleValue(d) => Some(be_bytes(d)),
        KindView::BoolValue(_) => None,
    }
}

/// The result of bucketing the context value at the bucket's key.
pub open spec fn spec_bucket(
    b: BucketView,
    context: Map<Seq<char>, Value>,
    eval_context: EvalContextView,
) -> Result<bool, StatusView> {
    if !context.contains_key(b.context_key) {
        Ok(false)
    } else {
        match context[b.context_key]@ {
            None => Err(status(Code::Internal, "empty ctx value kind"@)),
            Some(k) => match bucket_value_bytes(k) {
                None => Err(status(Code::Internal, "unsupported type for bucket"@)),
                Some(value_bytes) => {
                    let salted = encode_utf8(eval_context.namespace) + encode_utf8(
                        eval_context.feature_name,
                    ) + encode_utf8(b.context_key) + value_bytes;
                    Ok(xxh32_hash(salted, 0) % 100000 <= b.threshold)
                },
            },
        }
    }
}

fn append_bytes(v: &mut Vec<u8>, bytes: &[u8])
    ensures
        final(v)@ == old(v)@ + bytes@,
{
    let mut i: usize = 0;
    while i < bytes.len()
        invariant
            i <= bytes@.len(),
            v@ == old(v)@ + bytes@.subrange(0, i as int),
        decreases bytes@.len() - i,
    {
        v.push(bytes[i]);
        i = i + 1;
        assert(v@ =~= old(v)@ + bytes@.subrange(0, i as int));
    }
    assert(bytes@.subrange(0, i as int) =~= bytes@);
}

/// Whether the context value at the bucket's key falls in the bucket. A missing
/// key does not; a boolean value, or a value of no kind, is an error.
pub fn bucket(bucket_f: &Bucket, context: &Context, eval_context: &EvalContext) -> (r: Result<
    bool,
    Status,
>)
    ensures
        result_view(r) == spec_bucket(bucket_f@, context@, eval_context@),
{
    let ctx_key = &bucket_f.context_key;
    let present = context.contains_key(ctx_key.as_str());
    if !present {
        return Ok(false);
    }
    let ctx_value = match context.get(ctx_key.as_str()) {
        Some(v) => v,
        None => {
            return Err(Status::internal("empty ctx value"));
        },
    };
    let ctx_kind = match &ctx_value.kind {
        Some(k) => k,
        None => {
            return Err(Status::internal("empty ctx value kind"));
        },
    };
    let value_bytes: Vec<u8> = match ctx_kind {
        Kind::StringValue(value) => {
            let mut b: Vec<u8> = Vec::new();
            append_bytes(&mut b, value.as_str().as_bytes());
            b
        },
        Kind::IntValue(value) => to_be_bytes(*value as u64),
        Kind::DoubleValue(value) => to_be_bytes(*value),
        Kind::BoolValue(_) => {
            return Err(Status::internal("unsupported type for bucket"));
        },
    };
    let mut salted: Vec<u8> = Vec::new();
    append_bytes(&mut salted, eval_context.namespace.as_str().as_bytes());
    append_bytes(&mut salted, eval_context.feature_name.as_str().as_bytes());
    append_bytes(&mut salted, ctx_key.as_str().as_bytes());
    append_bytes(&mut salted, value_bytes.as_slice());
    let hash = xxh32(salted.as_slice(), 0);
    Ok(hash % 100000 <= bucket_f.threshold)
}

} // verus!
