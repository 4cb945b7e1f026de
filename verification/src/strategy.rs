//! Decision-maker strategies: the pluggable rollout policies a feature
//! composes into an ordered chain.
//!
//! Each strategy either produces a decision, declines (`None`, so the
//! chain continues), or reports that the context handed it a structurally
//! invalid identifier. An identifier kind that is absent from the context
//! is a normal outcome — the strategy declines; an identifier that is
//! present but empty cannot be hashed and is an error.

use vstd::prelude::*;
use crate::bucket::{bucket, bucket_of, BUCKET_SCALE};
use crate::context::Context;
use crate::decision::{Decision, DecisionModel, DynValue, DynValueModel};

verus! {

/// One arm of a multi-variant experiment: a named sub-range
/// `[start, end)` of the bucket space.
#[derive(Clone, Debug, PartialEq, Eq)]
pub struct Variant {
    pub name: String,
    pub start: u64,
    pub end: u64,
}

/// Mathematical model of a [`Variant`].
pub ghost struct VariantModel {
    pub name: Seq<char>,
    pub start: u64,
    pub end: u64,
}

impl View for Variant {
    type V = VariantModel;

    open spec fn view(&self) -> VariantModel {
        VariantModel { name: self.name@, start: self.start, end: self.end }
    }
}

/// One explicit override: an identifier value and the variant it is
/// pinned to.
#[derive(Clone, Debug, PartialEq, Eq)]
pub struct OverrideEntry {
    pub value: String,
    pub variant: String,
}

/// Mathematical model of an [`OverrideEntry`].
pub ghost struct OverrideEntryModel {
    pub value: Seq<char>,
    pub variant: Seq<char>,
}

impl View for OverrideEntry {
    type V = OverrideEntryModel;

    open spec fn view(&self) -> OverrideEntryModel {
        OverrideEntryModel { value: self.value@, variant: self.variant@ }
    }
}

/// A rollout strategy, with its parameters.
#[derive(Clone, Debug, PartialEq, Eq)]
pub enum Strategy {
    /// Always decides the fixed outcome; ignores the context.
    Value { enabled: bool },
    /// Enables the identifiers whose bucket falls in `[start, end)`,
    /// a fraction `(end - start) / BUCKET_SCALE` of all identifiers;
    /// declines for the rest.
    Range { identifier_kind: String, start: u64, end: u64 },
    /// Pins explicitly listed identifier values to variants, bypassing
    /// all bucketing; declines for every other value.
    Override { identifier_kind: String, entries: Vec<OverrideEntry> },
    /// Assigns every identifier the variant whose sub-range its bucket
    /// falls into. The sub-ranges partition the whole bucket space.
    MultiVariant { identifier_kind: String, variants: Vec<Variant> },
    /// Always decides, carrying a structured configuration value;
    /// ignores the context.
    DynamicConfig { value: DynValue },
}

/// Mathematical model of a [`Strategy`].
pub ghost enum StrategyModel {
    Value { enabled: bool },
    Range { identifier_kind: Seq<char>, start: u64, end: u64 },
    Override { identifier_kind: Seq<char>, entries: Seq<OverrideEntryModel> },
    MultiVariant { identifier_kind: Seq<char>, variants: Seq<VariantModel> },
    DynamicConfig { value: DynValueModel },
}

impl View for Strategy {
    type V = StrategyModel;

    open spec fn view(&self) -> StrategyModel {
        match self {
            Strategy::Value { enabled } => StrategyModel::Value { enabled: *enabled },
            Strategy::Range { identifier_kind, start, end } => StrategyModel::Range {
                identifier_kind: identifier_kind@,
                start: *start,
                end: *end,
            },
            Strategy::Override { identifier_kind, entries } => StrategyModel::Override {
                identifier_kind: identifier_kind@,
                entries: entries@.map_values(|e: OverrideEntry| e@),
            },
            Strategy::MultiVariant { identifier_kind, variants } => StrategyModel::MultiVariant {
                identifier_kind: identifier_kind@,
                variants: variants@.map_values(|v: Variant| v@),
            },
            Strategy::DynamicConfig { value } => StrategyModel::DynamicConfig { value: value@ },
        }
    }
}

/// Why a strategy could not evaluate: the context was malformed.
#[derive(Clone, Copy, Debug, PartialEq, Eq, Structural)]
pub enum EvalError {
    /// The required identifier kind was present in the context but its
    /// value was empty, which cannot be hashed. Distinguished from an
    /// absent kind, which is no error.
    EmptyIdentifierValue,
}

/// The variant the first matching override entry pins `value` to, if any.
pub open spec fn override_lookup(entries: Seq<OverrideEntryModel>, value: Seq<char>) -> Option<
    Seq<char>,
>
    decreases entries.len(),
{
    if entries.len() == 0 {
        None
    } else if entries[0].value == value {
        Some(entries[0].variant)
    } else {
        override_lookup(entries.drop_first(), value)
    }
}

/// Whether bucket `b` falls in the sub-range of variant `v`.
pub open spec fn variant_contains(v: VariantModel, b: u64) -> bool {
    v.start <= b < v.end
}

/// The name of the first variant whose sub-range contains bucket `b`,
/// if any.
pub open spec fn variant_containing(variants: Seq<VariantModel>, b: u64) -> Option<Seq<char>>
    decreases variants.len(),
{
    if variants.len() == 0 {
        None
    } else if variant_contains(variants[0], b) {
        Some(variants[0].name)
    } else {
        variant_containing(variants.drop_first(), b)
    }
}

/// Whether the sub-ranges of `variants`, in order, tile `[lo, hi)`
/// exactly: the first starts at `lo`, each next starts where the
/// previous ended, the last ends at `hi`, and none is empty.
pub open spec fn covers(variants: Seq<VariantModel>, lo: u64, hi: u64) -> bool {
    &&& variants.len() > 0
    &&& variants[0].start == lo
    &&& variants[variants.len() - 1].end == hi
    &&& forall|i: int| 0 <= i < variants.len() ==> (#[trigger] variants[i]).start < variants[i].end
    &&& forall|i: int|
        0 <= i < variants.len() - 1 ==> (#[trigger] variants[i + 1]).start == variants[i].end
}

/// Whether the sub-ranges of `variants` partition the whole bucket
/// space `[0, BUCKET_SCALE)` exactly — no gap and no overlap.
pub open spec fn partition_valid(variants: Seq<VariantModel>) -> bool {
    covers(variants, 0, BUCKET_SCALE)
}

/// In a tiling of `[lo, hi)`, sub-ranges that come later lie entirely
/// after sub-ranges that come earlier.
proof fn lemma_covers_ordered(variants: Seq<VariantModel>, lo: u64, hi: u64, i: int, j: int)
    requires
        covers(variants, lo, hi),
        0 <= i <= j < variants.len(),
    ensures
        variants[i].end <= variants[j].end,
        i < j ==> variants[i].end <= variants[j].start,
    decreases j - i,
{
    if i < j {
        lemma_covers_ordered(variants, lo, hi, i, j - 1);
        assert(variants[(j - 1) + 1].start == variants[j - 1].end);
    }
}

/// Every bucket of a tiled interval falls in some sub-range.
proof fn lemma_covers_complete(variants: Seq<VariantModel>, lo: u64, hi: u64, b: u64)
    requires
        covers(variants, lo, hi),
        lo <= b < hi,
    ensures
        variant_containing(variants, b) is Some,
        exists|i: int| 0 <= i < variants.len() && variant_contains(#[trigger] variants[i], b),
    decreases variants.len(),
{
    if variant_contains(variants[0], b) {
        assert(variant_contains(variants[0], b));
    } else {
        assert(variants.len() > 1) by {
            if variants.len() == 1 {
                assert(variants[0].start == lo && variants[0].end == hi);
            }
        }
        assert(b >= variants[0].end) by {
            lemma_covers_ordered(variants, lo, hi, 0, variants.len() - 1);
        }
        let tail = variants.drop_first();
        assert(covers(tail, variants[0].end, hi)) by {
            assert(tail[0].start == variants[1].start);
            assert(tail[tail.len() - 1] == variants[variants.len() - 1]);
            assert(forall|i: int|
                0 <= i < tail.len() ==> (#[trigger] tail[i]) == variants[i + 1]);
        }
        lemma_covers_complete(tail, variants[0].end, hi, b);
        let i = choose|i: int| 0 <= i < tail.len() && variant_contains(#[trigger] tail[i], b);
        assert(variant_contains(variants[i + 1], b));
    }
}

/// Law: partition completeness. In a valid multi-variant partition,
/// every bucket value maps to a variant, and to exactly one — the
/// sub-range containing it is unique.
pub proof fn lemma_partition_complete(variants: Seq<VariantModel>, b: u64)
    requires
        partition_valid(variants),
        b < BUCKET_SCALE,
    ensures
        variant_containing(variants, b) is Some,
        exists|i: int| 0 <= i < variants.len() && variant_contains(#[trigger] variants[i], b),
        forall|i: int, j: int|
            (0 <= i < variants.len() && 0 <= j < variants.len() && variant_contains(
                #[trigger] variants[i],
                b,
            ) && variant_contains(#[trigger] variants[j], b)) ==> i == j,
{
    lemma_covers_complete(variants, 0, BUCKET_SCALE, b);
    assert forall|i: int, j: int|
        (0 <= i < variants.len() && 0 <= j < variants.len() && variant_contains(
            #[trigger] variants[i],
            b,
        ) && variant_contains(#[trigger] variants[j], b)) implies i == j by {
        if i < j {
            lemma_covers_ordered(variants, 0, BUCKET_SCALE, i, j);
        }
        if j < i {
            lemma_covers_ordered(variants, 0, BUCKET_SCALE, j, i);
        }
    }
}

/// Law: a multi-variant strategy with a valid partition always decides
/// when its identifier kind is present and non-empty — it assigns some
/// variant, whatever the bucket.
pub proof fn lemma_multi_variant_total(
    identifier_kind: Seq<char>,
    variants: Seq<VariantModel>,
    feature: Seq<char>,
    ctx: Map<Seq<char>, Seq<char>>,
)
    requires
        partition_valid(variants),
        ctx.contains_key(identifier_kind),
        ctx[identifier_kind].len() != 0,
    ensures
        (eval_strategy(
            StrategyModel::MultiVariant { identifier_kind, variants },
            feature,
            ctx,
        ) matches Ok(d) && d is Some && d->Some_0.variant is Some),
{
    crate::bucket::lemma_bucket_in_range(feature, ctx[identifier_kind]);
    lemma_partition_complete(variants, bucket_of(feature, ctx[identifier_kind]));
}

/// What one strategy decides for a feature and a context: a decision,
/// a decline (`None`), or a context error.
pub open spec fn eval_strategy(
    strategy: StrategyModel,
    feature: Seq<char>,
    ctx: Map<Seq<char>, Seq<char>>,
) -> Result<Option<DecisionModel>, EvalError> {
    match strategy {
        StrategyModel::Value { enabled } => Ok(
            Some(
                DecisionModel {
                    feature,
                    enabled,
                    variant: None,
                    maker: "value"@,
                    identifier: None,
                    bucket: None,
                    value: None,
                },
            ),
        ),
        StrategyModel::Range { identifier_kind, start, end } => {
            if !ctx.contains_key(identifier_kind) {
                Ok(None)
            } else if ctx[identifier_kind].len() == 0 {
                Err(EvalError::EmptyIdentifierValue)
            } else {
                let b = bucket_of(feature, ctx[identifier_kind]);
                if start <= b < end {
                    Ok(
                        Some(
                            DecisionModel {
                                feature,
                                enabled: true,
                                variant: None,
                                maker: "range"@,
                                identifier: Some(ctx[identifier_kind]),
                                bucket: Some(b),
                                value: None,
                            },
                        ),
                    )
                } else {
                    Ok(None)
                }
            }
        },
        StrategyModel::Override { identifier_kind, entries } => {
            if !ctx.contains_key(identifier_kind) {
                Ok(None)
            } else {
                match override_lookup(entries, ctx[identifier_kind]) {
                    Some(variant) => Ok(
                        Some(
                            DecisionModel {
                                feature,
                                enabled: true,
                                variant: Some(variant),
                                maker: "override"@,
                                identifier: Some(ctx[identifier_kind]),
                                bucket: None,
                                value: None,
                            },
                        ),
                    ),
                    None => Ok(None),
                }
            }
        },
        StrategyModel::MultiVariant { identifier_kind, variants } => {
            if !ctx.contains_key(identifier_kind) {
                Ok(None)
            } else if ctx[identifier_kind].len() == 0 {
                Err(EvalError::EmptyIdentifierValue)
            } else {
                let b = bucket_of(feature, ctx[identifier_kind]);
                match variant_containing(variants, b) {
                    Some(name) => Ok(
                        Some(
                            DecisionModel {
                                feature,
                                enabled: true,
                                variant: Some(name),
                                maker: "multi_variant"@,
                                identifier: Some(ctx[identifier_kind]),
                                bucket: Some(b),
                                value: None,
                            },
                        ),
                    ),
                    None => Ok(None),
                }
            }
        },
        StrategyModel::DynamicConfig { value } => Ok(
            Some(
                DecisionModel {
                    feature,
                    enabled: true,
                    variant: None,
                    maker: "dynamic_config"@,
                    identifier: None,
                    bucket: None,
                    value: Some(value),
                },
            ),
        ),
    }
}

/// The model of an evaluation result.
pub open spec fn eval_result_view(r: Result<Option<Decision>, EvalError>) -> Result<
    Option<DecisionModel>,
    EvalError,
> {
    match r {
        Ok(Some(d)) => Ok(Some(d@)),
        Ok(None) => Ok(None),
        Err(e) => Err(e),
    }
}

/// Find the variant the first matching override entry pins `value` to.
fn override_find(entries: &Vec<OverrideEntry>, value: &String) -> (r: Option<String>)
    ensures
        (match r {
            Some(variant) => override_lookup(
                entries@.map_values(|e: OverrideEntry| e@),
                value@,
            ) == Some(variant@),
            None => override_lookup(entries@.map_values(|e: OverrideEntry| e@), value@) is None,
        }),
{
    let ghost model = entries@.map_values(|e: OverrideEntry| e@);
    let n = entries.len();
    let mut i: usize = 0;
    proof {
        assert(model.skip(0) =~= model);
    }
    while i < n
        invariant
            i <= n,
            n == entries@.len(),
            model == entries@.map_values(|e: OverrideEntry| e@),
            override_lookup(model, value@) == override_lookup(model.skip(i as int), value@),
        decreases n - i,
    {
        proof {
            assert(model.skip(i as int)[0] == model[i as int]);
            assert(model.skip(i as int).drop_first() =~= model.skip(i + 1 as int));
        }
        if entries[i].value == *value {
            return Some(entries[i].variant.clone());
        }
        i = i + 1;
    }
    proof {
        assert(model.skip(n as int) =~= Seq::<OverrideEntryModel>::empty());
    }
    None
}

/// Find the name of the first variant whose sub-range contains bucket `b`.
fn variant_find(variants: &Vec<Variant>, b: u64) -> (r: Option<String>)
    ensures
        (match r {
            Some(name) => variant_containing(variants@.map_values(|v: Variant| v@), b) == Some(
                name@,
            ),
            None => variant_containing(variants@.map_values(|v: Variant| v@), b) is None,
        }),
{
    let ghost model = variants@.map_values(|v: Variant| v@);
    let n = variants.len();
    let mut i: usize = 0;
    proof {
        assert(model.skip(0) =~= model);
    }
    while i < n
        invariant
            i <= n,
            n == variants@.len(),
            model == variants@.map_values(|v: Variant| v@),
            variant_containing(model, b) == variant_containing(model.skip(i as int), b),
        decreases n - i,
    {
        proof {
            assert(model.skip(i as int)[0] == model[i as int]);
            assert(model.skip(i as int).drop_first() =~= model.skip(i + 1 as int));
        }
        if variants[i].start <= b && b < variants[i].end {
            return Some(variants[i].name.clone());
        }
        i = i + 1;
    }
    proof {
        assert(model.skip(n as int) =~= Seq::<VariantModel>::empty());
    }
    None
}

/// Evaluate one strategy for `feature` against `ctx`.
///
/// Returns `Ok(None)` when the strategy has no opinion, so that the
/// feature's chain continues with the next strategy.
#[verifier::rlimit(100)]
pub fn evaluate(strategy: &Strategy, feature: &String, ctx: &Context) -> (r: Result<
    Option<Decision>,
    EvalError,
>)
    ensures
        eval_result_view(r) == eval_strategy(strategy@, feature@, ctx@),
{
    match strategy {
        Strategy::Value { enabled } => Ok(
            Some(
                Decision {
                    feature: feature.clone(),
                    enabled: *enabled,
                    variant: None,
                    maker: "value".to_owned(),
                    identifier: None,
                    bucket: None,
                    value: None,
                },
            ),
        ),
        Strategy::Range { identifier_kind, start, end } => {
            match ctx.get(identifier_kind) {
                None => Ok(None),
                Some(value) => {
                    if value.as_str().is_empty() {
                        Err(EvalError::EmptyIdentifierValue)
                    } else {
                        let b = bucket(feature.as_str(), value.as_str());
                        if *start <= b && b < *end {
                            Ok(
                                Some(
                                    Decision {
                                        feature: feature.clone(),
                                        enabled: true,
                                        variant: None,
                                        maker: "range".to_owned(),
                                        identifier: Some(value.clone()),
                                        bucket: Some(b),
                                        value: None,
                                    },
                                ),
                            )
                        } else {
                            Ok(None)
                        }
                    }
                },
            }
        },
        Strategy::Override { identifier_kind, entries } => {
            match ctx.get(identifier_kind) {
                None => Ok(None),
                Some(value) => {
                    match override_find(entries, value) {
                        Some(variant) => Ok(
                            Some(
                                Decision {
                                    feature: feature.clone(),
                                    enabled: true,
                                    variant: Some(variant),
                                    maker: "override".to_owned(),
                                    identifier: Some(value.clone()),
                                    bucket: None,
                                    value: None,
                                },
                            ),
                        ),
                        None => Ok(None),
                    }
                },
            }
        },
        Strategy::MultiVariant { identifier_kind, variants } => {
            match ctx.get(identifier_kind) {
                None => Ok(None),
                Some(value) => {
                    if value.as_str().is_empty() {
                        Err(EvalError::EmptyIdentifierValue)
                    } else {
                        let b = bucket(feature.as_str(), value.as_str());
                        match variant_find(variants, b) {
                            Some(name) => Ok(
                                Some(
                                    Decision {
                                        feature: feature.clone(),
                                        enabled: true,
                                        variant: Some(name),
                                        maker: "multi_variant".to_owned(),
                                        identifier: Some(value.clone()),
                                        bucket: Some(b),
                                        value: None,
                                    },
                                ),
                            ),
                            None => Ok(None),
                        }
                    }
                },
            }
        },
        Strategy::DynamicConfig { value } => Ok(
            Some(
                Decision {
                    feature: feature.clone(),
                    enabled: true,
                    variant: None,
                    maker: "dynamic_config".to_owned(),
                    identifier: None,
                    bucket: None,
                    value: Some(value.duplicate()),
                },
            ),
        ),
    }
}

} // verus!
