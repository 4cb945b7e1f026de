//! Feature definitions and configuration validation.
//!
//! A configuration table is the parsed set of per-feature definitions
//! handed over by the external configuration source. It is validated in
//! full before an engine is built: a strategy kind outside the chosen
//! registry, malformed range bounds, a multi-variant partition with a gap
//! or an overlap, or a duplicate feature name each fail validation, and
//! an invalid table never produces a usable engine. The first fault, in
//! table order, names the error.

use vstd::prelude::*;
use crate::bucket::BUCKET_SCALE;
use crate::strategy::{partition_valid, Strategy, StrategyModel, Variant};

verus! {

/// The kind of a strategy, without its parameters.
#[derive(Clone, Copy, Debug, PartialEq, Eq, Structural)]
pub enum StrategyKind {
    Value,
    Range,
    Override,
    MultiVariant,
    DynamicConfig,
}

/// The kind of a strategy.
pub open spec fn kind_of(s: StrategyModel) -> StrategyKind {
    match s {
        StrategyModel::Value { .. } => StrategyKind::Value,
        StrategyModel::Range { .. } => StrategyKind::Range,
        StrategyModel::Override { .. } => StrategyKind::Override,
        StrategyModel::MultiVariant { .. } => StrategyKind::MultiVariant,
        StrategyModel::DynamicConfig { .. } => StrategyKind::DynamicConfig,
    }
}

/// Why a configuration was rejected. Every fault is fatal: no engine is
/// built from a table that shows any of these.
#[derive(Clone, Copy, Debug, PartialEq, Eq, Structural)]
pub enum InitError {
    /// A feature names a strategy kind outside the chosen registry.
    UnknownStrategyKind,
    /// A range strategy has `start >= end` or reaches past the bucket
    /// space.
    InvalidRangeBounds,
    /// A multi-variant strategy's sub-ranges leave a gap in the bucket
    /// space or overlap in it.
    InvalidPartition,
    /// Two features in the table carry the same name.
    DuplicateFeatureName,
}

/// One feature definition: a unique name, the ordered chain of
/// strategies to try, and metadata that evaluation never reads.
#[derive(Clone, Debug, PartialEq, Eq)]
pub struct FeatureConfig {
    /// The feature's name, unique within a table.
    pub name: String,
    /// The ordered strategy chain; the first decisive strategy wins.
    pub strategies: Vec<Strategy>,
    /// Owner tag, carried through for downstream logging only.
    pub owner: Option<String>,
    /// Experiment tag, carried through for downstream logging only.
    pub experiment_id: Option<String>,
}

/// Mathematical model of a [`FeatureConfig`].
pub ghost struct FeatureConfigModel {
    pub name: Seq<char>,
    pub strategies: Seq<StrategyModel>,
    pub owner: Option<Seq<char>>,
    pub experiment_id: Option<Seq<char>>,
}

impl View for FeatureConfig {
    type V = FeatureConfigModel;

    open spec fn view(&self) -> FeatureConfigModel {
        FeatureConfigModel {
            name: self.name@,
            strategies: self.strategies@.map_values(|s: Strategy| s@),
            owner: crate::decision::opt_str_view(self.owner),
            experiment_id: crate::decision::opt_str_view(self.experiment_id),
        }
    }
}

/// The model of a whole table of feature definitions.
pub open spec fn table_view(features: Seq<FeatureConfig>) -> Seq<FeatureConfigModel> {
    features.map_values(|f: FeatureConfig| f@)
}

/// Whether a range strategy's bounds are well-formed: a non-empty
/// half-open range inside the bucket space.
pub open spec fn range_valid(start: u64, end: u64) -> bool {
    start < end && end <= BUCKET_SCALE
}

/// What validating one strategy against a registry yields: the first
/// fault, or nothing.
pub open spec fn validate_strategy(reg: Seq<StrategyKind>, s: StrategyModel) -> Result<
    (),
    InitError,
> {
    if !reg.contains(kind_of(s)) {
        Err(InitError::UnknownStrategyKind)
    } else {
        match s {
            StrategyModel::Range { identifier_kind, start, end } => {
                if range_valid(start, end) {
                    Ok(())
                } else {
                    Err(InitError::InvalidRangeBounds)
                }
            },
            StrategyModel::MultiVariant { identifier_kind, variants } => {
                if partition_valid(variants) {
                    Ok(())
                } else {
                    Err(InitError::InvalidPartition)
                }
            },
            _ => Ok(()),
        }
    }
}

/// What validating a strategy chain yields: the first fault, in chain
/// order, or nothing.
pub open spec fn validate_strategies(reg: Seq<StrategyKind>, chain: Seq<StrategyModel>) -> Result<
    (),
    InitError,
>
    decreases chain.len(),
{
    if chain.len() == 0 {
        Ok(())
    } else {
        match validate_strategy(reg, chain[0]) {
            Err(e) => Err(e),
            Ok(u) => validate_strategies(reg, chain.drop_first()),
        }
    }
}

/// What validating the remaining features yields, given the names
/// already `seen` earlier in the table: the first fault, in table order,
/// or nothing.
pub open spec fn validate_table_from(
    reg: Seq<StrategyKind>,
    features: Seq<FeatureConfigModel>,
    seen: Seq<Seq<char>>,
) -> Result<(), InitError>
    decreases features.len(),
{
    if features.len() == 0 {
        Ok(())
    } else if seen.contains(features[0].name) {
        Err(InitError::DuplicateFeatureName)
    } else {
        match validate_strategies(reg, features[0].strategies) {
            Err(e) => Err(e),
            Ok(u) => validate_table_from(reg, features.drop_first(), seen.push(features[0].name)),
        }
    }
}

/// What validating a whole table against a registry yields: the first
/// fault, in table order, or nothing.
pub open spec fn validate_table(reg: Seq<StrategyKind>, features: Seq<FeatureConfigModel>) -> Result<
    (),
    InitError,
> {
    validate_table_from(reg, features, Seq::empty())
}

/// Whether every strategy of the chain passes validation.
pub open spec fn chain_valid(reg: Seq<StrategyKind>, chain: Seq<StrategyModel>) -> bool {
    forall|i: int| 0 <= i < chain.len() ==> validate_strategy(reg, #[trigger] chain[i]) is Ok
}

/// Whether no two features of the table share a name.
pub open spec fn names_unique(features: Seq<FeatureConfigModel>) -> bool {
    forall|i: int, j: int|
        0 <= i < j < features.len() ==> (#[trigger] features[i]).name != (
        #[trigger] features[j]).name
}

/// Whether the whole table is valid: unique names, every chain valid.
pub open spec fn table_valid(reg: Seq<StrategyKind>, features: Seq<FeatureConfigModel>) -> bool {
    names_unique(features) && forall|i: int|
        0 <= i < features.len() ==> chain_valid(reg, (#[trigger] features[i]).strategies)
}

/// Validating a chain succeeds exactly when every strategy in it is
/// valid.
proof fn lemma_validate_strategies_ok(reg: Seq<StrategyKind>, chain: Seq<StrategyModel>)
    ensures
        validate_strategies(reg, chain) is Ok <==> chain_valid(reg, chain),
    decreases chain.len(),
{
    if chain.len() > 0 {
        lemma_validate_strategies_ok(reg, chain.drop_first());
        assert(forall|i: int|
            0 <= i < chain.drop_first().len() ==> #[trigger] chain.drop_first()[i] == chain[i
                + 1]);
        if validate_strategy(reg, chain[0]) is Ok && chain_valid(reg, chain.drop_first()) {
            assert forall|i: int| 0 <= i < chain.len() implies validate_strategy(
                reg,
                #[trigger] chain[i],
            ) is Ok by {
                if i > 0 {
                    assert(chain.drop_first()[i - 1] == chain[i]);
                }
            }
        }
    }
}

/// Validating a table succeeds exactly when no name repeats — among the
/// features or against the names already seen — and every chain is
/// valid.
proof fn lemma_validate_table_from_ok(
    reg: Seq<StrategyKind>,
    features: Seq<FeatureConfigModel>,
    seen: Seq<Seq<char>>,
)
    ensures
        validate_table_from(reg, features, seen) is Ok <==> ((forall|i: int|
            0 <= i < features.len() ==> !seen.contains(
                (#[trigger] features[i]).name,
            )) && table_valid(reg, features)),
    decreases features.len(),
{
    if features.len() == 0 {
    } else {
        let tail = features.drop_first();
        let head = features[0];
        assert(forall|i: int| 0 <= i < tail.len() ==> #[trigger] tail[i] == features[i + 1]);
        lemma_validate_table_from_ok(reg, tail, seen.push(head.name));
        lemma_validate_strategies_ok(reg, head.strategies);
        if validate_table_from(reg, features, seen) is Ok {
            assert(!seen.contains(head.name));
            assert(validate_strategies(reg, head.strategies) is Ok);
            assert forall|i: int| 0 <= i < features.len() implies !seen.contains(
                (#[trigger] features[i]).name,
            ) by {
                if i > 0 {
                    assert(tail[i - 1] == features[i]);
                    assert(!seen.push(head.name).contains(tail[i - 1].name));
                    if seen.contains(features[i].name) {
                        let w = choose|w: int| 0 <= w < seen.len() && seen[w] == features[i].name;
                        assert(seen.push(head.name)[w] == features[i].name);
                    }
                }
            }
            assert forall|i: int, j: int| 0 <= i < j < features.len() implies (
            #[trigger] features[i]).name != (#[trigger] features[j]).name by {
                if i == 0 {
                    assert(tail[j - 1] == features[j]);
                    assert(!seen.push(head.name).contains(tail[j - 1].name));
                    assert(seen.push(head.name)[seen.len() as int] == head.name);
                } else {
                    assert(tail[i - 1] == features[i]);
                    assert(tail[j - 1] == features[j]);
                }
            }
            assert forall|i: int| 0 <= i < features.len() implies chain_valid(
                reg,
                (#[trigger] features[i]).strategies,
            ) by {
                if i > 0 {
                    assert(tail[i - 1] == features[i]);
                }
            }
        }
        if (forall|i: int|
            0 <= i < features.len() ==> !seen.contains((#[trigger] features[i]).name))
            && table_valid(reg, features) {
            assert(!seen.contains(head.name));
            assert(chain_valid(reg, head.strategies));
            assert forall|i: int| 0 <= i < tail.len() implies !seen.push(head.name).contains(
                (#[trigger] tail[i]).name,
            ) by {
                assert(tail[i] == features[i + 1]);
                assert(features[0].name != features[i + 1].name);
                if seen.push(head.name).contains(tail[i].name) {
                    let w = choose|w: int|
                        0 <= w < seen.push(head.name).len() && seen.push(head.name)[w]
                            == tail[i].name;
                    if w < seen.len() {
                        assert(seen[w] == tail[i].name);
                    }
                }
            }
            assert forall|i: int, j: int| 0 <= i < j < tail.len() implies (
            #[trigger] tail[i]).name != (#[trigger] tail[j]).name by {
                assert(tail[i] == features[i + 1]);
                assert(tail[j] == features[j + 1]);
            }
            assert forall|i: int| 0 <= i < tail.len() implies chain_valid(
                reg,
                (#[trigger] tail[i]).strategies,
            ) by {
                assert(tail[i] == features[i + 1]);
            }
        }
    }
}

/// Law: validation is complete and sound. A table passes validation
/// exactly when its feature names are unique and every strategy of
/// every chain is well-formed and drawn from the registry.
pub proof fn lemma_validate_table_ok(reg: Seq<StrategyKind>, features: Seq<FeatureConfigModel>)
    ensures
        validate_table(reg, features) is Ok <==> table_valid(reg, features),
{
    lemma_validate_table_from_ok(reg, features, Seq::empty());
}

/// A registry that admits every strategy kind.
pub fn registry_all() -> (r: Vec<StrategyKind>)
    ensures
        forall|k: StrategyKind| r@.contains(k),
{
    let r = vec![
        StrategyKind::Value,
        StrategyKind::Range,
        StrategyKind::Override,
        StrategyKind::MultiVariant,
        StrategyKind::DynamicConfig,
    ];
    proof {
        assert forall|k: StrategyKind| r@.contains(k) by {
            match k {
                StrategyKind::Value => assert(r@[0] == k),
                StrategyKind::Range => assert(r@[1] == k),
                StrategyKind::Override => assert(r@[2] == k),
                StrategyKind::MultiVariant => assert(r@[3] == k),
                StrategyKind::DynamicConfig => assert(r@[4] == k),
            }
        }
    }
    r
}

/// Whether the registry admits kind `k`.
fn registry_allows(reg: &Vec<StrategyKind>, k: StrategyKind) -> (r: bool)
    ensures
        r == reg@.contains(k),
{
    let n = reg.len();
    let mut i: usize = 0;
    while i < n
        invariant
            i <= n,
            n == reg@.len(),
            forall|j: int| 0 <= j < i ==> reg@[j] != k,
        decreases n - i,
    {
        if reg[i] == k {
            return true;
        }
        i = i + 1;
    }
    false
}

/// Whether the sub-ranges of `variants` partition the bucket space.
fn check_partition(variants: &Vec<Variant>) -> (r: bool)
    ensures
        r == partition_valid(variants@.map_values(|v: Variant| v@)),
{
    let ghost model = variants@.map_values(|v: Variant| v@);
    let n = variants.len();
    if n == 0 {
        return false;
    }
    proof {
        assert(model[0] == variants@[0]@);
        assert(model[n - 1] == variants@[n - 1 as int]@);
    }
    if variants[0].start != 0 {
        return false;
    }
    if variants[n - 1].end != BUCKET_SCALE {
        return false;
    }
    let mut i: usize = 0;
    while i < n
        invariant
            i <= n,
            n == variants@.len(),
            model == variants@.map_values(|v: Variant| v@),
            model[0].start == 0,
            model[n - 1].end == BUCKET_SCALE,
            forall|j: int| 0 <= j < i ==> (#[trigger] model[j]).start < model[j].end,
            forall|j: int| 0 <= j < i && j < n - 1 ==> (#[trigger] model[j + 1]).start
                == model[j].end,
        decreases n - i,
    {
        proof {
            assert(model[i as int] == variants@[i as int]@);
            if i + 1 < n {
                assert(model[i + 1 as int] == variants@[i + 1 as int]@);
            }
        }
        if variants[i].start >= variants[i].end {
            return false;
        }
        if i + 1 < n && variants[i + 1].start != variants[i].end {
            return false;
        }
        i = i + 1;
    }
    true
}

/// Validate one strategy against the registry.
fn check_strategy(reg: &Vec<StrategyKind>, s: &Strategy) -> (r: Result<(), InitError>)
    ensures
        r == validate_strategy(reg@, s@),
{
    let kind = match s {
        Strategy::Value { .. } => StrategyKind::Value,
        Strategy::Range { .. } => StrategyKind::Range,
        Strategy::Override { .. } => StrategyKind::Override,
        Strategy::MultiVariant { .. } => StrategyKind::MultiVariant,
        Strategy::DynamicConfig { .. } => StrategyKind::DynamicConfig,
    };
    if !registry_allows(reg, kind) {
        return Err(InitError::UnknownStrategyKind);
    }
    match s {
        Strategy::Range { identifier_kind, start, end } => {
            if *start < *end && *end <= BUCKET_SCALE {
                Ok(())
            } else {
                Err(InitError::InvalidRangeBounds)
            }
        },
        Strategy::MultiVariant { identifier_kind, variants } => {
            if check_partition(variants) {
                Ok(())
            } else {
                Err(InitError::InvalidPartition)
            }
        },
        _ => Ok(()),
    }
}

/// Validate a whole strategy chain, first fault first.
fn check_chain(reg: &Vec<StrategyKind>, chain: &Vec<Strategy>) -> (r: Result<(), InitError>)
    ensures
        r == validate_strategies(reg@, chain@.map_values(|s: Strategy| s@)),
{
    let ghost model = chain@.map_values(|s: Strategy| s@);
    let n = chain.len();
    let mut i: usize = 0;
    proof {
        assert(model.skip(0) =~= model);
    }
    while i < n
        invariant
            i <= n,
            n == chain@.len(),
            model == chain@.map_values(|s: Strategy| s@),
            validate_strategies(reg@, model) == validate_strategies(reg@, model.skip(i as int)),
        decreases n - i,
    {
        proof {
            assert(model.skip(i as int)[0] == model[i as int]);
            assert(model.skip(i as int).drop_first() =~= model.skip(i + 1 as int));
        }
        match check_strategy(reg, &chain[i]) {
            Err(e) => {
                return Err(e);
            },
            Ok(u) => {},
        }
        i = i + 1;
    }
    proof {
        assert(model.skip(n as int) =~= Seq::<StrategyModel>::empty());
    }
    Ok(())
}

/// Validate a whole table against the registry: the result is the first
/// fault in table order, or nothing.
pub(crate) fn check_table(reg: &Vec<StrategyKind>, features: &Vec<FeatureConfig>) -> (r: Result<
    (),
    InitError,
>)
    ensures
        r == validate_table(reg@, table_view(features@)),
{
    let ghost model = table_view(features@);
    let n = features.len();
    let mut i: usize = 0;
    proof {
        assert(model.skip(0) =~= model);
        assert(model.take(0).map_values(|f: FeatureConfigModel| f.name)
            =~= Seq::<Seq<char>>::empty());
    }
    while i < n
        invariant
            i <= n,
            n == features@.len(),
            model == table_view(features@),
            validate_table_from(reg@, model, Seq::empty()) == validate_table_from(
                reg@,
                model.skip(i as int),
                model.take(i as int).map_values(|f: FeatureConfigModel| f.name),
            ),
        decreases n - i,
    {
        let ghost seen = model.take(i as int).map_values(|f: FeatureConfigModel| f.name);
        proof {
            assert(model.skip(i as int)[0] == model[i as int]);
            assert(model.skip(i as int).drop_first() =~= model.skip(i + 1 as int));
        }
        let mut j: usize = 0;
        while j < i
            invariant
                j <= i < n,
                n == features@.len(),
                model == table_view(features@),
                seen == model.take(i as int).map_values(|f: FeatureConfigModel| f.name),
                validate_table_from(reg@, model, Seq::empty()) == validate_table_from(
                    reg@,
                    model.skip(i as int),
                    seen,
                ),
                forall|q: int| 0 <= q < j ==> (#[trigger] model[q]).name != model[i as int].name,
            decreases i - j,
        {
            if features[j].name == features[i].name {
                proof {
                    assert(model[j as int] == features@[j as int]@);
                    assert(model[i as int] == features@[i as int]@);
                    assert(model.take(i as int)[j as int] == model[j as int]);
                    assert(seen[j as int] == model[j as int].name);
                    assert(seen.contains(model[i as int].name));
                    assert(model.skip(i as int)[0] == model[i as int]);
                }
                return Err(InitError::DuplicateFeatureName);
            }
            j = j + 1;
        }
        proof {
            assert(!seen.contains(model[i as int].name)) by {
                if seen.contains(model[i as int].name) {
                    let w = choose|w: int|
                        0 <= w < seen.len() && seen[w] == model[i as int].name;
                    assert(seen[w] == model[w].name);
                }
            }
        }
        match check_chain(reg, &features[i].strategies) {
            Err(e) => {
                return Err(e);
            },
            Ok(u) => {},
        }
        proof {
            assert(seen.push(model[i as int].name) =~= model.take(i + 1 as int).map_values(
                |f: FeatureConfigModel| f.name,
            ));
        }
        i = i + 1;
    }
    proof {
        assert(model.skip(n as int) =~= Seq::<FeatureConfigModel>::empty());
    }
    Ok(())
}

} // verus!
