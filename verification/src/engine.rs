//! The engine facade: a long-lived decider owning one validated
//! configuration table.
//!
//! A decider is built once by [`Decider::init`], which validates the
//! whole table up front — an invalid configuration never produces a
//! decider — and is then shared read-only: [`Decider::decide`] walks the
//! named feature's strategy chain, first decisive strategy wins, and
//! resolves to the disabled default when every strategy declines. The
//! call is pure: its result is a function of the table, the feature name
//! and the context alone.

use vstd::prelude::*;
use crate::config::{
    check_table,
    validate_table,
    table_view,
    FeatureConfig,
    FeatureConfigModel,
    InitError,
    StrategyKind,
};
use crate::context::Context;
use crate::decision::{default_decision, Decision, DecisionModel};
use crate::strategy::{
    eval_strategy,
    evaluate,
    EvalError,
    OverrideEntryModel,
    override_lookup,
    StrategyModel,
};

verus! {

/// Why a decision could not be made.
#[derive(Clone, Copy, Debug, PartialEq, Eq, Structural)]
pub enum ChooseError {
    /// The named feature is not in the loaded table. Recoverable: the
    /// caller typically treats the feature as off.
    UnknownFeature,
    /// A strategy received a malformed identifier from the context.
    Evaluation(EvalError),
}

/// The first feature of that name in the table, if any.
pub open spec fn feature_lookup(table: Seq<FeatureConfigModel>, name: Seq<char>) -> Option<
    FeatureConfigModel,
>
    decreases table.len(),
{
    if table.len() == 0 {
        None
    } else if table[0].name == name {
        Some(table[0])
    } else {
        feature_lookup(table.drop_first(), name)
    }
}

/// What a strategy chain resolves to: the decision of the first
/// strategy with an opinion, the disabled default when every strategy
/// declines, or the first strategy error.
pub open spec fn eval_chain(
    chain: Seq<StrategyModel>,
    feature: Seq<char>,
    ctx: Map<Seq<char>, Seq<char>>,
) -> Result<DecisionModel, EvalError>
    decreases chain.len(),
{
    if chain.len() == 0 {
        Ok(default_decision(feature))
    } else {
        match eval_strategy(chain[0], feature, ctx) {
            Err(e) => Err(e),
            Ok(Some(d)) => Ok(d),
            Ok(None) => eval_chain(chain.drop_first(), feature, ctx),
        }
    }
}

/// What one decision call returns: the resolution of the named
/// feature's chain, or `UnknownFeature` for a name the table lacks.
pub open spec fn decide_spec(
    table: Seq<FeatureConfigModel>,
    feature: Seq<char>,
    ctx: Map<Seq<char>, Seq<char>>,
) -> Result<DecisionModel, ChooseError> {
    match feature_lookup(table, feature) {
        None => Err(ChooseError::UnknownFeature),
        Some(fc) => match eval_chain(fc.strategies, feature, ctx) {
            Ok(d) => Ok(d),
            Err(e) => Err(ChooseError::Evaluation(e)),
        },
    }
}

/// The model of a decision call's result.
pub open spec fn decide_result_view(r: Result<Decision, ChooseError>) -> Result<
    DecisionModel,
    ChooseError,
> {
    match r {
        Ok(d) => Ok(d@),
        Err(e) => Err(e),
    }
}

/// A validated, immutable table of feature definitions.
pub struct ConfigTable {
    features: Vec<FeatureConfig>,
}

impl View for ConfigTable {
    type V = Seq<FeatureConfigModel>;

    closed spec fn view(&self) -> Seq<FeatureConfigModel> {
        table_view(self.features@)
    }
}

impl ConfigTable {
    /// The first feature of that name, if any.
    fn find(&self, name: &String) -> (r: Option<&FeatureConfig>)
        ensures
            (match r {
                Some(fc) => feature_lookup(self@, name@) == Some(fc@),
                None => feature_lookup(self@, name@) is None,
            }),
    {
        let n = self.features.len();
        let mut i: usize = 0;
        proof {
            assert(self@.skip(0) =~= self@);
        }
        while i < n
            invariant
                i <= n,
                n == self.features@.len(),
                feature_lookup(self@, name@) == feature_lookup(self@.skip(i as int), name@),
            decreases n - i,
        {
            proof {
                assert(self@.skip(i as int)[0] == self@[i as int]);
                assert(self@.skip(i as int).drop_first() =~= self@.skip(i + 1 as int));
                assert(self@[i as int] == self.features@[i as int]@);
            }
            if self.features[i].name == *name {
                return Some(&self.features[i]);
            }
            i = i + 1;
        }
        proof {
            assert(self@.skip(n as int) =~= Seq::<FeatureConfigModel>::empty());
        }
        None
    }
}

/// The decision engine: one validated configuration table, shared
/// read-only by every request for the life of the service.
pub struct Decider {
    table: ConfigTable,
}

impl View for Decider {
    type V = Seq<FeatureConfigModel>;

    closed spec fn view(&self) -> Seq<FeatureConfigModel> {
        self.table@
    }
}

impl Decider {
    /// Build a decider from a parsed feature table, validating it in
    /// full against the registry of admitted strategy kinds.
    ///
    /// Fails fast: the first fault of the table, in table order, is
    /// returned and no decider exists. A decider is only ever built
    /// from a table that validates whole.
    pub fn init(registry: &Vec<StrategyKind>, features: Vec<FeatureConfig>) -> (r: Result<
        Decider,
        InitError,
    >)
        ensures
            (match r {
                Ok(d) => validate_table(registry@, table_view(features@)) is Ok && d@
                    == table_view(features@),
                Err(e) => validate_table(registry@, table_view(features@)) == Err::<(), InitError>(
                    e,
                ),
            }),
    {
        match check_table(registry, &features) {
            Ok(u) => Ok(Decider { table: ConfigTable { features } }),
            Err(e) => Err(e),
        }
    }

    /// Resolve `feature_name` for `ctx`.
    ///
    /// Walks the feature's strategy chain in configured order; the
    /// first strategy with an opinion or an error ends the walk, and a
    /// chain of declines resolves to the disabled default. Returns
    /// `UnknownFeature` for a name the table lacks, exactly then. The
    /// result is a pure function of table, name and context: repeated
    /// calls, here or in any instance loaded from the same table,
    /// return the identical decision.
    #[verifier::rlimit(100)]
    pub fn decide(&self, feature_name: &String, ctx: &Context) -> (r: Result<
        Decision,
        ChooseError,
    >)
        ensures
            decide_result_view(r) == decide_spec(self@, feature_name@, ctx@),
    {
        let feature = match self.table.find(feature_name) {
            None => {
                return Err(ChooseError::UnknownFeature);
            },
            Some(f) => f,
        };
        let ghost chain = feature@.strategies;
        let n = feature.strategies.len();
        let mut i: usize = 0;
        proof {
            assert(chain.skip(0) =~= chain);
        }
        while i < n
            invariant
                i <= n,
                n == feature.strategies@.len(),
                chain == feature@.strategies,
                feature_lookup(self@, feature_name@) == Some(feature@),
                eval_chain(chain, feature_name@, ctx@) == eval_chain(
                    chain.skip(i as int),
                    feature_name@,
                    ctx@,
                ),
            decreases n - i,
        {
            proof {
                assert(chain.skip(i as int)[0] == chain[i as int]);
                assert(chain.skip(i as int).drop_first() =~= chain.skip(i + 1 as int));
                assert(chain[i as int] == feature.strategies@[i as int]@);
            }
            match evaluate(&feature.strategies[i], feature_name, ctx) {
                Err(e) => {
                    return Err(ChooseError::Evaluation(e));
                },
                Ok(Some(d)) => {
                    return Ok(d);
                },
                Ok(None) => {},
            }
            i = i + 1;
        }
        proof {
            assert(chain.skip(n as int) =~= Seq::<StrategyModel>::empty());
        }
        Ok(
            Decision {
                feature: feature_name.clone(),
                enabled: false,
                variant: None,
                maker: "default".to_owned(),
                identifier: None,
                bucket: None,
                value: None,
            },
        )
    }
}

/// Law: determinism. What a decision call returns is a function of the
/// table model, the feature name and the context alone; two calls over
/// equal models — in one instance, or in two instances loaded from the
/// same configuration — return the identical decision.
pub proof fn lemma_decide_deterministic(
    table1: Seq<FeatureConfigModel>,
    table2: Seq<FeatureConfigModel>,
    feature: Seq<char>,
    ctx: Map<Seq<char>, Seq<char>>,
)
    requires
        table1 == table2,
    ensures
        decide_spec(table1, feature, ctx) == decide_spec(table2, feature, ctx),
{
}

/// Law: unknown feature. A name the table lacks resolves to
/// `UnknownFeature`, whatever the context holds.
pub proof fn lemma_unknown_feature(
    table: Seq<FeatureConfigModel>,
    feature: Seq<char>,
    ctx: Map<Seq<char>, Seq<char>>,
)
    requires
        feature_lookup(table, feature) is None,
    ensures
        decide_spec(table, feature, ctx) == Err::<DecisionModel, ChooseError>(
            ChooseError::UnknownFeature,
        ),
{
}

/// Law: override precedence. When an override strategy stands first in
/// a chain and its table pins the context's identifier value, the chain
/// resolves to the pinned variant — whatever strategies follow, and
/// whatever bucket the identifier would hash to.
pub proof fn lemma_override_precedence(
    identifier_kind: Seq<char>,
    entries: Seq<OverrideEntryModel>,
    rest: Seq<StrategyModel>,
    feature: Seq<char>,
    ctx: Map<Seq<char>, Seq<char>>,
)
    requires
        ctx.contains_key(identifier_kind),
        override_lookup(entries, ctx[identifier_kind]) is Some,
    ensures
        eval_chain(
            seq![StrategyModel::Override { identifier_kind, entries }] + rest,
            feature,
            ctx,
        ) == Ok::<DecisionModel, EvalError>(
            DecisionModel {
                feature,
                enabled: true,
                variant: Some(override_lookup(entries, ctx[identifier_kind])->Some_0),
                maker: "override"@,
                identifier: Some(ctx[identifier_kind]),
                bucket: None,
                value: None,
            },
        ),
{
    let chain = seq![StrategyModel::Override { identifier_kind, entries }] + rest;
    assert(chain[0] == StrategyModel::Override { identifier_kind, entries });
    assert(chain.len() > 0);
}

/// Law: override precedence, at any chain position. When every strategy
/// before the override declines and the override's table pins the
/// context's identifier value, the chain resolves to the pinned variant
/// — whatever strategies follow it, and whatever bucket the identifier
/// would hash to in any of them.
pub proof fn lemma_override_precedence_at(
    prefix: Seq<StrategyModel>,
    identifier_kind: Seq<char>,
    entries: Seq<OverrideEntryModel>,
    rest: Seq<StrategyModel>,
    feature: Seq<char>,
    ctx: Map<Seq<char>, Seq<char>>,
)
    requires
        forall|i: int|
            0 <= i < prefix.len() ==> eval_strategy(#[trigger] prefix[i], feature, ctx) == Ok::<
                Option<DecisionModel>,
                EvalError,
            >(None),
        ctx.contains_key(identifier_kind),
        override_lookup(entries, ctx[identifier_kind]) is Some,
    ensures
        eval_chain(
            prefix + seq![StrategyModel::Override { identifier_kind, entries }] + rest,
            feature,
            ctx,
        ) == Ok::<DecisionModel, EvalError>(
            DecisionModel {
                feature,
                enabled: true,
                variant: Some(override_lookup(entries, ctx[identifier_kind])->Some_0),
                maker: "override"@,
                identifier: Some(ctx[identifier_kind]),
                bucket: None,
                value: None,
            },
        ),
    decreases prefix.len(),
{
    let mid = seq![StrategyModel::Override { identifier_kind, entries }];
    if prefix.len() == 0 {
        assert(prefix + mid + rest =~= mid + rest);
        lemma_override_precedence(identifier_kind, entries, rest, feature, ctx);
    } else {
        let chain = prefix + mid + rest;
        assert(chain[0] == prefix[0]);
        assert(chain.drop_first() =~= prefix.drop_first() + mid + rest);
        assert(forall|i: int|
            0 <= i < prefix.drop_first().len() ==> #[trigger] prefix.drop_first()[i] == prefix[i
                + 1]);
        lemma_override_precedence_at(
            prefix.drop_first(),
            identifier_kind,
            entries,
            rest,
            feature,
            ctx,
        );
    }
}

} // verus!
