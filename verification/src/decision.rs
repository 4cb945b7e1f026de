//! The decision record: the immutable result of one evaluation.
//!
//! Besides the enabled flag and the optional variant name, a decision
//! carries an exposure payload — which strategy resolved it, and the
//! identifier value and bucket it was resolved from — for the caller to
//! emit as a structured telemetry event.

use vstd::prelude::*;

verus! {

/// A structured configuration value, as returned by a dynamic
/// configuration strategy.
#[derive(Clone, Debug, PartialEq, Eq)]
pub enum DynValue {
    Boolean(bool),
    Integer(i64),
    Text(String),
}

/// Mathematical model of a [`DynValue`].
pub ghost enum DynValueModel {
    Boolean(bool),
    Integer(i64),
    Text(Seq<char>),
}

impl View for DynValue {
    type V = DynValueModel;

    open spec fn view(&self) -> DynValueModel {
        match self {
            DynValue::Boolean(b) => DynValueModel::Boolean(*b),
            DynValue::Integer(n) => DynValueModel::Integer(*n),
            DynValue::Text(s) => DynValueModel::Text(s@),
        }
    }
}

impl DynValue {
    /// A copy of this value; the derived clone carries no contract.
    pub fn duplicate(&self) -> (r: DynValue)
        ensures
            r@ == self@,
    {
        match self {
            DynValue::Boolean(b) => DynValue::Boolean(*b),
            DynValue::Integer(n) => DynValue::Integer(*n),
            DynValue::Text(s) => DynValue::Text(s.clone()),
        }
    }
}

/// The view of an optional string.
pub open spec fn opt_str_view(o: Option<String>) -> Option<Seq<char>> {
    match o {
        Some(s) => Some(s@),
        None => None,
    }
}

/// The view of an optional structured value.
pub open spec fn opt_value_view(o: Option<DynValue>) -> Option<DynValueModel> {
    match o {
        Some(v) => Some(v@),
        None => None,
    }
}

/// The result of one evaluation of a feature against a context.
#[derive(Clone, Debug, PartialEq, Eq)]
pub struct Decision {
    /// The feature that was evaluated.
    pub feature: String,
    /// Whether the feature is active for this context.
    pub enabled: bool,
    /// The variant assigned by a multi-variant or override strategy.
    pub variant: Option<String>,
    /// Exposure payload: the name of the strategy that resolved the
    /// decision (`"default"` when no strategy had an opinion).
    pub maker: String,
    /// Exposure payload: the identifier value the decision was bucketed
    /// or matched on, if any.
    pub identifier: Option<String>,
    /// Exposure payload: the bucket the identifier hashed to, if the
    /// resolving strategy bucketed at all.
    pub bucket: Option<u64>,
    /// The structured value of a dynamic configuration strategy.
    pub value: Option<DynValue>,
}

/// Mathematical model of a [`Decision`].
pub ghost struct DecisionModel {
    pub feature: Seq<char>,
    pub enabled: bool,
    pub variant: Option<Seq<char>>,
    pub maker: Seq<char>,
    pub identifier: Option<Seq<char>>,
    pub bucket: Option<u64>,
    pub value: Option<DynValueModel>,
}

impl View for Decision {
    type V = DecisionModel;

    open spec fn view(&self) -> DecisionModel {
        DecisionModel {
            feature: self.feature@,
            enabled: self.enabled,
            variant: opt_str_view(self.variant),
            maker: self.maker@,
            identifier: opt_str_view(self.identifier),
            bucket: self.bucket,
            value: opt_value_view(self.value),
        }
    }
}

/// The decision a feature resolves to when every strategy in its chain
/// declines: disabled, no variant, nothing bucketed.
pub open spec fn default_decision(feature: Seq<char>) -> DecisionModel {
    DecisionModel {
        feature,
        enabled: false,
        variant: None,
        maker: "default"@,
        identifier: None,
        bucket: None,
        value: None,
    }
}

} // verus!
