use decider::bucket::{bucket, BUCKET_SCALE};
use decider::config::{registry_all, FeatureConfig, InitError, StrategyKind};
use decider::context::Context;
use decider::decision::DynValue;
use decider::engine::{ChooseError, Decider};
use decider::strategy::{EvalError, OverrideEntry, Strategy, Variant};

fn ctx_of(pairs: &[(&str, &str)]) -> Context {
    let mut ctx = Context::new();
    for (kind, value) in pairs {
        ctx.set(kind.to_string(), value.to_string());
    }
    ctx
}

fn feature(name: &str, strategies: Vec<Strategy>) -> FeatureConfig {
    FeatureConfig {
        name: name.to_string(),
        strategies,
        owner: None,
        experiment_id: None,
    }
}

fn range(kind: &str, start: u64, end: u64) -> Strategy {
    Strategy::Range {
        identifier_kind: kind.to_string(),
        start,
        end,
    }
}

fn dark_mode_table() -> Vec<FeatureConfig> {
    vec![feature("dark_mode", vec![range("user_id", 0, BUCKET_SCALE / 2)])]
}

fn checkout_table() -> Vec<FeatureConfig> {
    vec![feature(
        "checkout_experiment",
        vec![
            Strategy::Override {
                identifier_kind: "user_id".to_string(),
                entries: vec![OverrideEntry {
                    value: "qa_tester".to_string(),
                    variant: "treatment".to_string(),
                }],
            },
            Strategy::MultiVariant {
                identifier_kind: "user_id".to_string(),
                variants: vec![
                    Variant {
                        name: "control".to_string(),
                        start: 0,
                        end: BUCKET_SCALE / 2,
                    },
                    Variant {
                        name: "treatment".to_string(),
                        start: BUCKET_SCALE / 2,
                        end: BUCKET_SCALE,
                    },
                ],
            },
        ],
    )]
}

fn init_all(features: Vec<FeatureConfig>) -> Decider {
    Decider::init(&registry_all(), features).expect("valid configuration")
}

#[test]
fn determinism_repeated_calls() {
    let decider = init_all(dark_mode_table());
    let ctx = ctx_of(&[("user_id", "alice")]);
    let first = decider.decide(&"dark_mode".to_string(), &ctx).unwrap();
    for _ in 0..10 {
        let again = decider.decide(&"dark_mode".to_string(), &ctx).unwrap();
        assert_eq!(first, again);
    }
}

#[test]
fn determinism_across_instances() {
    let d1 = init_all(dark_mode_table());
    let d2 = init_all(dark_mode_table());
    for user in ["alice", "bob", "carol", "dave"] {
        let ctx = ctx_of(&[("user_id", user)]);
        let r1 = d1.decide(&"dark_mode".to_string(), &ctx).unwrap();
        let r2 = d2.decide(&"dark_mode".to_string(), &ctx).unwrap();
        assert_eq!(r1, r2);
    }
}

#[test]
fn bucket_stable_across_calls() {
    let b1 = bucket("dark_mode", "alice");
    let b2 = bucket("dark_mode", "alice");
    assert_eq!(b1, b2);
    assert!(b1 < BUCKET_SCALE);
    // Renaming the feature is meant to reshuffle buckets; equal buckets
    // for different names would be an accident of the hash.
    assert_ne!(bucket("dark_mode", "alice"), bucket("light_mode", "alice"));
}

#[test]
fn bucket_matches_reference_formula() {
    // The same hash, written out independently: 64-bit Fowler-Noll-Vo
    // over the characters of "dark_mode:alice", then the multiply-
    // xorshift finalizer, reduced to bucket units.
    let mut h: u64 = 0xcbf2_9ce4_8422_2325;
    for c in "dark_mode:alice".chars() {
        h = (h ^ (c as u32 as u64)).wrapping_mul(0x0000_0100_0000_01b3);
    }
    h = (h ^ (h >> 33)).wrapping_mul(0xff51_afd7_ed55_8ccd);
    h = (h ^ (h >> 33)).wrapping_mul(0xc4ce_b9fe_1a85_ec53);
    h ^= h >> 33;
    assert_eq!(bucket("dark_mode", "alice"), h % BUCKET_SCALE);
}

#[test]
fn percentage_accuracy() {
    // A range covering 30% of the bucket space enables close to 30% of
    // distinct identifiers: within one percentage point over 100000.
    let p_units = 3 * BUCKET_SCALE / 10;
    let decider = init_all(vec![feature(
        "rollout",
        vec![range("user_id", 0, p_units)],
    )]);
    let n: u64 = 100_000;
    let mut enabled: u64 = 0;
    for i in 0..n {
        let ctx = ctx_of(&[("user_id", &format!("user{}", i))]);
        let d = decider.decide(&"rollout".to_string(), &ctx).unwrap();
        if d.enabled {
            enabled += 1;
        }
    }
    let expected = n * 3 / 10;
    let tolerance = n / 100;
    assert!(
        enabled + tolerance >= expected && enabled <= expected + tolerance,
        "enabled {} of {}, expected about {}",
        enabled,
        n,
        expected
    );
}

#[test]
fn partition_maps_every_identifier() {
    let decider = init_all(checkout_table());
    for i in 0..1000 {
        let user = format!("user{}", i);
        let ctx = ctx_of(&[("user_id", &user)]);
        let d = decider
            .decide(&"checkout_experiment".to_string(), &ctx)
            .unwrap();
        assert!(d.enabled);
        let variant = d.variant.expect("every bucket maps to a variant");
        let b = bucket("checkout_experiment", &user);
        if user != "qa_tester" {
            if b < BUCKET_SCALE / 2 {
                assert_eq!(variant, "control");
            } else {
                assert_eq!(variant, "treatment");
            }
            assert_eq!(d.bucket, Some(b));
        }
    }
}

#[test]
fn partition_gap_rejected() {
    let bad = vec![feature(
        "exp",
        vec![Strategy::MultiVariant {
            identifier_kind: "user_id".to_string(),
            variants: vec![
                Variant {
                    name: "a".to_string(),
                    start: 0,
                    end: 400_000,
                },
                Variant {
                    name: "b".to_string(),
                    start: 500_000,
                    end: BUCKET_SCALE,
                },
            ],
        }],
    )];
    assert_eq!(
        Decider::init(&registry_all(), bad).err(),
        Some(InitError::InvalidPartition)
    );
}

#[test]
fn partition_overlap_rejected() {
    let bad = vec![feature(
        "exp",
        vec![Strategy::MultiVariant {
            identifier_kind: "user_id".to_string(),
            variants: vec![
                Variant {
                    name: "a".to_string(),
                    start: 0,
                    end: 600_000,
                },
                Variant {
                    name: "b".to_string(),
                    start: 500_000,
                    end: BUCKET_SCALE,
                },
            ],
        }],
    )];
    assert_eq!(
        Decider::init(&registry_all(), bad).err(),
        Some(InitError::InvalidPartition)
    );
}

#[test]
fn partition_incomplete_rejected() {
    let bad = vec![feature(
        "exp",
        vec![Strategy::MultiVariant {
            identifier_kind: "user_id".to_string(),
            variants: vec![Variant {
                name: "a".to_string(),
                start: 0,
                end: 999_999,
            }],
        }],
    )];
    assert_eq!(
        Decider::init(&registry_all(), bad).err(),
        Some(InitError::InvalidPartition)
    );
}

#[test]
fn partition_empty_rejected() {
    let bad = vec![feature(
        "exp",
        vec![Strategy::MultiVariant {
            identifier_kind: "user_id".to_string(),
            variants: vec![],
        }],
    )];
    assert_eq!(
        Decider::init(&registry_all(), bad).err(),
        Some(InitError::InvalidPartition)
    );
}

#[test]
fn override_always_wins() {
    let decider = init_all(checkout_table());
    let ctx = ctx_of(&[("user_id", "qa_tester")]);
    let d = decider
        .decide(&"checkout_experiment".to_string(), &ctx)
        .unwrap();
    assert!(d.enabled);
    assert_eq!(d.variant.as_deref(), Some("treatment"));
    assert_eq!(d.maker, "override");
    assert_eq!(d.bucket, None);
    // The override wins even if qa_tester's bucket falls in the control
    // half of the partition.
}

#[test]
fn override_miss_falls_through_to_partition() {
    let decider = init_all(checkout_table());
    let ctx = ctx_of(&[("user_id", "somebody_else")]);
    let d = decider
        .decide(&"checkout_experiment".to_string(), &ctx)
        .unwrap();
    assert_eq!(d.maker, "multi_variant");
    let b = bucket("checkout_experiment", "somebody_else");
    let expected = if b < BUCKET_SCALE / 2 { "control" } else { "treatment" };
    assert_eq!(d.variant.as_deref(), Some(expected));
}

#[test]
fn unknown_feature_is_an_error() {
    let decider = init_all(dark_mode_table());
    let empty = Context::new();
    assert_eq!(
        decider.decide(&"nonexistent".to_string(), &empty).err(),
        Some(ChooseError::UnknownFeature)
    );
    let full = ctx_of(&[("user_id", "alice"), ("device_id", "d-1")]);
    assert_eq!(
        decider.decide(&"nonexistent".to_string(), &full).err(),
        Some(ChooseError::UnknownFeature)
    );
}

#[test]
fn dark_mode_scenario() {
    let decider = init_all(dark_mode_table());
    let ctx = ctx_of(&[("user_id", "alice")]);
    let d = decider.decide(&"dark_mode".to_string(), &ctx).unwrap();
    let b = bucket("dark_mode", "alice");
    assert_eq!(d.enabled, b < BUCKET_SCALE / 2);
    if d.enabled {
        assert_eq!(d.maker, "range");
        assert_eq!(d.identifier.as_deref(), Some("alice"));
        assert_eq!(d.bucket, Some(b));
    } else {
        assert_eq!(d.maker, "default");
    }
    // Reproduced identically on a freshly constructed decider loaded
    // from the identical configuration.
    let fresh = init_all(dark_mode_table());
    let again = fresh.decide(&"dark_mode".to_string(), &ctx).unwrap();
    assert_eq!(d, again);
}

#[test]
fn value_strategy_decides_unconditionally() {
    let decider = init_all(vec![
        feature("on", vec![Strategy::Value { enabled: true }]),
        feature("off", vec![Strategy::Value { enabled: false }]),
    ]);
    let empty = Context::new();
    let on = decider.decide(&"on".to_string(), &empty).unwrap();
    assert!(on.enabled);
    assert_eq!(on.maker, "value");
    assert_eq!(on.variant, None);
    let off = decider.decide(&"off".to_string(), &empty).unwrap();
    assert!(!off.enabled);
    assert_eq!(off.maker, "value");
}

#[test]
fn value_strategy_short_circuits_chain() {
    let decider = init_all(vec![feature(
        "mixed",
        vec![
            Strategy::Value { enabled: false },
            range("user_id", 0, BUCKET_SCALE),
        ],
    )]);
    let ctx = ctx_of(&[("user_id", "alice")]);
    let d = decider.decide(&"mixed".to_string(), &ctx).unwrap();
    assert!(!d.enabled);
    assert_eq!(d.maker, "value");
}

#[test]
fn dynamic_config_returns_structured_value() {
    let decider = init_all(vec![
        feature(
            "banner_text",
            vec![Strategy::DynamicConfig {
                value: DynValue::Text("hello".to_string()),
            }],
        ),
        feature(
            "page_size",
            vec![Strategy::DynamicConfig {
                value: DynValue::Integer(25),
            }],
        ),
    ]);
    let empty = Context::new();
    let d = decider.decide(&"banner_text".to_string(), &empty).unwrap();
    assert!(d.enabled);
    assert_eq!(d.maker, "dynamic_config");
    assert_eq!(d.value, Some(DynValue::Text("hello".to_string())));
    let p = decider.decide(&"page_size".to_string(), &empty).unwrap();
    assert_eq!(p.value, Some(DynValue::Integer(25)));
}

#[test]
fn absent_identifier_resolves_to_default() {
    let decider = init_all(dark_mode_table());
    let ctx = ctx_of(&[("device_id", "d-1")]);
    let d = decider.decide(&"dark_mode".to_string(), &ctx).unwrap();
    assert!(!d.enabled);
    assert_eq!(d.maker, "default");
    assert_eq!(d.variant, None);
    assert_eq!(d.bucket, None);
}

#[test]
fn empty_identifier_is_an_error() {
    let decider = init_all(dark_mode_table());
    let ctx = ctx_of(&[("user_id", "")]);
    assert_eq!(
        decider.decide(&"dark_mode".to_string(), &ctx).err(),
        Some(ChooseError::Evaluation(EvalError::EmptyIdentifierValue))
    );
}

#[test]
fn empty_identifier_in_multivariant_is_an_error() {
    let decider = init_all(checkout_table());
    let ctx = ctx_of(&[("user_id", "")]);
    assert_eq!(
        decider.decide(&"checkout_experiment".to_string(), &ctx).err(),
        Some(ChooseError::Evaluation(EvalError::EmptyIdentifierValue))
    );
}

#[test]
fn duplicate_feature_name_rejected() {
    let bad = vec![
        feature("twice", vec![Strategy::Value { enabled: true }]),
        feature("twice", vec![Strategy::Value { enabled: false }]),
    ];
    assert_eq!(
        Decider::init(&registry_all(), bad).err(),
        Some(InitError::DuplicateFeatureName)
    );
}

#[test]
fn inverted_range_bounds_rejected() {
    let bad = vec![feature("f", vec![range("user_id", 600_000, 400_000)])];
    assert_eq!(
        Decider::init(&registry_all(), bad).err(),
        Some(InitError::InvalidRangeBounds)
    );
}

#[test]
fn oversized_range_bounds_rejected() {
    let bad = vec![feature("f", vec![range("user_id", 0, BUCKET_SCALE + 1)])];
    assert_eq!(
        Decider::init(&registry_all(), bad).err(),
        Some(InitError::InvalidRangeBounds)
    );
}

#[test]
fn strategy_kind_outside_registry_rejected() {
    let narrow = vec![StrategyKind::Value];
    let table = vec![feature("f", vec![range("user_id", 0, 1000)])];
    assert_eq!(
        Decider::init(&narrow, table).err(),
        Some(InitError::UnknownStrategyKind)
    );
    // The same table passes under the full registry.
    let table2 = vec![feature("f", vec![range("user_id", 0, 1000)])];
    assert!(Decider::init(&registry_all(), table2).is_ok());
}

#[test]
fn context_get_returns_latest_binding() {
    let mut ctx = Context::new();
    assert!(ctx.get(&"user_id".to_string()).is_none());
    ctx.set("user_id".to_string(), "alice".to_string());
    assert_eq!(ctx.get(&"user_id".to_string()), Some(&"alice".to_string()));
    ctx.set("user_id".to_string(), "bob".to_string());
    assert_eq!(ctx.get(&"user_id".to_string()), Some(&"bob".to_string()));
    assert!(ctx.get(&"country_code".to_string()).is_none());
}

#[test]
fn tiered_ranges_first_match_wins() {
    // Two range tiers in one chain: an identifier outside the first
    // tier can still match the second.
    let decider = init_all(vec![feature(
        "tiered",
        vec![
            range("user_id", 0, 100_000),
            range("user_id", 0, BUCKET_SCALE),
        ],
    )]);
    let ctx = ctx_of(&[("user_id", "alice")]);
    let d = decider.decide(&"tiered".to_string(), &ctx).unwrap();
    // The second tier covers everything, so the decision is enabled
    // whichever tier matched.
    assert!(d.enabled);
    assert_eq!(d.maker, "range");
}
