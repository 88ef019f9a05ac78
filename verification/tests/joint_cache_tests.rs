use physics_core::joint_cache::{JointImpulseCache, JOINT_CACHE_LIMIT};

#[test]
fn joint_cache_limit_value() {
    assert_eq!(JOINT_CACHE_LIMIT, 4096);
}

#[test]
fn cold_joint_gets_the_fallback() {
    let cache: JointImpulseCache<f32> = JointImpulseCache::new();
    assert_eq!(cache.len(), 0);
    assert_eq!(cache.recall_or(3, 0.0), 0.0);
    assert_eq!(cache.recall_or(3, -1.5), -1.5);
}

#[test]
fn recorded_impulse_is_recalled() {
    let mut cache: JointImpulseCache<f32> = JointImpulseCache::new();
    cache.record(3, 2.25);
    cache.record(4, -0.5);
    assert_eq!(cache.len(), 2);
    assert_eq!(cache.recall_or(3, 0.0), 2.25);
    assert_eq!(cache.recall_or(4, 0.0), -0.5);
    assert_eq!(cache.recall_or(5, 0.0), 0.0);
}

#[test]
fn record_overwrites() {
    let mut cache: JointImpulseCache<f32> = JointImpulseCache::new();
    cache.record(3, 2.25);
    cache.record(3, 7.0);
    assert_eq!(cache.len(), 1);
    assert_eq!(cache.recall_or(3, 0.0), 7.0);
}

#[test]
fn prune_keeps_a_cache_at_the_limit() {
    let mut cache: JointImpulseCache<u32> = JointImpulseCache::new();
    for id in 0u64..4096 {
        cache.record(id, id as u32 + 1);
    }
    cache.prune();
    assert_eq!(cache.len(), 4096);
    assert_eq!(cache.recall_or(0, 0), 1);
    assert_eq!(cache.recall_or(4095, 0), 4096);
}

#[test]
fn prune_empties_a_cache_beyond_the_limit() {
    let mut cache: JointImpulseCache<u32> = JointImpulseCache::new();
    for id in 0u64..4097 {
        cache.record(id, id as u32 + 1);
    }
    assert_eq!(cache.len(), 4097);
    cache.prune();
    assert_eq!(cache.len(), 0);
    assert_eq!(cache.recall_or(0, 0), 0);
    assert_eq!(cache.recall_or(4096, 9), 9);
}

#[test]
fn prune_leaves_a_small_cache_alone() {
    let mut cache: JointImpulseCache<f32> = JointImpulseCache::new();
    cache.record(1, 1.0);
    cache.prune();
    assert_eq!(cache.len(), 1);
    assert_eq!(cache.recall_or(1, 0.0), 1.0);
}
