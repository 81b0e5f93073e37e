use scene_augment::material::{
    layout_accepts, BaseMaterial, CompositeMaterial, ExtensionParams, BASE_SLOT_LIMIT,
};

#[test]
fn layout_registry_accepts_a_base_within_the_reserved_range() {
    let base = BaseMaterial {
        params: vec![0; BASE_SLOT_LIMIT as usize],
    };
    let ext = ExtensionParams { params: vec![1, 2, 3] };
    assert!(layout_accepts(&base, &ext));
}

#[test]
fn layout_registry_rejects_a_base_that_grows_past_the_limit() {
    let base = BaseMaterial {
        params: vec![0; BASE_SLOT_LIMIT as usize + 1],
    };
    let ext = ExtensionParams { params: vec![1] };
    assert!(!layout_accepts(&base, &ext));
}

#[test]
fn slot_values_route_to_base_then_extension_ranges() {
    let comp = CompositeMaterial {
        base_params: vec![11, 22, 33],
        ext_params: vec![99, 88],
    };
    // base words at their original slots
    assert_eq!(comp.slot_value(0), Some(11));
    assert_eq!(comp.slot_value(2), Some(33));
    // unbound gap between the declared base words and the reserved range
    assert_eq!(comp.slot_value(3), None);
    assert_eq!(comp.slot_value(BASE_SLOT_LIMIT - 1), None);
    // extension words from the reserved range up
    assert_eq!(comp.slot_value(BASE_SLOT_LIMIT), Some(99));
    assert_eq!(comp.slot_value(BASE_SLOT_LIMIT + 1), Some(88));
    assert_eq!(comp.slot_value(BASE_SLOT_LIMIT + 2), None);
}

#[test]
fn compose_copies_every_word_bit_for_bit() {
    let base = BaseMaterial {
        params: vec![0.5f32.to_bits(), 0xFFFF_0000, 0],
    };
    let defaults = ExtensionParams {
        params: vec![0.8f32.to_bits(), 42],
    };
    let comp = CompositeMaterial::compose(&base, &defaults);
    assert_eq!(comp.base_params, base.params);
    assert_eq!(comp.ext_params, defaults.params);
}

#[test]
fn compose_is_a_defensive_copy_not_a_live_reference() {
    let mut base = BaseMaterial { params: vec![5, 6] };
    let defaults = ExtensionParams { params: vec![7] };
    let comp = CompositeMaterial::compose(&base, &defaults);

    // later external mutation of the original base material
    base.params[0] = 77;
    base.params.push(123);

    assert_eq!(comp.base_params, vec![5, 6]);
}
