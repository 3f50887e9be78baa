use p3_lib::agent::{hook_patches, HOOK1_ADDRESS, HOOK2_ADDRESS, HOOK3_ADDRESS};

#[test]
fn hooks_are_redirected_to_the_agent() {
    let patches = hook_patches(0x1000_0000, 0x1000_0100);
    assert_eq!(
        patches,
        [(HOOK1_ADDRESS, 0x0fac_efc6), (HOOK2_ADDRESS, 0x0fae_6389), (HOOK3_ADDRESS, 0x0faf_897f)]
    );
}

#[test]
fn hook_below_the_call_wraps_around() {
    let patches = hook_patches(0x0040_0000, 0x0040_0000);
    assert_eq!(patches[0], (0x0053_1036, 0xffec_efc6));
    assert_eq!(patches[0].0.wrapping_add(4).wrapping_add(patches[0].1), 0x0040_0000);
}
