use harmonium::playback::{pack, unpack};

#[test]
fn pack_unpack_roundtrip() {
    for (bar, step) in [(1, 0), (5, 15), (12, 0), (42, 3), (1000, 15)] {
        assert_eq!(unpack(pack(bar, step)), (bar, step));
    }
}

#[test]
fn pack_unpack_at_bounds() {
    // Step is masked to 32 bits; bar keeps its own bits.
    assert_eq!(unpack(pack(7, u32::MAX as usize)), (7, u32::MAX as usize));
    assert_eq!(unpack(pack(0, 0)), (0, 0));
}

#[test]
fn initial_value_is_bar1_step0() {
    assert_eq!(pack(1, 0), 1u64 << 32);
    assert_eq!(unpack(pack(1, 0)), (1, 0));
}

#[test]
fn step_never_leaks_into_bar_bits() {
    assert_eq!(unpack(pack(7, 12)).0, 7);
    assert_eq!(unpack(pack(7, u32::MAX as usize)).0, 7);
}
