use vivid::buffer::grown_capacity;

#[test]
fn fitting_data_keeps_capacity() {
    assert_eq!(grown_capacity(64, 0), 64);
    assert_eq!(grown_capacity(64, 64), 64);
    assert_eq!(grown_capacity(64, 10), 64);
}

#[test]
fn growth_rounds_up_to_a_power_of_two() {
    assert_eq!(grown_capacity(64, 65), 128);
    assert_eq!(grown_capacity(64, 128), 128);
    assert_eq!(grown_capacity(0, 1), 1);
    assert_eq!(grown_capacity(3, 5), 8);
    assert_eq!(grown_capacity(0, 1u64 << 63), 1u64 << 63);
    for n in 1u64..2000 {
        assert_eq!(grown_capacity(0, n), n.next_power_of_two());
    }
}
