use leafquery::node::bit_width;

#[test]
fn test_bitscan_lz_lookup2() {
    assert_eq!(bit_width(0), 0);
    assert_eq!(bit_width(1), 1);
    assert_eq!(bit_width(2), 2);
    assert_eq!(bit_width(3), 2);
    assert_eq!(bit_width(4), 4);
    assert_eq!(bit_width(5), 4);
    assert_eq!(bit_width(6), 4);
    assert_eq!(bit_width(7), 4);
    assert_eq!(bit_width(8), 4);
    assert_eq!(bit_width(15), 4);
    assert_eq!(bit_width(16), 8);
    assert_eq!(bit_width(127), 8);
    assert_eq!(bit_width(128), 16);
    assert_eq!(bit_width(32767), 16);
    assert_eq!(bit_width(32768), 32);
    assert_eq!(bit_width(2147483647), 32);
    assert_eq!(bit_width(2147483648), 64);

    assert_eq!(bit_width(-1), 8);
    assert_eq!(bit_width(-2), 8);
    assert_eq!(bit_width(-3), 8);
    assert_eq!(bit_width(-4), 8);
    assert_eq!(bit_width(-5), 8);
    assert_eq!(bit_width(-6), 8);
    assert_eq!(bit_width(-7), 8);
    assert_eq!(bit_width(-8), 8);
    assert_eq!(bit_width(-15), 8);
    assert_eq!(bit_width(-16), 8);
    assert_eq!(bit_width(-127), 8);
    assert_eq!(bit_width(-128), 8);
    assert_eq!(bit_width(-129), 16);
    assert_eq!(bit_width(-32768), 16);
    assert_eq!(bit_width(-32769), 32);
    assert_eq!(bit_width(-2147483648), 32);
    assert_eq!(bit_width(-2147483649), 64);
}
