use gibi::utils::{compose_word, decompose_word, min_number_of_bits};

#[test]
fn test_compose_word() {
    assert_eq!(compose_word(0x00, 0x00), 0x0000);
    assert_eq!(compose_word(0xFF, 0xFF), 0xFFFF);
    assert_eq!(compose_word(0xF0, 0x0F), 0xF00F);
}

#[test]
fn test_decompose_word() {
    assert_eq!(decompose_word(0x0000), (0x00, 0x00));
    assert_eq!(decompose_word(0xFFFF), (0xFF, 0xFF));
    assert_eq!(decompose_word(0xF00F), (0xF0, 0x0F));
}

#[test]
fn utils_test_min_number_of_bits() {
    assert_eq!(min_number_of_bits(4), 3);
    assert_eq!(min_number_of_bits(5), 3);
    assert_eq!(min_number_of_bits(8), 4);
    assert_eq!(min_number_of_bits(16), 5);
    assert_eq!(min_number_of_bits(32), 6);
    assert_eq!(min_number_of_bits(64), 7);
    assert_eq!(min_number_of_bits(128), 8);
}

#[test]
fn lib_test_min_number_of_bits() {
    assert_eq!(gibi::min_number_of_bits(4), 3);
    assert_eq!(gibi::min_number_of_bits(5), 3);
    assert_eq!(gibi::min_number_of_bits(8), 4);
    assert_eq!(gibi::min_number_of_bits(16), 5);
    assert_eq!(gibi::min_number_of_bits(32), 6);
    assert_eq!(gibi::min_number_of_bits(64), 7);
    assert_eq!(gibi::min_number_of_bits(128), 8);
}

#[test]
fn min_number_of_bits_of_zero_and_max() {
    assert_eq!(min_number_of_bits(0), 0);
    assert_eq!(min_number_of_bits(1), 1);
    assert_eq!(min_number_of_bits(255), 8);
}

#[test]
fn word_round_trip() {
    for value in [0x0000u16, 0x1234, 0xABCD, 0xFFFF, 0x00FF, 0xFF00] {
        let (msb, lsb) = decompose_word(value);
        assert_eq!(compose_word(msb, lsb), value);
    }
}

#[test]
fn bit_value_reads_single_bits() {
    assert_eq!(gibi::utils::bit_value(0b1010_0000, 7), 1);
    assert_eq!(gibi::utils::bit_value(0b1010_0000, 6), 0);
    assert_eq!(gibi::utils::bit_value(0b1010_0000, 5), 1);
    assert_eq!(gibi::utils::bit_value(0x01, 0), 1);
}
