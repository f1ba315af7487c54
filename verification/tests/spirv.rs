use wgpu_util::spirv::{make_spirv, make_spirv_raw, ShaderSource, SpirvError, MAGIC_NUMBER};

const MAGIC_BYTES: [u8; 4] = [0x03, 0x02, 0x23, 0x07];

#[test]
fn magic_only_module_is_accepted() {
    let words = make_spirv_raw(&MAGIC_BYTES).unwrap();
    assert_eq!(words, vec![MAGIC_NUMBER]);
}

#[test]
fn words_are_assembled_least_significant_byte_first() {
    let mut data = MAGIC_BYTES.to_vec();
    data.extend_from_slice(&[0x78, 0x56, 0x34, 0x12]);
    data.extend_from_slice(&[0xff, 0x00, 0x00, 0x00]);
    let words = make_spirv_raw(&data).unwrap();
    assert_eq!(words, vec![MAGIC_NUMBER, 0x1234_5678, 0x0000_00ff]);
}

#[test]
fn non_multiple_of_four_lengths_are_rejected() {
    for len in [1usize, 2, 3, 5] {
        let mut data = vec![0u8; len];
        data[0] = 0x03;
        assert_eq!(make_spirv_raw(&data), Err(SpirvError::SizeNotMultipleOf4));
    }
}

#[test]
fn empty_input_is_too_short() {
    assert_eq!(make_spirv_raw(&[]), Err(SpirvError::TooShort));
}

#[test]
fn wrong_leading_word_is_rejected() {
    let data = [0x02, 0x02, 0x23, 0x07, 0x00, 0x00, 0x00, 0x00];
    assert_eq!(make_spirv_raw(&data), Err(SpirvError::BadMagicNumber));
}

#[test]
fn word_values_do_not_depend_on_where_the_bytes_live() {
    // The same byte values read from a freshly aligned vector and from an
    // unaligned view into a larger buffer must yield identical words.
    let mut padded = vec![0u8; 1];
    padded.extend_from_slice(&MAGIC_BYTES);
    padded.extend_from_slice(&[0xaa, 0xbb, 0xcc, 0xdd]);
    let unaligned = &padded[1..];
    let aligned = unaligned.to_vec();
    assert_eq!(make_spirv_raw(unaligned), make_spirv_raw(&aligned));
    assert_eq!(
        make_spirv_raw(unaligned).unwrap(),
        vec![MAGIC_NUMBER, 0xddcc_bbaa]
    );
}

#[test]
fn shader_source_wraps_the_same_words() {
    let mut data = MAGIC_BYTES.to_vec();
    data.extend_from_slice(&[0x01, 0x00, 0x00, 0x00]);
    let ShaderSource::SpirV(words) = make_spirv(&data).unwrap();
    assert_eq!(words, make_spirv_raw(&data).unwrap());
}

#[test]
fn shader_source_reports_the_same_errors() {
    assert_eq!(make_spirv(&[0u8; 3]).err(), Some(SpirvError::SizeNotMultipleOf4));
    assert_eq!(make_spirv(&[]).err(), Some(SpirvError::TooShort));
    assert_eq!(make_spirv(&[0u8; 4]).err(), Some(SpirvError::BadMagicNumber));
}
