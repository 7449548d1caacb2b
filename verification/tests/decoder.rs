use counter_program::error::CounterError;
use counter_program::instruction::CounterInstruction;

#[test]
fn empty_buffer_is_malformed() {
    assert_eq!(CounterInstruction::unpack(&[]), Err(CounterError::MalformedInstruction));
}

#[test]
fn initialize_with_five() {
    assert_eq!(
        CounterInstruction::unpack(&[0x00, 0x05, 0, 0, 0, 0, 0, 0, 0]),
        Ok(CounterInstruction::InitializeCounter { initial_value: 5 })
    );
}

#[test]
fn initialize_reads_little_endian() {
    assert_eq!(
        CounterInstruction::unpack(&[0x00, 0x08, 0x07, 0x06, 0x05, 0x04, 0x03, 0x02, 0x01]),
        Ok(CounterInstruction::InitializeCounter { initial_value: 0x0102_0304_0506_0708 })
    );
    assert_eq!(
        CounterInstruction::unpack(&[0x00, 0, 0, 0, 0, 0, 0, 0, 0x80]),
        Ok(CounterInstruction::InitializeCounter { initial_value: 1 << 63 })
    );
}

#[test]
fn initialize_with_extremes() {
    assert_eq!(
        CounterInstruction::unpack(&[0; 9]),
        Ok(CounterInstruction::InitializeCounter { initial_value: 0 })
    );
    assert_eq!(
        CounterInstruction::unpack(&[0, 0xff, 0xff, 0xff, 0xff, 0xff, 0xff, 0xff, 0xff]),
        Ok(CounterInstruction::InitializeCounter { initial_value: u64::MAX })
    );
}

#[test]
fn initialize_agrees_with_std() {
    for value in [1u64, 255, 256, 65_535, 65_536, 0xdead_beef, 0x0123_4567_89ab_cdef, u64::MAX - 1] {
        let mut input = vec![0u8];
        input.extend_from_slice(&value.to_le_bytes());
        assert_eq!(
            CounterInstruction::unpack(&input),
            Ok(CounterInstruction::InitializeCounter { initial_value: value })
        );
    }
}

#[test]
fn initialize_with_seven_bytes_is_malformed() {
    assert_eq!(
        CounterInstruction::unpack(&[0x00, 1, 2, 3, 4, 5, 6, 7]),
        Err(CounterError::MalformedInstruction)
    );
}

#[test]
fn initialize_with_other_lengths_is_malformed() {
    assert_eq!(CounterInstruction::unpack(&[0x00]), Err(CounterError::MalformedInstruction));
    assert_eq!(
        CounterInstruction::unpack(&[0x00, 1, 2, 3, 4, 5, 6, 7, 8, 9]),
        Err(CounterError::MalformedInstruction)
    );
}

#[test]
fn increment_alone() {
    assert_eq!(CounterInstruction::unpack(&[0x01]), Ok(CounterInstruction::IncrementCounter));
}

#[test]
fn increment_ignores_trailing_bytes() {
    assert_eq!(
        CounterInstruction::unpack(&[0x01, 0xaa, 0xbb, 0xcc]),
        Ok(CounterInstruction::IncrementCounter)
    );
    assert_eq!(
        CounterInstruction::unpack(&[0x01, 0, 0, 0, 0, 0, 0, 0, 0]),
        Ok(CounterInstruction::IncrementCounter)
    );
}

#[test]
fn tag_two_is_unknown() {
    assert_eq!(CounterInstruction::unpack(&[0x02]), Err(CounterError::UnknownInstruction));
    assert_eq!(
        CounterInstruction::unpack(&[0x02, 5, 0, 0, 0, 0, 0, 0, 0]),
        Err(CounterError::UnknownInstruction)
    );
}

#[test]
fn every_other_tag_is_unknown() {
    for tag in 2u8..=255 {
        assert_eq!(
            CounterInstruction::unpack(&[tag, 1, 2, 3]),
            Err(CounterError::UnknownInstruction)
        );
    }
}
