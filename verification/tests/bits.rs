use jxl_wgpu_decode::bits::{bits_are_zero, BitError, BitReader};
use jxl_wgpu_decode::noise::NoiseModel;

/// Writes numbers least significant bit first.
struct Writer {
    bytes: Vec<u8>,
    used: usize,
}

impl Writer {
    fn new() -> Self {
        Writer { bytes: Vec::new(), used: 0 }
    }

    fn write(&mut self, value: u64, bits: usize) {
        for place in 0..bits {
            if self.used % 8 == 0 {
                self.bytes.push(0);
            }
            let bit = (value >> place & 1) as u8;
            *self.bytes.last_mut().unwrap() |= bit << (self.used % 8);
            self.used += 1;
        }
    }
}

#[test]
fn noise_model_reads_exactly_eighty_bits_and_never_crosses_its_packet() {
    let values = [0_u16, 1, 2, 7, 31, 511, 1022, 1023];
    let mut writer = Writer::new();
    writer.write(5, 3);
    for value in values {
        writer.write(u64::from(value), 10);
    }
    writer.write(255, 8);
    let data = writer.bytes;
    for length in 0..80 {
        let mut reader = BitReader::new(&data);
        reader.skip_bits(3).unwrap();
        assert!(matches!(
            NoiseModel::parse(&mut reader, 3 + length),
            Err(BitError::UnexpectedEndOfBits)
        ));
        assert!(reader.bit_offset() <= 3 + length);
    }
    let mut reader = BitReader::new(&data);
    reader.skip_bits(3).unwrap();
    let model = NoiseModel::parse(&mut reader, 83).unwrap();
    assert_eq!(model.values(), values);
    assert_eq!(
        model.parameters(0, 1).unwrap().strengths.map(|value| f32::from(value) / 1024.0),
        values.map(|value| f32::from(value) / 1024.0)
    );
    assert_eq!(reader.bit_offset(), 83);
    assert_eq!(reader.read_bits(8).unwrap(), 255);
}

#[test]
fn noise_parameters_need_a_strength_and_scale_the_group() {
    let mut reader = BitReader::new(&[0; 10]);
    let silent = NoiseModel::parse(&mut reader, 80).unwrap();
    assert_eq!(silent.parameters(9, 1), None);
    let mut bytes = [0; 10];
    bytes[9] = 0x80;
    let mut reader = BitReader::new(&bytes);
    let model = NoiseModel::parse(&mut reader, 80).unwrap();
    let parameters = model.parameters(9, 1).unwrap();
    assert_eq!(parameters.strengths, [0, 0, 0, 0, 0, 0, 0, 512]);
    assert_eq!((parameters.frame_seed, parameters.group_dimension), (9, 256));
    assert_eq!(model.parameters(9, 31).unwrap().group_dimension, 0);
    assert_eq!(model.parameters(9, 32).unwrap().group_dimension, 0);
}

#[test]
fn bits_come_least_significant_first_and_end_with_the_data() {
    let mut reader = BitReader::new(&[0b1010_0110, 0xff]);
    assert_eq!(reader.read_bits(3), Ok(0b110));
    assert_eq!(reader.read_bits(7), Ok(0b111_0100));
    assert_eq!(reader.read_bits(7), Err(BitError::UnexpectedEndOfBits));
    assert_eq!(reader.bit_offset(), 10);
    let mut aligned = reader;
    assert_eq!(aligned.align_to_byte(), Ok(()));
    assert_eq!(aligned.align_to_byte(), Ok(()));
    assert_eq!(aligned.bit_offset(), 16);
    assert_eq!(reader.skip_bits(6), Ok(()));
    assert_eq!(reader.skip_bits(1), Err(BitError::UnexpectedEndOfBits));
    assert_eq!(bits_are_zero(&[0xf0, 0x00], 0, 4), Ok(true));
    assert_eq!(bits_are_zero(&[0xf0, 0x00], 0, 5), Ok(false));
    assert_eq!(bits_are_zero(&[0xf0, 0x00], 8, 17), Err(BitError::UnexpectedEndOfBits));
}
