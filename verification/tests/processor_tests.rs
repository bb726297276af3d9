use cmri::CmriProcessor;
use rand::random;

fn bits(num: u64) -> Vec<bool> {
    let strbits = format!("{:064b}", num);
    strbits
        .chars()
        .map(|c| if c == '0' { false } else { true })
        .collect()
}

#[test]
fn get_bit() {
    let mut p = CmriProcessor::new();
    // 1111 0000 0001 0010 1010 1011 0011 0100
    // 1100 1101 0000 0000 0000 0000 1010 1010
    p.output_bits = 0xf012_ab34_cd00_00aa;

    assert_eq!(p.get_bit(0), true);
    assert_eq!(p.get_bit(1), true);
    assert_eq!(p.get_bit(4), false);
}

#[test]
fn get_bit_random() {
    // Try fetching bits from five random numbers
    let mut p = CmriProcessor::new();

    for _ in 0..5 {
        let number: u64 = random();
        println!("Random number is: {}", number);
        println!("Binary representation: {:064b}", number);
        p.output_bits = number;

        for (n, bit) in bits(number).iter().enumerate() {
            assert_eq!(p.get_bit(n as u8), *bit);
        }
    }
}

#[test]
fn get_byte() {
    let mut p = CmriProcessor::new();
    p.output_bits = 0x1234_5678_90ab_cdef;

    assert_eq!(p.get_byte(0), 0x12);
    assert_eq!(p.get_byte(1), 0x34);

    assert_eq!(p.get_byte(2), 0x56);
    assert_eq!(p.get_byte(3), 0x78);

    assert_eq!(p.get_byte(4), 0x90);
    assert_eq!(p.get_byte(5), 0xab);

    assert_eq!(p.get_byte(6), 0xcd);
    assert_eq!(p.get_byte(7), 0xef);
}

#[test]
fn get_byte_random() {
    let mut p = CmriProcessor::new();
    for _ in 0..5 {
        let number: u64 = random();
        println!("Random number is: {}", number);
        println!("Hex representation: {:16x}", number);
        p.output_bits = number;

        let mut bytes = [0u8; 8];
        for (n, b) in bytes.iter_mut().enumerate() {
            *b = p.get_byte(n as u8);
        }
        println!("Bytes array: {:?}", bytes);
        let converted = u64::from_be_bytes(bytes);
        println!("Converted: {:x}", converted);

        assert_eq!(converted, number);
    }
}

#[test]
fn set_byte() {
    let mut p = CmriProcessor::new();
    let bytes: [u8; 8] = [12, 34, 45, 67, 78, 89, 123, 43];

    for (n, b) in bytes.iter().enumerate() {
        p.set_byte(n as u8, *b);
    }

    assert_eq!(p.input_bits, u64::from_be_bytes(bytes));
}

#[test]
fn set_byte_random() {
    let mut p = CmriProcessor::new();
    let mut bytes = [0u8; 8];

    for _ in 0..5 {
        // Pick 8 random bytes
        for (n, b) in bytes.iter_mut().enumerate() {
            *b = random();
            p.set_byte(n as u8, *b);
        }
        println!("Random bytes: {:?}", bytes);

        assert_eq!(p.input_bits, u64::from_be_bytes(bytes));
    }
}
