use acpi::cursor::{Builder, Cursor};
use acpi::error::{Error, Field};
use acpi::string_to_array;
use acpi::RawAcpiData;

fn sample_raw() -> RawAcpiData {
    RawAcpiData {
        signature: "ABCD".to_string(),
        length: 36,
        revision: 1,
        checksum: 2,
        oem_id: "EF".to_string(),
        oem_table_id: "GHI".to_string(),
        oem_revision: 3,
        creator_id: 4,
        creator_revision: 5,
        acpi_table_data: b"JKL".to_vec(),
    }
}

#[test]
fn raw_acpi_data() {
    let data = sample_raw();
    let b = data.to_bytes();
    let ret = RawAcpiData::from_bytes(&b).unwrap();
    assert_eq!(data, ret);
}

#[test]
fn raw_acpi_data_exact_bytes() {
    let data = sample_raw();
    let b = data.to_bytes();
    let mut expected: Vec<u8> = Vec::new();
    expected.extend_from_slice(b"ABCD");
    expected.extend_from_slice(&36u32.to_le_bytes());
    expected.push(1);
    expected.push(2);
    expected.extend_from_slice(b"EF\0\0\0\0");
    expected.extend_from_slice(b"GHI\0\0\0\0\0");
    expected.extend_from_slice(&3u32.to_le_bytes());
    expected.extend_from_slice(&4u32.to_le_bytes());
    expected.extend_from_slice(&5u32.to_le_bytes());
    expected.extend_from_slice(b"JKL");
    assert_eq!(expected.len(), 39);
    assert_eq!(b, expected);

    let decoded = RawAcpiData::from_bytes(&expected).unwrap();
    assert_eq!(decoded.signature, "ABCD");
    assert_eq!(decoded.length, 36);
    assert_eq!(decoded.revision, 1);
    assert_eq!(decoded.checksum, 2);
    assert_eq!(decoded.oem_id, "EF");
    assert_eq!(decoded.oem_table_id, "GHI");
    assert_eq!(decoded.oem_revision, 3);
    assert_eq!(decoded.creator_id, 4);
    assert_eq!(decoded.creator_revision, 5);
    assert_eq!(decoded.acpi_table_data, b"JKL".to_vec());
}

#[test]
fn fixed_string_strips_trailing_nuls() {
    let bytes = b"AB\0\0".to_vec();
    let mut c = Cursor::new(&bytes);
    let s = c.take_fixed_string(4, Field::Signature).unwrap();
    assert_eq!(s, "AB");
    assert_eq!(c.remaining(), 0);
}

#[test]
fn fixed_string_pads_with_nuls() {
    let arr = string_to_array("AB", 4);
    assert_eq!(arr, vec![0x41, 0x42, 0x00, 0x00]);
}

#[test]
fn fixed_string_truncates_long_input() {
    let arr = string_to_array("ABCDEF", 4);
    assert_eq!(arr, b"ABCD".to_vec());
}

#[test]
fn builder_writes_fixed_string() {
    let mut b = Builder::with_capacity(4);
    b.put_fixed_string("AB", 4);
    assert_eq!(b.into_vec(), vec![0x41, 0x42, 0x00, 0x00]);
}

#[test]
fn cursor_little_endian_integers() {
    let bytes: Vec<u8> = vec![0x01, 0x02, 0x03, 0x04, 0x05, 0x06, 0xFF];
    let mut c = Cursor::new(&bytes);
    assert_eq!(c.take_u16_le(Field::Version).unwrap(), 0x0201);
    assert_eq!(c.take_u32_le(Field::SwSmiNumber).unwrap(), 0x06050403);
    assert_eq!(c.remaining(), 1);
    assert_eq!(c.take_u8(Field::Status).unwrap(), 0xFF);
    assert_eq!(c.take_u8(Field::Checksum), Err(Error::Underrun(Field::Checksum)));
}

#[test]
fn header_underrun_names_the_field() {
    assert_eq!(
        RawAcpiData::from_bytes(&[]),
        Err(Error::Underrun(Field::Signature))
    );
    let ten = vec![0u8; 10];
    assert_eq!(
        RawAcpiData::from_bytes(&ten),
        Err(Error::Underrun(Field::OemId))
    );
    let thirty_five = vec![0u8; 35];
    assert_eq!(
        RawAcpiData::from_bytes(&thirty_five),
        Err(Error::Underrun(Field::CreatorRevision))
    );
}

#[test]
fn lossy_decode_substitutes_invalid_utf8() {
    let mut bytes = vec![0xFFu8, 0x41, 0x42, 0x43];
    bytes.extend_from_slice(&vec![0u8; 32]);
    let decoded = RawAcpiData::from_bytes(&bytes).unwrap();
    assert_eq!(decoded.signature, "\u{FFFD}ABC");
}

#[test]
fn byte_stream_round_trip() {
    let b = sample_raw().to_bytes();
    let again = RawAcpiData::from_bytes(&b).unwrap().to_bytes();
    assert_eq!(b, again);
}

#[test]
fn length_field_not_validated() {
    let mut data = sample_raw();
    data.length = 9999;
    let b = data.to_bytes();
    assert_eq!(b.len(), 39);
    let ret = RawAcpiData::from_bytes(&b).unwrap();
    assert_eq!(ret.length, 9999);
    assert_eq!(data, ret);
}
