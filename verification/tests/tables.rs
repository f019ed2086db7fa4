use acpi::error::{Error, Field};
use acpi::table_types;
use acpi::AcpiTable;
use acpi::{
    BootGraphicsResource, MemoryMappedConfiguration, MemoryMappedConfigurationSpace, RawAcpiData,
    SystemManagementModeCommunication,
};

#[test]
fn boot_graphics_resource() {
    let data = BootGraphicsResource {
        signature: "ABCD".to_string(),
        length: 36,
        revision: 1,
        checksum: 2,
        oem_id: "EF".to_string(),
        oem_table_id: "GHI".to_string(),
        oem_revision: 3,
        creator_id: 4,
        creator_revision: 5,
        version: 6,
        status: 7,
        image_type: 8,
        image_address: vec![0, 1, 2, 3, 4, 5, 6, 7],
        image_offset_x: 9,
        image_offset_y: 10,
    };
    let b = data.clone().into_bytes();
    let raw = RawAcpiData::from_bytes(&b).unwrap();
    let ret = BootGraphicsResource::from_header(raw).unwrap();
    assert_eq!(data, ret);
}

#[test]
fn memory_mapped_configuration() {
    let data = MemoryMappedConfiguration {
        signature: "ABCD".to_string(),
        length: 36,
        revision: 1,
        checksum: 2,
        oem_id: "EF".to_string(),
        oem_table_id: "GHI".to_string(),
        oem_revision: 3,
        creator_id: 4,
        creator_revision: 5,
        reserved: vec![0, 1, 2, 3, 4, 5, 6, 7],
        spaces: vec![MemoryMappedConfigurationSpace {
            base_address: vec![6, 7, 8, 9, 10, 11, 12, 13],
            segment_number: 6,
            bus_number_start: 7,
            bus_number_end: 8,
            reserved: vec![12, 13, 14, 15],
        }],
    };
    let b = data.clone().into_bytes();
    let raw = RawAcpiData::from_bytes(&b).unwrap();
    let ret = MemoryMappedConfiguration::from_header(raw).unwrap();
    assert_eq!(data, ret);
}

#[test]
fn system_management_mode_communication() {
    let data = SystemManagementModeCommunication {
        signature: "ABCD".to_string(),
        length: 36,
        revision: 1,
        checksum: 2,
        oem_id: "EF".to_string(),
        oem_table_id: "GHI".to_string(),
        oem_revision: 3,
        creator_id: 4,
        creator_revision: 5,
        identifier: vec![0, 1, 2, 3, 4, 5, 6, 7, 8, 9, 10, 11, 12, 13, 14, 15],
        data_offset: 6,
        sw_smi_number: 7,
        buffer_prt_address: vec![16, 17, 18, 19, 20, 21, 22, 23],
        invocation_register: Some(vec![1u8; 12]),
    };
    let b = data.clone().into_bytes();
    let raw = RawAcpiData::from_bytes(&b).unwrap();
    let ret = SystemManagementModeCommunication::from_header(raw).unwrap();
    assert_eq!(data, ret);
}

fn table_with_payload(payload: Vec<u8>) -> Vec<u8> {
    let raw = RawAcpiData {
        signature: "WXYZ".to_string(),
        length: 0,
        revision: 1,
        checksum: 2,
        oem_id: "OEM".to_string(),
        oem_table_id: "TABLE".to_string(),
        oem_revision: 3,
        creator_id: 4,
        creator_revision: 5,
        acpi_table_data: payload,
    };
    raw.to_bytes()
}

#[test]
fn management_mode_optional_field_absent() {
    let bytes = table_with_payload(vec![9u8; 30]);
    assert_eq!(bytes.len(), 66);
    let t: SystemManagementModeCommunication = acpi::get(&bytes).unwrap();
    assert_eq!(t.invocation_register, None);
    let encoded = t.into_bytes();
    assert_eq!(encoded.len(), 66);
    assert_eq!(encoded, bytes);
}

#[test]
fn management_mode_optional_field_present() {
    let bytes = table_with_payload(vec![9u8; 42]);
    let t: SystemManagementModeCommunication = acpi::get(&bytes).unwrap();
    assert_eq!(t.invocation_register, Some(vec![9u8; 12]));
    let encoded = t.into_bytes();
    assert_eq!(encoded.len(), 36 + 42);
    assert_eq!(encoded, bytes);
}

#[test]
fn management_mode_partial_register_underruns() {
    let bytes = table_with_payload(vec![9u8; 35]);
    let r: Result<SystemManagementModeCommunication, Error> = acpi::get(&bytes);
    assert_eq!(r.unwrap_err(), Error::Underrun(Field::InvocationRegister));
}

#[test]
fn memory_mapped_two_sub_records() {
    let mut payload = vec![0u8; 8];
    for i in 0..32 {
        payload.push(i as u8);
    }
    let bytes = table_with_payload(payload);
    let t: MemoryMappedConfiguration = acpi::get(&bytes).unwrap();
    assert_eq!(t.spaces.len(), 2);
    assert_eq!(t.spaces[0].base_address, vec![0, 1, 2, 3, 4, 5, 6, 7]);
    assert_eq!(t.spaces[0].segment_number, u16::from_le_bytes([8, 9]));
    assert_eq!(t.spaces[0].bus_number_start, 10);
    assert_eq!(t.spaces[0].bus_number_end, 11);
    assert_eq!(t.spaces[1].base_address, vec![16, 17, 18, 19, 20, 21, 22, 23]);
    let encoded = t.into_bytes();
    assert_eq!(encoded.len(), 36 + 40);
    assert_eq!(encoded, bytes);
}

#[test]
fn memory_mapped_partial_chunk_dropped() {
    let bytes = table_with_payload(vec![5u8; 8 + 16 + 7]);
    let t: MemoryMappedConfiguration = acpi::get(&bytes).unwrap();
    assert_eq!(t.spaces.len(), 1);
    let encoded = t.into_bytes();
    assert_eq!(encoded.len(), 36 + 8 + 16);
}

#[test]
fn configuration_space_round_trip() {
    let space = MemoryMappedConfigurationSpace {
        base_address: vec![1, 2, 3, 4, 5, 6, 7, 8],
        segment_number: 513,
        bus_number_start: 0,
        bus_number_end: 255,
        reserved: vec![0, 0, 0, 0],
    };
    let b = space.clone().into_bytes();
    assert_eq!(b.len(), 16);
    let ret = MemoryMappedConfigurationSpace::from_bytes(&b).unwrap();
    assert_eq!(space, ret);
    let short = MemoryMappedConfigurationSpace::from_bytes(&b[..9]);
    assert_eq!(short.unwrap_err(), Error::Underrun(Field::SegmentNumber));
}

#[test]
fn boot_graphics_underrun_never_panics() {
    let bytes = table_with_payload(vec![1u8; 10]);
    let r: Result<BootGraphicsResource, Error> = acpi::get(&bytes);
    assert_eq!(r.unwrap_err(), Error::Underrun(Field::ImageAddress));

    let empty = table_with_payload(vec![]);
    let r2: Result<BootGraphicsResource, Error> = acpi::get(&empty);
    assert_eq!(r2.unwrap_err(), Error::Underrun(Field::Version));
}

#[test]
fn get_raw_hands_back_the_table() {
    let bytes = table_with_payload(b"payload".to_vec());
    let raw: RawAcpiData = acpi::get(&bytes).unwrap();
    assert_eq!(raw.signature, "WXYZ");
    assert_eq!(raw.acpi_table_data, b"payload".to_vec());
    assert_eq!(raw.to_bytes(), bytes);
}

#[test]
fn table_types_sorts_and_dedups() {
    let mut buffer: Vec<u8> = Vec::new();
    buffer.extend_from_slice(b"SSDT");
    buffer.extend_from_slice(b"APIC");
    buffer.extend_from_slice(b"APIC");
    buffer.extend_from_slice(b"DSDT");
    buffer.extend_from_slice(b"AP");
    let names = table_types(&buffer);
    assert_eq!(names, vec!["APIC".to_string(), "DSDT".to_string(), "SSDT".to_string()]);
}

#[test]
fn table_types_empty_buffer() {
    let names = table_types(&[]);
    assert_eq!(names.len(), 0);
}
