use usbd_microsoft_os::os_20::{
    ConfigurationSubset, DescriptorSet, FeatureDescriptor, FunctionSubset, PropertyDataType,
};
use usbd_microsoft_os::WindowsVersion;

/// UTF-16 code units of `s` with one trailing NUL unit.
fn utf16_null(s: &str) -> Vec<u16> {
    let mut units: Vec<u16> = s.encode_utf16().collect();
    units.push(0);
    units
}

/// UTF-16LE bytes of `s` with one trailing NUL unit.
fn utf16_null_le_bytes(s: &str) -> Vec<u8> {
    utf16_null(s).iter().flat_map(|u| u.to_le_bytes()).collect()
}

fn example_set() -> DescriptorSet {
    DescriptorSet {
        version: WindowsVersion::MINIMAL,
        features: vec![],
        configurations: vec![ConfigurationSubset {
            configuration: 0,
            features: vec![],
            functions: vec![FunctionSubset {
                first_interface: 1,
                features: vec![
                    FeatureDescriptor::CompatibleId {
                        id: *b"WINUSB\0\0",
                        sub_id: *b"\0\0\0\0\0\0\0\0",
                    },
                    FeatureDescriptor::RegistryProperty {
                        data_type: PropertyDataType::RegMutliSz,
                        name: utf16_null("DeviceInterfaceGUIDs"),
                        data: utf16_null_le_bytes("{897d7b90-5aae-43e5-9c36-aa0f2fdbafc9}\0"),
                    },
                ],
            }],
        }],
    }
}

#[test]
fn registry_property_size() {
    let descriptor = FeatureDescriptor::RegistryProperty {
        data_type: PropertyDataType::RegMutliSz,
        name: utf16_null("DeviceInterfaceGUIDs"),
        data: utf16_null_le_bytes("{897d7b90-5aae-43e5-9c36-aa0f2fdbafc9}\0"),
    };
    assert_eq!(descriptor.total_len(), 0x0084);
}

#[test]
fn descriptor_set() {
    let utf16le = |s: &str| -> Vec<u8> { s.encode_utf16().flat_map(|c| c.to_le_bytes()).collect() };
    let expected_fields: &[&[u8]] = &[
        // Microsoft OS 2.0 descriptor set header
        &0x000A_u16.to_le_bytes(),                              // wLength
        &0x0000_u16.to_le_bytes(),                              // wDescriptorType
        &0x06030000_u32.to_le_bytes(),                          // dwWindowsVersion
        &0x00B2_u16.to_le_bytes(),                              // wTotalLength
        // Microsoft OS 2.0 configuration subset header
        &0x0008_u16.to_le_bytes(),                              // wLength
        &0x0001_u16.to_le_bytes(),                              // wDescriptorType
        &0x00_u8.to_le_bytes(),                                 // bConfigurationValue
        &0x00_u8.to_le_bytes(),                                 // bReserved
        &0x00A8_u16.to_le_bytes(),                              // wTotalLength
        // Microsoft OS 2.0 function subset header
        &0x0008_u16.to_le_bytes(),                              // wLength
        &0x0002_u16.to_le_bytes(),                              // wDescriptorType
        &0x01_u8.to_le_bytes(),                                 // bFirstInterface
        &0x00_u8.to_le_bytes(),                                 // bReserved
        &0x00A0_u16.to_le_bytes(),                              // wSubsetLength
        // Microsoft OS 2.0 compatible ID descriptor
        &0x0014_u16.to_le_bytes(),                              // wLength
        &0x0003_u16.to_le_bytes(),                              // wDescriptorType
        b"WINUSB\0\0",                                          // CompatibleID
        b"\0\0\0\0\0\0\0\0",                                    // SubCompatibleID
        // Microsoft OS 2.0 registry property descriptor
        &0x0084_u16.to_le_bytes(),                              // wLength
        &0x0004_u16.to_le_bytes(),                              // wDescriptorType
        &0x0007_u16.to_le_bytes(),                              // wPropertyDataType
        &0x002A_u16.to_le_bytes(),                              // wPropertyNameLength
        &utf16le("DeviceInterfaceGUIDs\0"),                     // PropertyName
        &0x0050_u16.to_le_bytes(),                              // wPropertyDataLength
        &utf16le("{897d7b90-5aae-43e5-9c36-aa0f2fdbafc9}\0\0"), // PropertyData
    ];
    let expected_bytes: Vec<u8> = expected_fields.iter().copied().flatten().copied().collect();
    assert_eq!(expected_bytes.len(), 0x00b2);

    let set = example_set();
    let size = set.total_len();
    let desc = set.descriptor();

    assert_eq!(desc.as_slice(), expected_bytes.as_slice());
    assert_eq!(size, 0xb2);
    assert_eq!(desc.len(), size as usize);
}

#[test]
fn feature_descriptor_compatible_id() {
    let feat = FeatureDescriptor::CompatibleId {
        id: *b"WINUSB\0\0",
        sub_id: *b"TESTING\0",
    };
    let desc = feat.descriptor();
    assert_eq!(
        desc.as_slice(),
        &[
            20,
            0,
            3,
            0,
            b'W', b'I', b'N', b'U', b'S', b'B', 0, 0,
            b'T', b'E', b'S', b'T', b'I', b'N', b'G', 0,
        ]
    );
}

#[test]
fn feature_descriptor_register_property() {
    let feat = FeatureDescriptor::RegistryProperty {
        data_type: PropertyDataType::RegMutliSz,
        name: utf16_null("DeviceInterfaceGUIDs"),
        data: utf16_null_le_bytes("{897d7b90-5aae-43e5-9c36-aa0f2fdbafc9}\0"),
    };
    let desc = feat.descriptor();
    let name_len = 2 * 21;
    let data_len = 2 * 40;
    let len = 10 + name_len + data_len;
    assert_eq!(
        desc.as_slice(),
        &[
            len, 0,
            4, 0,
            7, 0, // wPropertyDataType
            name_len, 0, // wPropertyNameLength
            b'D', 0, b'e', 0, b'v', 0, b'i', 0, b'c', 0, b'e', 0,
            b'I', 0, b'n', 0, b't', 0, b'e', 0, b'r', 0, b'f', 0, b'a', 0, b'c', 0, b'e', 0,
            b'G', 0, b'U', 0, b'I', 0, b'D', 0, b's', 0,
            0, 0,
            data_len, 0, // wPropertyDataLength
            b'{', 0, b'8', 0, b'9', 0, b'7', 0, b'd', 0, b'7', 0, b'b', 0, b'9', 0, b'0', 0,
            b'-', 0, b'5', 0, b'a', 0, b'a', 0, b'e', 0,
            b'-', 0, b'4', 0, b'3', 0, b'e', 0, b'5', 0,
            b'-', 0, b'9', 0, b'c', 0, b'3', 0, b'6', 0,
            b'-', 0, b'a', 0, b'a', 0, b'0', 0, b'f', 0, b'2', 0, b'f', 0, b'd', 0, b'b', 0,
            b'a', 0, b'f', 0, b'c', 0, b'9', 0,
            b'}', 0, 0, 0,
            0, 0,
        ]
    );
}

#[test]
fn feature_descriptor_resume_time() {
    let feat = FeatureDescriptor::ResumeTime {
        recovery: 100,
        signaling: 200,
    };
    let desc = feat.descriptor();
    assert_eq!(desc.as_slice(), &[6, 0, 5, 0, 100, 200]);
}

#[test]
fn feature_descriptor_model_id() {
    let feat = FeatureDescriptor::ModelId {
        id: [1, 2, 3, 4, 5, 6, 7, 8, 9, 10, 11, 12, 13, 14, 15, 16],
    };
    let desc = feat.descriptor();
    assert_eq!(
        desc.as_slice(),
        &[20, 0, 6, 0, 1, 2, 3, 4, 5, 6, 7, 8, 9, 10, 11, 12, 13, 14, 15, 16]
    );
}

#[test]
fn feature_descriptor_ccgp() {
    let feat = FeatureDescriptor::CcgpDevice;
    let desc = feat.descriptor();
    assert_eq!(desc.as_slice(), &[4, 0, 7, 0]);
}

#[test]
fn feature_descriptor_vendor_revision() {
    let feat = FeatureDescriptor::VendorRevision { revision: 0x11aa };
    let desc = feat.descriptor();
    assert_eq!(desc.as_slice(), &[6, 0, 8, 0, 0xaa, 0x11]);
}

fn write_descriptor_set(buf: &mut [u8]) -> Result<usize, usb_device::UsbError> {
    let set = example_set();
    let size = set.size();
    let desc = set.descriptor();

    if buf.len() < size {
        return Err(usb_device::UsbError::BufferOverflow);
    }

    buf[..size].copy_from_slice(&desc);

    Ok(size)
}

#[test]
fn descriptor_set_write_overflow() {
    // Default control endpoint size used in usb-device
    let mut buf = [0u8; 128];
    assert!(write_descriptor_set(buf.as_mut_slice()).is_err());
}

#[test]
fn descriptor_set_no_overflow() {
    // Control endpoint size with feature "control-buffer-256" enabled
    let mut buf = [0u8; 256];
    assert_eq!(
        write_descriptor_set(buf.as_mut_slice()).unwrap(),
        example_set().size()
    );
}

#[test]
fn empty_set_encodes_to_header_only() {
    // A set with no features and no configurations is exactly its 10-byte
    // header: length 10, type 0, the version, and a total length of 10.
    let set = DescriptorSet {
        version: WindowsVersion::MINIMAL,
        features: vec![],
        configurations: vec![],
    };
    assert_eq!(set.size(), 10);
    let desc = set.descriptor();
    assert_eq!(
        desc.as_slice(),
        &[0x0A, 0x00, 0x00, 0x00, 0x00, 0x00, 0x03, 0x06, 0x0A, 0x00]
    );
}

#[test]
fn encoding_is_idempotent() {
    let set = example_set();
    let first = set.descriptor();
    let second = set.descriptor();
    assert_eq!(first, second);
}

#[test]
fn header_fields_round_trip() {
    let set = example_set();
    let desc = set.descriptor();
    assert_eq!(u16::from_le_bytes([desc[0], desc[1]]), 10);
    assert_eq!(u16::from_le_bytes([desc[2], desc[3]]), 0);
    assert_eq!(
        u16::from_le_bytes([desc[8], desc[9]]),
        desc.len() as u16
    );
}

#[test]
fn sizes_agree_with_encoded_lengths() {
    // Size/encode agreement on several shapes, the empty ones included.
    let empty = DescriptorSet {
        version: WindowsVersion::MINIMAL,
        features: vec![],
        configurations: vec![],
    };
    assert_eq!(empty.descriptor().len(), empty.size());

    let set = example_set();
    assert_eq!(set.descriptor().len(), set.size());

    let feats: Vec<FeatureDescriptor> = vec![
        FeatureDescriptor::CcgpDevice,
        FeatureDescriptor::VendorRevision { revision: 1 },
        FeatureDescriptor::ResumeTime {
            recovery: 2,
            signaling: 4,
        },
    ];
    for feat in &feats {
        assert_eq!(feat.descriptor().len(), feat.size());
    }
}

#[test]
fn well_formed_rejects_version_below_floor() {
    let set = DescriptorSet {
        version: WindowsVersion::Win7,
        features: vec![],
        configurations: vec![],
    };
    assert!(!set.well_formed());

    let ok = DescriptorSet {
        version: WindowsVersion::Win10,
        features: vec![],
        configurations: vec![],
    };
    assert!(ok.well_formed());
}

#[test]
fn well_formed_rejects_oversized_feature() {
    let big = FeatureDescriptor::RegistryProperty {
        data_type: PropertyDataType::RegBinary,
        name: utf16_null("A"),
        data: vec![0u8; 0x10000],
    };
    assert!(!big.well_formed());

    let set = DescriptorSet {
        version: WindowsVersion::MINIMAL,
        features: vec![big],
        configurations: vec![],
    };
    assert!(!set.well_formed());
}
