use usbd_microsoft_os::os_20::{
    Capabilities, CapabilityInfo, DescriptorSet, FeatureDescriptor, PropertyDataType,
    ALT_ENUM_CODE_NOT_SUPPORTED,
};
use usbd_microsoft_os::WindowsVersion;

/// UTF-16 code units of `s` with one trailing NUL unit.
fn utf16_null(s: &str) -> Vec<u16> {
    let mut units: Vec<u16> = s.encode_utf16().collect();
    units.push(0);
    units
}

// From the platform specification:
// Example: Microsoft OS 2.0 descriptor sets for a registry value

const REF_DESCRIPTOR_SET: &[u8] = &[
    //
    // Microsoft OS 2.0 Descriptor Set Header
    //
    0x0A, 0x00, // wLength - 10 bytes
    0x00, 0x00, // MSOS20_SET_HEADER_DESCRIPTOR
    0x00, 0x00, 0x03, 0x06, // dwWindowsVersion - 0x06030000 for Windows Blue
    0x48, 0x00, // wTotalLength - 72 bytes
    //
    // Microsoft OS 2.0 Registry Value Feature Descriptor
    //
    0x3E, 0x00, // wLength - 62 bytes
    0x04, 0x00, // wDescriptorType - 4 for Registry Property
    0x04, 0x00, // wPropertyDataType - 4 for REG_DWORD
    0x30, 0x00, // wPropertyNameLength - 48 bytes
    0x53, 0x00, 0x65, 0x00, // Property Name - "SelectiveSuspendEnabled"
    0x6C, 0x00, 0x65, 0x00,
    0x63, 0x00, 0x74, 0x00,
    0x69, 0x00, 0x76, 0x00,
    0x65, 0x00, 0x53, 0x00,
    0x75, 0x00, 0x73, 0x00,
    0x70, 0x00, 0x65, 0x00,
    0x6E, 0x00, 0x64, 0x00,
    0x45, 0x00, 0x6E, 0x00,
    0x61, 0x00, 0x62, 0x00,
    0x6C, 0x00, 0x65, 0x00,
    0x64, 0x00, 0x00, 0x00,
    0x04, 0x00, // wPropertyDataLength - 4 bytes
    0x01, 0x00, 0x00, 0x00, // PropertyData - 0x00000001
];

const REF_CAPABILITIES: &[u8] = &[
    //
    // Microsoft OS 2.0 Platform Capability Descriptor Header
    //
    0x1C, // bLength - 28 bytes
    0x10, // bDescriptorType - 16
    0x05, // bDevCapability - 5 for Platform Capability
    0x00, // bReserved - 0
    0xDF, 0x60, 0xDD, 0xD8, // MS_OS_20_Platform_Capability_ID -
    0x89, 0x45, 0xC7, 0x4C, // {D8DD60DF-4589-4CC7-9CD2-659D9E648A9F}
    0x9C, 0xD2, 0x65, 0x9D, //
    0x9E, 0x64, 0x8A, 0x9F,
    //
    // Descriptor Information Set for Windows 8.1 or later
    //
    0x00, 0x00, 0x03, 0x06, // dwWindowsVersion - 0x06030000 for Windows Blue
    0x48, 0x00, // wLength - size of MS OS 2.0 descriptor set
    0x01, // bMS_VendorCode
    0x00, // bAltEnumCmd - 0 Does not support alternate enum
];

fn example1_descriptor_set() -> DescriptorSet {
    DescriptorSet {
        version: WindowsVersion::MINIMAL,
        features: vec![FeatureDescriptor::RegistryProperty {
            data_type: PropertyDataType::RegDwordLittleEndian,
            name: utf16_null("SelectiveSuspendEnabled"),
            data: vec![1, 0, 0, 0],
        }],
        configurations: vec![],
    }
}

fn example1_capabilities() -> Capabilities {
    Capabilities {
        infos: vec![CapabilityInfo {
            descriptors: example1_descriptor_set(),
            alt_enum_cmd: ALT_ENUM_CODE_NOT_SUPPORTED,
        }],
    }
}

#[test]
fn bos_capability_descriptor() {
    let capabilities = example1_capabilities();
    let data = capabilities.descriptor_data();
    assert_eq!(data.len(), capabilities.data_len());
    assert_eq!(data.as_slice(), &REF_CAPABILITIES[3..]);
}

#[test]
fn os_20_descriptor_set() {
    let set = example1_descriptor_set();
    let data = set.descriptor();
    assert_eq!(data.len(), set.total_len() as usize);
    assert_eq!(data.as_slice(), REF_DESCRIPTOR_SET);
}

// From the platform specification:
// Example: Microsoft OS 2.0 descriptor sets for a registry value based on
// specific Windows version

const REF_DESCRIPTOR_SET_2_0: &[u8] = &[
    //
    // Microsoft OS 2.0 Descriptor Set Header
    //
    0x0A, 0x00, // wLength - 10 bytes
    0x00, 0x00, // MSOS20_SET_HEADER_DESCRIPTOR
    0x00, 0x00, 0x03, 0x06, // dwWindowsVersion - 0x06030000 for Windows 8.1 Build
    0x48, 0x00, // wTotalLength - 72 bytes
    //
    // Microsoft OS 2.0 Registry Value Feature Descriptor
    //
    0x3E, 0x00, // wLength - 62 bytes
    0x04, 0x00, // wDescriptorType - 4 for Registry Property
    0x04, 0x00, // wPropertyDataType - 4 for REG_DWORD
    0x30, 0x00, // wPropertyNameLength - 48 bytes
    0x53, 0x00, 0x65, 0x00, // Property Name - "SelectiveSuspendEnabled"
    0x6C, 0x00, 0x65, 0x00,
    0x63, 0x00, 0x74, 0x00,
    0x69, 0x00, 0x76, 0x00,
    0x65, 0x00, 0x53, 0x00,
    0x75, 0x00, 0x73, 0x00,
    0x70, 0x00, 0x65, 0x00,
    0x6E, 0x00, 0x64, 0x00,
    0x45, 0x00, 0x6E, 0x00,
    0x61, 0x00, 0x62, 0x00,
    0x6C, 0x00, 0x65, 0x00,
    0x64, 0x00, 0x00, 0x00,
    0x04, 0x00, // wPropertyDataLength - 4 bytes
    0x00, 0x00, 0x00, 0x00, // PropertyData - 0x00000000
];

const REF_DESCRIPTOR_SET_2_1: &[u8] = &[
    //
    // Microsoft OS 2.0 Descriptor Set Header
    //
    0x0A, 0x00, // wLength - 10 bytes
    0x00, 0x00, // MSOS20_SET_HEADER_DESCRIPTOR
    0x00, 0x00, 0x00, 0x0A, // dwWindowsVersion - Windows 10
    0x48, 0x00, // wTotalLength - 72 bytes
    //
    // Microsoft OS 2.0 Registry Value Feature Descriptor
    //
    0x3E, 0x00, // wLength - 62 bytes
    0x04, 0x00, // wDescriptorType - 4 for Registry Property
    0x04, 0x00, // wPropertyDataType - 4 for REG_DWORD
    0x30, 0x00, // wPropertyNameLength - 48 bytes
    0x53, 0x00, 0x65, 0x00, // Property Name - "SelectiveSuspendEnabled"
    0x6C, 0x00, 0x65, 0x00,
    0x63, 0x00, 0x74, 0x00,
    0x69, 0x00, 0x76, 0x00,
    0x65, 0x00, 0x53, 0x00,
    0x75, 0x00, 0x73, 0x00,
    0x70, 0x00, 0x65, 0x00,
    0x6E, 0x00, 0x64, 0x00,
    0x45, 0x00, 0x6E, 0x00,
    0x61, 0x00, 0x62, 0x00,
    0x6C, 0x00, 0x65, 0x00,
    0x64, 0x00, 0x00, 0x00,
    0x04, 0x00, // wPropertyDataLength - 4 bytes
    0x01, 0x00, 0x00, 0x00, // PropertyData - 0x00000001
];

const REF_CAPABILITIES_2: &[u8] = &[
    //
    // Microsoft OS 2.0 Platform Descriptor Header
    //
    0x24, // bLength - 36 bytes
    0x10, // bDescriptorType - 16
    0x05, // bDevCapability - 5 for Platform Capability
    0x00, // bReserved - 0
    0xDF, 0x60, 0xDD, 0xD8, // MS_OS_20_Platform_Capability_ID -
    0x89, 0x45, 0xC7, 0x4C, // {D8DD60DF-4589-4CC7-9CD2-659D9E648A9F}
    0x9C, 0xD2, 0x65, 0x9D, //
    0x9E, 0x64, 0x8A, 0x9F, //
    //
    // Descriptor Information Set for Windows 8.1 or later
    //
    0x00, 0x00, 0x03, 0x06, // dwWindowsVersion - 0x06030000 for Windows 8.1 Build
    0x48, 0x00, // wLength - size of MS OS 2.0 descriptor set
    0x01, // bMS_VendorCode
    0x00, // bAltEnumCmd - 0 Does not support alternate enum
    //
    // Descriptor Information Set for future version of Windows or later
    //
    0x00, 0x00, 0x00, 0x0A, // dwWindowsVersion - Windows 10
    0x48, 0x00, // wLength - size of MS OS 2.0 descriptor set
    0x02, // bMS_VendorCode
    0x10, // bAltEnumCmd - non-zero, supports alternate enum
];

fn example2_descriptor_set(index: usize) -> DescriptorSet {
    if index == 0 {
        DescriptorSet {
            version: WindowsVersion::MINIMAL,
            features: vec![FeatureDescriptor::RegistryProperty {
                data_type: PropertyDataType::RegDwordLittleEndian,
                name: utf16_null("SelectiveSuspendEnabled"),
                data: vec![0, 0, 0, 0],
            }],
            configurations: vec![],
        }
    } else {
        DescriptorSet {
            version: WindowsVersion::Win10,
            features: vec![FeatureDescriptor::RegistryProperty {
                data_type: PropertyDataType::RegDwordLittleEndian,
                name: utf16_null("SelectiveSuspendEnabled"),
                data: vec![1, 0, 0, 0],
            }],
            configurations: vec![],
        }
    }
}

fn example2_capabilities() -> Capabilities {
    Capabilities {
        infos: vec![
            CapabilityInfo {
                descriptors: example2_descriptor_set(0),
                alt_enum_cmd: ALT_ENUM_CODE_NOT_SUPPORTED,
            },
            CapabilityInfo {
                descriptors: example2_descriptor_set(1),
                alt_enum_cmd: 0x10,
            },
        ],
    }
}

#[test]
fn os_20_bos_capability_descriptor() {
    let capabilities = example2_capabilities();
    let data = capabilities.descriptor_data();
    assert_eq!(data.len(), capabilities.data_len());
    assert_eq!(data.as_slice(), &REF_CAPABILITIES_2[3..]);
}

#[test]
fn descriptor_set_0() {
    let set = example2_descriptor_set(0);
    let data = set.descriptor();
    assert_eq!(data.as_slice(), REF_DESCRIPTOR_SET_2_0);
}

#[test]
fn descriptor_set_1() {
    let set = example2_descriptor_set(1);
    let data = set.descriptor();
    assert_eq!(data.as_slice(), REF_DESCRIPTOR_SET_2_1);
}

#[test]
fn capability_block_vendor_codes_are_1_based() {
    // The whole block is 36 bytes including the 3-byte header the writer
    // supplies, and its two 8-byte records carry vendor codes 1 and 2.
    let capabilities = example2_capabilities();
    assert_eq!(capabilities.total_len(), 0x24);
    let data = capabilities.descriptor_data();
    assert_eq!(data.len() + 3, 0x24);
    for i in 0..2 {
        assert_eq!(data[17 + 8 * i + 6], (i + 1) as u8);
    }
}

#[test]
fn capability_type_is_platform() {
    assert_eq!(Capabilities::capability_type(), 5);
}

#[test]
fn well_formed_bounds_the_info_count() {
    let mut infos = Vec::new();
    for _ in 0..30 {
        infos.push(CapabilityInfo {
            descriptors: example1_descriptor_set(),
            alt_enum_cmd: ALT_ENUM_CODE_NOT_SUPPORTED,
        });
    }
    let too_many = Capabilities { infos };
    assert!(!too_many.well_formed());
    assert!(example2_capabilities().well_formed());
}
