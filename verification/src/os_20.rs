//! Microsoft OS 2.0 descriptors: the data model, the size calculator and the
//! two byte-exact encoders (descriptor set and platform-capability block).

use vstd::prelude::*;

verus! {

/// Zero indicates that alternative enumeration is not supported.
pub const ALT_ENUM_CODE_NOT_SUPPORTED: u8 = 0;

/// The two bytes of `v` in little-endian order.
pub open spec fn spec_le16(v: u16) -> Seq<u8> {
    seq![(v & 0xff) as u8, ((v >> 8) & 0xff) as u8]
}

/// The four bytes of `v` in little-endian order.
pub open spec fn spec_le32(v: u32) -> Seq<u8> {
    seq![
        (v & 0xff) as u8,
        ((v >> 8) & 0xff) as u8,
        ((v >> 16) & 0xff) as u8,
        ((v >> 24) & 0xff) as u8,
    ]
}

/// A little-endian byte pair recomposes to the value it was split from.
pub proof fn lemma_le16_recompose(v: u16)
    ensures
        spec_le16(v)[0] + 0x100 * spec_le16(v)[1] == v,
{
    assert(((v & 0xff) as u8) + 0x100 * (((v >> 8) & 0xff) as u8) == v) by (bit_vector);
}

/// Appends the two bytes of `v`, little-endian.
fn push_le16(buf: &mut Vec<u8>, v: u16)
    ensures
        final(buf)@ == old(buf)@ + spec_le16(v),
{
    buf.push((v & 0xff) as u8);
    buf.push(((v >> 8) & 0xff) as u8);
    assert(buf@ =~= old(buf)@ + spec_le16(v));
}

/// Appends the four bytes of `v`, little-endian.
fn push_le32(buf: &mut Vec<u8>, v: u32)
    ensures
        final(buf)@ == old(buf)@ + spec_le32(v),
{
    buf.push((v & 0xff) as u8);
    buf.push(((v >> 8) & 0xff) as u8);
    buf.push(((v >> 16) & 0xff) as u8);
    buf.push(((v >> 24) & 0xff) as u8);
    assert(buf@ =~= old(buf)@ + spec_le32(v));
}

/// Appends a byte slice verbatim.
fn push_bytes(buf: &mut Vec<u8>, bytes: &[u8])
    ensures
        final(buf)@ == old(buf)@ + bytes@,
{
    let n = bytes.len();
    let mut i: usize = 0;
    while i < n
        invariant
            i <= n,
            n == bytes@.len(),
            buf@ == old(buf)@ + bytes@.take(i as int),
        decreases n - i,
    {
        buf.push(bytes[i]);
        assert(bytes@.take(i + 1) =~= bytes@.take(i as int) + seq![bytes@[i as int]]);
        assert(buf@ =~= old(buf)@ + bytes@.take(i + 1));
        i = i + 1;
    }
    assert(bytes@.take(n as int) =~= bytes@);
}

/// Microsoft OS 2.0 descriptor wIndex values.
#[derive(Clone, Copy)]
pub enum DescriptorIndex {
    /// MS OS 2.0 retrieve descriptor request
    Descriptor,
    /// MS OS 2.0 set alternate enumeration command
    SetAltEnumeration,
}

impl DescriptorIndex {
    /// The wIndex value of this request kind.
    pub open spec fn code_spec(self) -> u16 {
        match self {
            DescriptorIndex::Descriptor => 0x07,
            DescriptorIndex::SetAltEnumeration => 0x08,
        }
    }

    /// The wIndex value of this request kind.
    pub fn code(&self) -> (r: u16)
        ensures
            r == self.code_spec(),
    {
        match self {
            DescriptorIndex::Descriptor => 0x07,
            DescriptorIndex::SetAltEnumeration => 0x08,
        }
    }

    /// Get little-endian bytes as used in the descriptor.
    pub fn bytes(&self) -> (r: [u8; 2])
        ensures
            r@ == spec_le16(self.code_spec()),
    {
        let c = self.code();
        let r = [(c & 0xff) as u8, ((c >> 8) & 0xff) as u8];
        assert(r@ =~= spec_le16(c));
        r
    }
}

/// Microsoft OS 2.0 descriptor types.
#[derive(Clone, Copy)]
#[allow(missing_docs)]
pub enum DescriptorType {
    SetHeaderDescriptor,
    SubsetHeaderConfiguration,
    SubsetHeaderFunction,
    FeatureCompatbleId,
    FeatureRegProperty,
    FeatureMinResumeTime,
    FeatureModelId,
    FeatureCcgpDevice,
    FeatureVendorRevision,
}

impl DescriptorType {
    /// The wDescriptorType value of this descriptor type.
    pub open spec fn code_spec(self) -> u16 {
        match self {
            DescriptorType::SetHeaderDescriptor => 0x00,
            DescriptorType::SubsetHeaderConfiguration => 0x01,
            DescriptorType::SubsetHeaderFunction => 0x02,
            DescriptorType::FeatureCompatbleId => 0x03,
            DescriptorType::FeatureRegProperty => 0x04,
            DescriptorType::FeatureMinResumeTime => 0x05,
            DescriptorType::FeatureModelId => 0x06,
            DescriptorType::FeatureCcgpDevice => 0x07,
            DescriptorType::FeatureVendorRevision => 0x08,
        }
    }

    /// The wDescriptorType value of this descriptor type.
    pub fn code(&self) -> (r: u16)
        ensures
            r == self.code_spec(),
    {
        match self {
            DescriptorType::SetHeaderDescriptor => 0x00,
            DescriptorType::SubsetHeaderConfiguration => 0x01,
            DescriptorType::SubsetHeaderFunction => 0x02,
            DescriptorType::FeatureCompatbleId => 0x03,
            DescriptorType::FeatureRegProperty => 0x04,
            DescriptorType::FeatureMinResumeTime => 0x05,
            DescriptorType::FeatureModelId => 0x06,
            DescriptorType::FeatureCcgpDevice => 0x07,
            DescriptorType::FeatureVendorRevision => 0x08,
        }
    }

    /// Get little-endian bytes as used in the descriptor.
    pub fn bytes(&self) -> (r: [u8; 2])
        ensures
            r@ == spec_le16(self.code_spec()),
    {
        let c = self.code();
        let r = [(c & 0xff) as u8, ((c >> 8) & 0xff) as u8];
        assert(r@ =~= spec_le16(c));
        r
    }
}

/// Registry property type.
#[derive(Clone, Copy)]
pub enum PropertyDataType {
    /// A NULL-terminated Unicode String (REG_SZ)
    RegSz,
    /// A NULL-terminated Unicode String that includes environment variables (REG_EXPAND_SZ)
    RegExpandSz,
    /// Free-form binary (REG_BINARY)
    RegBinary,
    /// A little-endian 32-bit integer (REG_DWORD_LITTLE_ENDIAN)
    RegDwordLittleEndian,
    /// A big-endian 32-bit integer (REG_DWORD_BIG_ENDIAN)
    RegDwordBigEndian,
    /// A NULL-terminated Unicode string that contains a symbolic link (REG_LINK)
    RegLink,
    /// Multiple NULL-terminated Unicode strings (REG_MULTI_SZ)
    RegMutliSz,
}

impl PropertyDataType {
    /// The wPropertyDataType value of this property type.
    pub open spec fn code_spec(self) -> u16 {
        match self {
            PropertyDataType::RegSz => 1,
            PropertyDataType::RegExpandSz => 2,
            PropertyDataType::RegBinary => 3,
            PropertyDataType::RegDwordLittleEndian => 4,
            PropertyDataType::RegDwordBigEndian => 5,
            PropertyDataType::RegLink => 6,
            PropertyDataType::RegMutliSz => 7,
        }
    }

    /// The wPropertyDataType value of this property type.
    pub fn code(&self) -> (r: u16)
        ensures
            r == self.code_spec(),
    {
        match self {
            PropertyDataType::RegSz => 1,
            PropertyDataType::RegExpandSz => 2,
            PropertyDataType::RegBinary => 3,
            PropertyDataType::RegDwordLittleEndian => 4,
            PropertyDataType::RegDwordBigEndian => 5,
            PropertyDataType::RegLink => 6,
            PropertyDataType::RegMutliSz => 7,
        }
    }

    /// Get little-endian bytes as used in the descriptor.
    pub fn bytes(&self) -> (r: [u8; 2])
        ensures
            r@ == spec_le16(self.code_spec()),
    {
        let c = self.code();
        let r = [(c & 0xff) as u8, ((c >> 8) & 0xff) as u8];
        assert(r@ =~= spec_le16(c));
        r
    }
}

/// MS OS 2.0 feature descriptor.
pub enum FeatureDescriptor {
    /// Define a compatible device ID.
    CompatibleId {
        /// Compatible ID String
        id: [u8; 8],
        /// Sub-compatible ID String
        sub_id: [u8; 8],
    },
    /// Adds per-device/function registry values used by the USB stack or the
    /// device's function driver.
    RegistryProperty {
        /// Type of registry property
        data_type: PropertyDataType,
        /// Name of registry property, as UTF-16 code units
        name: Vec<u16>,
        /// Property data
        data: Vec<u8>,
    },
    /// Indicate to the Windows USB driver stack the minimum times related to
    /// suspend.
    ResumeTime {
        /// Number of milliseconds the device requires to recover from port
        /// resume (valid 0..=10; a caller convention, not enforced here)
        recovery: u8,
        /// Number of milliseconds the device requires resume signaling to be
        /// asserted (valid 1..=20; a caller convention, not enforced here)
        signaling: u8,
    },
    /// Used to uniquely identify the physical device.
    ModelId {
        /// 128-bit number that uniquely identifies a physical device
        id: [u8; 16],
    },
    /// Indicates that the device should always be treated as a composite
    /// device by Windows.
    CcgpDevice,
    /// Indicates the revision of registry property and other MS OS descriptors.
    VendorRevision {
        /// Revision number associated with the descriptor set (caller
        /// convention: at least 1, not enforced here)
        revision: u16,
    },
}

/// MS OS 2.0 function subset.
///
/// Only used for composite devices or single-function devices that use
/// Usbccgp.sys as client driver.
pub struct FunctionSubset {
    /// Interface number of the first interface of the function to which this
    /// subset applies
    pub first_interface: u8,
    /// Features that apply to a specific USB function (group of interfaces)
    /// within a configuration
    pub features: Vec<FeatureDescriptor>,
}

/// MS OS 2.0 configuration subset.
pub struct ConfigurationSubset {
    /// bConfigurationValue
    pub configuration: u8,
    /// Features that apply to this USB device configuration
    pub features: Vec<FeatureDescriptor>,
    /// Subsets for specific device functions
    pub functions: Vec<FunctionSubset>,
}

/// MS OS 2.0 descriptor set.
pub struct DescriptorSet {
    /// Minimum Windows version for which the descriptor set applies
    pub version: crate::windows_version::WindowsVersion,
    /// Features that apply to the whole device regardless of its configuration
    pub features: Vec<FeatureDescriptor>,
    /// Configuration subsets
    pub configurations: Vec<ConfigurationSubset>,
}

/// Contains information about a unique Microsoft OS 2.0 descriptor set.
pub struct CapabilityInfo {
    /// MS OS 2.0 descriptor set for this capability
    pub descriptors: DescriptorSet,
    /// bAltEnumCode; a non-zero value indicates that the device may return
    /// non-default USB descriptors
    pub alt_enum_cmd: u8,
}

/// Platform BOS capability info set.
pub struct Capabilities {
    /// Capability information for each MS OS 2.0 descriptor set
    pub infos: Vec<CapabilityInfo>,
}

impl FeatureDescriptor {
    /// Exact encoded length in bytes: a 4-byte header (16-bit length plus
    /// 16-bit type code) followed by the variant payload.
    pub open spec fn total_len_spec(self) -> int {
        match self {
            FeatureDescriptor::CompatibleId { .. } => 20,
            FeatureDescriptor::RegistryProperty { name, data, .. } => 10 + 2 * (name@.len()
                as int) + data@.len(),
            FeatureDescriptor::ResumeTime { .. } => 6,
            FeatureDescriptor::ModelId { .. } => 20,
            FeatureDescriptor::CcgpDevice => 4,
            FeatureDescriptor::VendorRevision { .. } => 6,
        }
    }

    /// The encoded length must fit the 16-bit wire field; exceeding it is a
    /// construction-time error.
    pub open spec fn wf(self) -> bool {
        self.total_len_spec() <= 0xFFFF
    }
}

/// Sum of the encoded lengths of a sequence of feature descriptors.
pub open spec fn features_len(fs: Seq<FeatureDescriptor>) -> int
    decreases fs.len(),
{
    if fs.len() == 0 {
        0
    } else {
        fs[0].total_len_spec() + features_len(fs.drop_first())
    }
}

/// All features in the sequence are well formed.
pub open spec fn features_wf(fs: Seq<FeatureDescriptor>) -> bool {
    forall|i: int| 0 <= i < fs.len() ==> fs[i].wf()
}

impl FunctionSubset {
    /// Exact encoded length in bytes: an 8-byte header followed by this
    /// subset's features.
    pub open spec fn total_len_spec(self) -> int {
        8 + features_len(self.features@)
    }

    /// The subset's features are well formed and its own encoded length fits
    /// the 16-bit wire field.
    pub open spec fn wf(self) -> bool {
        &&& features_wf(self.features@)
        &&& self.total_len_spec() <= 0xFFFF
    }
}

/// Sum of the encoded lengths of a sequence of function subsets.
pub open spec fn functions_len(fs: Seq<FunctionSubset>) -> int
    decreases fs.len(),
{
    if fs.len() == 0 {
        0
    } else {
        fs[0].total_len_spec() + functions_len(fs.drop_first())
    }
}

/// All function subsets in the sequence are well formed.
pub open spec fn functions_wf(fs: Seq<FunctionSubset>) -> bool {
    forall|i: int| 0 <= i < fs.len() ==> fs[i].wf()
}

impl ConfigurationSubset {
    /// Exact encoded length in bytes: an 8-byte header, this subset's own
    /// features, then its function subsets.
    pub open spec fn total_len_spec(self) -> int {
        8 + features_len(self.features@) + functions_len(self.functions@)
    }

    /// Children are well formed and the subset's own encoded length fits the
    /// 16-bit wire field.
    pub open spec fn wf(self) -> bool {
        &&& features_wf(self.features@)
        &&& functions_wf(self.functions@)
        &&& self.total_len_spec() <= 0xFFFF
    }
}

/// Sum of the encoded lengths of a sequence of configuration subsets.
pub open spec fn configurations_len(cs: Seq<ConfigurationSubset>) -> int
    decreases cs.len(),
{
    if cs.len() == 0 {
        0
    } else {
        cs[0].total_len_spec() + configurations_len(cs.drop_first())
    }
}

/// All configuration subsets in the sequence are well formed.
pub open spec fn configurations_wf(cs: Seq<ConfigurationSubset>) -> bool {
    forall|i: int| 0 <= i < cs.len() ==> cs[i].wf()
}

impl DescriptorSet {
    /// Exact encoded length in bytes: a 10-byte header, the device-level
    /// features, then the configuration subsets.
    pub open spec fn total_len_spec(self) -> int {
        10 + features_len(self.features@) + configurations_len(self.configurations@)
    }

    /// The version is at or above the floor, the children are well formed,
    /// and the total encoded length fits the 16-bit wire field.
    pub open spec fn wf(self) -> bool {
        &&& self.version.meets_minimal()
        &&& features_wf(self.features@)
        &&& configurations_wf(self.configurations@)
        &&& self.total_len_spec() <= 0xFFFF
    }
}

/// UTF-16 code units stored as little-endian byte pairs.
pub open spec fn utf16_le_bytes(units: Seq<u16>) -> Seq<u8>
    decreases units.len(),
{
    if units.len() == 0 {
        Seq::empty()
    } else {
        spec_le16(units[0]) + utf16_le_bytes(units.drop_first())
    }
}

impl FeatureDescriptor {
    /// The descriptor type code of this feature variant.
    pub open spec fn descriptor_type_spec(self) -> DescriptorType {
        match self {
            FeatureDescriptor::CompatibleId { .. } => DescriptorType::FeatureCompatbleId,
            FeatureDescriptor::RegistryProperty { .. } => DescriptorType::FeatureRegProperty,
            FeatureDescriptor::ResumeTime { .. } => DescriptorType::FeatureMinResumeTime,
            FeatureDescriptor::ModelId { .. } => DescriptorType::FeatureModelId,
            FeatureDescriptor::CcgpDevice => DescriptorType::FeatureCcgpDevice,
            FeatureDescriptor::VendorRevision { .. } => DescriptorType::FeatureVendorRevision,
        }
    }

    /// The variant payload, written verbatim after the 4-byte feature header.
    pub open spec fn payload_bytes_spec(self) -> Seq<u8> {
        match self {
            FeatureDescriptor::CompatibleId { id, sub_id } => id@ + sub_id@,
            FeatureDescriptor::RegistryProperty { data_type, name, data } => spec_le16(
                data_type.code_spec(),
            ) + spec_le16((2 * name@.len()) as u16) + utf16_le_bytes(name@) + spec_le16(
                data@.len() as u16,
            ) + data@,
            FeatureDescriptor::ResumeTime { recovery, signaling } => seq![recovery, signaling],
            FeatureDescriptor::ModelId { id } => id@,
            FeatureDescriptor::CcgpDevice => Seq::empty(),
            FeatureDescriptor::VendorRevision { revision } => spec_le16(revision),
        }
    }

    /// The complete encoding of this feature: 16-bit length, 16-bit type
    /// code, then the payload.
    pub open spec fn bytes_spec(self) -> Seq<u8> {
        spec_le16(self.total_len_spec() as u16) + spec_le16(self.descriptor_type_spec().code_spec())
            + self.payload_bytes_spec()
    }
}

/// Concatenated encodings of a sequence of feature descriptors, in declared
/// order.
pub open spec fn features_bytes(fs: Seq<FeatureDescriptor>) -> Seq<u8>
    decreases fs.len(),
{
    if fs.len() == 0 {
        Seq::empty()
    } else {
        fs[0].bytes_spec() + features_bytes(fs.drop_first())
    }
}

impl FunctionSubset {
    /// The complete encoding of this subset: the 8-byte function subset
    /// header, then its features.
    pub open spec fn bytes_spec(self) -> Seq<u8> {
        spec_le16(8) + spec_le16(DescriptorType::SubsetHeaderFunction.code_spec())
            + seq![self.first_interface, 0u8] + spec_le16(self.total_len_spec() as u16)
            + features_bytes(self.features@)
    }
}

/// Concatenated encodings of a sequence of function subsets, in declared
/// order.
pub open spec fn functions_bytes(fs: Seq<FunctionSubset>) -> Seq<u8>
    decreases fs.len(),
{
    if fs.len() == 0 {
        Seq::empty()
    } else {
        fs[0].bytes_spec() + functions_bytes(fs.drop_first())
    }
}

impl ConfigurationSubset {
    /// The complete encoding of this subset: the 8-byte configuration subset
    /// header, its own features, then its function subsets.
    pub open spec fn bytes_spec(self) -> Seq<u8> {
        spec_le16(8) + spec_le16(DescriptorType::SubsetHeaderConfiguration.code_spec())
            + seq![self.configuration, 0u8] + spec_le16(self.total_len_spec() as u16)
            + features_bytes(self.features@) + functions_bytes(self.functions@)
    }
}

/// Concatenated encodings of a sequence of configuration subsets, in
/// declared order.
pub open spec fn configurations_bytes(cs: Seq<ConfigurationSubset>) -> Seq<u8>
    decreases cs.len(),
{
    if cs.len() == 0 {
        Seq::empty()
    } else {
        cs[0].bytes_spec() + configurations_bytes(cs.drop_first())
    }
}

impl DescriptorSet {
    /// The complete encoding of this set: the 10-byte set header (header
    /// length, type code 0, 32-bit version, 16-bit total length), the
    /// device-level features, then the configuration subsets.
    pub open spec fn bytes_spec(self) -> Seq<u8> {
        spec_le16(10) + spec_le16(DescriptorType::SetHeaderDescriptor.code_spec()) + spec_le32(
            self.version.code_spec(),
        ) + spec_le16(self.total_len_spec() as u16) + features_bytes(self.features@)
            + configurations_bytes(self.configurations@)
    }
}

/// The fixed 16-byte platform identifier D8DD60DF-4589-4CC7-9CD2-659D9E648A9F,
/// encoded per the mixed-endian UUID field rules.
pub open spec fn platform_capability_id() -> Seq<u8> {
    seq![
        0xDFu8,
        0x60,
        0xDD,
        0xD8,
        0x89,
        0x45,
        0xC7,
        0x4C,
        0x9C,
        0xD2,
        0x65,
        0x9D,
        0x9E,
        0x64,
        0x8A,
        0x9F,
    ]
}

/// The 8-byte record advertising one descriptor set: 32-bit version, 16-bit
/// encoded length of the set, the entry's vendor code, and its alternate
/// enumeration command.
pub open spec fn capability_record(info: CapabilityInfo, vendor_code: int) -> Seq<u8> {
    spec_le32(info.descriptors.version.code_spec()) + spec_le16(
        info.descriptors.total_len_spec() as u16,
    ) + seq![vendor_code as u8, info.alt_enum_cmd]
}

/// Concatenated capability records, assigning `first_code` to the first
/// entry and consecutive vendor codes to the rest.
pub open spec fn capability_records(infos: Seq<CapabilityInfo>, first_code: int) -> Seq<u8>
    decreases infos.len(),
{
    if infos.len() == 0 {
        Seq::empty()
    } else {
        capability_record(infos[0], first_code) + capability_records(
            infos.drop_first(),
            first_code + 1,
        )
    }
}

impl Capabilities {
    /// The capability data handed to the discovery-channel writer: one
    /// reserved byte, the 16-byte platform identifier, then an 8-byte record
    /// per advertised descriptor set, with 1-based vendor codes.
    pub open spec fn data_bytes_spec(self) -> Seq<u8> {
        seq![0u8] + platform_capability_id() + capability_records(self.infos@, 1)
    }
}

impl Capabilities {
    /// Exact length of the whole platform capability descriptor: a 4-byte
    /// header plus the 16-byte platform identifier, then an 8-byte record per
    /// advertised descriptor set.
    pub open spec fn total_len_spec(self) -> int {
        20 + 8 * (self.infos@.len() as int)
    }

    /// Every referenced descriptor set is well formed and the block's length
    /// fits the 8-bit wire field.
    pub open spec fn wf(self) -> bool {
        &&& forall|i: int| 0 <= i < self.infos@.len() ==> self.infos@[i].descriptors.wf()
        &&& self.total_len_spec() <= 0xFF
    }

    /// The vendor code byte of the `i`-th capability record is `i + 1`: the
    /// record of each advertised descriptor set carries the 1-based position
    /// of its entry, the same value the discovery handler maps back to the
    /// 0-based buffer index.
    pub proof fn lemma_vendor_code_is_position(self, i: int)
        requires
            self.wf(),
            0 <= i < self.infos@.len(),
        ensures
            self.data_bytes_spec()[17 + 8 * i + 6] == i + 1,
    {
        lemma_capability_records_len(self.infos@, 1);
        lemma_capability_records_vendor_code(self.infos@, 1, i);
        assert(self.data_bytes_spec()[17 + 8 * i + 6] == capability_records(self.infos@, 1)[8 * i
            + 6]);
    }

    /// Maps an incoming discovery request's vendor code back to the 0-based
    /// index of the descriptor set it selects: vendor codes are assigned as
    /// the 1-based position of each capability entry, so code `i + 1` selects
    /// entry `i`, and code 0 selects nothing.
    pub fn vendor_code_to_descriptor_set(vendor_code: u8) -> (r: Option<usize>)
        ensures
            vendor_code == 0 ==> r is None,
            vendor_code >= 1 ==> r == Some((vendor_code - 1) as usize),
    {
        if vendor_code == 0 {
            None
        } else {
            Some((vendor_code - 1) as usize)
        }
    }
}

impl FeatureDescriptor {
    /// The descriptor type code of this feature variant.
    pub fn descriptor_type(&self) -> (t: DescriptorType)
        ensures
            t == self.descriptor_type_spec(),
    {
        match self {
            FeatureDescriptor::CompatibleId { .. } => DescriptorType::FeatureCompatbleId,
            FeatureDescriptor::RegistryProperty { .. } => DescriptorType::FeatureRegProperty,
            FeatureDescriptor::ResumeTime { .. } => DescriptorType::FeatureMinResumeTime,
            FeatureDescriptor::ModelId { .. } => DescriptorType::FeatureModelId,
            FeatureDescriptor::CcgpDevice => DescriptorType::FeatureCcgpDevice,
            FeatureDescriptor::VendorRevision { .. } => DescriptorType::FeatureVendorRevision,
        }
    }

    /// Exact encoded length of this feature, as carried in its wLength field.
    pub fn total_len(&self) -> (r: u16)
        requires
            self.wf(),
        ensures
            r == self.total_len_spec(),
    {
        match self {
            FeatureDescriptor::CompatibleId { .. } => 20,
            FeatureDescriptor::RegistryProperty { name, data, .. } => {
                let name_bytes: usize = 2 * name.len();
                let total: usize = 10 + name_bytes + data.len();
                total as u16
            },
            FeatureDescriptor::ResumeTime { .. } => 6,
            FeatureDescriptor::ModelId { .. } => 20,
            FeatureDescriptor::CcgpDevice => 4,
            FeatureDescriptor::VendorRevision { .. } => 6,
        }
    }

    /// Get total size of the descriptor.
    pub fn size(&self) -> (r: usize)
        requires
            self.wf(),
        ensures
            r == self.total_len_spec(),
    {
        self.total_len() as usize
    }

    /// Runtime check of the construction invariant: the encoded length fits
    /// the 16-bit wire field.
    pub fn well_formed(&self) -> (r: bool)
        ensures
            r == self.wf(),
    {
        match self {
            FeatureDescriptor::RegistryProperty { name, data, .. } => {
                if name.len() > 0x7FFF {
                    return false;
                }
                if data.len() > 0xFFFF {
                    return false;
                }
                10 + 2 * name.len() + data.len() <= 0xFFFF
            },
            _ => true,
        }
    }
}

/// Sum of the encoded lengths of the given features, which the caller has
/// already bounded by the 16-bit field.
fn features_total_len(fs: &Vec<FeatureDescriptor>) -> (r: u16)
    requires
        features_wf(fs@),
        features_len(fs@) <= 0xFFFF,
    ensures
        r == features_len(fs@),
{
    let n = fs.len();
    let mut sum: u16 = 0;
    let mut i: usize = 0;
    assert(fs@.take(0) =~= Seq::<FeatureDescriptor>::empty());
    while i < n
        invariant
            i <= n,
            n == fs@.len(),
            features_wf(fs@),
            features_len(fs@) <= 0xFFFF,
            sum == features_len(fs@.take(i as int)),
        decreases n - i,
    {
        proof {
            assert(fs@.take(i + 1) =~= fs@.take(i as int).push(fs@[i as int]));
            lemma_features_snoc(fs@.take(i as int), fs@[i as int]);
            lemma_features_len_take_bound(fs@, i + 1);
            assert(fs@[i as int].wf());
        }
        let fl = fs[i].total_len();
        sum = sum + fl;
        i = i + 1;
    }
    assert(fs@.take(n as int) =~= fs@);
    sum
}

/// Sum of the encoded lengths of the given features, or `None` where the sum
/// exceeds the 16-bit wire field.
fn features_total_len_checked(fs: &Vec<FeatureDescriptor>) -> (r: Option<u16>)
    requires
        features_wf(fs@),
    ensures
        match r {
            Some(v) => v == features_len(fs@) && features_len(fs@) <= 0xFFFF,
            None => features_len(fs@) > 0xFFFF,
        },
{
    let n = fs.len();
    let mut sum: u16 = 0;
    let mut i: usize = 0;
    assert(fs@.take(0) =~= Seq::<FeatureDescriptor>::empty());
    while i < n
        invariant
            i <= n,
            n == fs@.len(),
            features_wf(fs@),
            sum == features_len(fs@.take(i as int)),
        decreases n - i,
    {
        proof {
            assert(fs@.take(i + 1) =~= fs@.take(i as int).push(fs@[i as int]));
            lemma_features_snoc(fs@.take(i as int), fs@[i as int]);
            lemma_features_len_take_bound(fs@, i + 1);
            assert(fs@[i as int].wf());
        }
        let fl = fs[i].total_len();
        if fl > 0xFFFF - sum {
            proof {
                lemma_features_len_nonneg(fs@.skip(i + 1));
                assert(fs@ =~= fs@.take(i + 1) + fs@.skip(i + 1));
                lemma_features_len_app(fs@.take(i + 1), fs@.skip(i + 1));
            }
            return None;
        }
        sum = sum + fl;
        i = i + 1;
    }
    assert(fs@.take(n as int) =~= fs@);
    Some(sum)
}

/// All of the given features satisfy their construction invariant.
fn features_well_formed(fs: &Vec<FeatureDescriptor>) -> (r: bool)
    ensures
        r == features_wf(fs@),
{
    let n = fs.len();
    let mut i: usize = 0;
    while i < n
        invariant
            i <= n,
            n == fs@.len(),
            forall|j: int| 0 <= j < i ==> fs@[j].wf(),
        decreases n - i,
    {
        if !fs[i].well_formed() {
            return false;
        }
        i = i + 1;
    }
    true
}

impl FunctionSubset {
    /// Exact encoded length of this subset, as carried in its wSubsetLength
    /// field.
    pub fn total_len(&self) -> (r: u16)
        requires
            self.wf(),
        ensures
            r == self.total_len_spec(),
    {
        8 + features_total_len(&self.features)
    }

    /// Get total size of the descriptor.
    pub fn size(&self) -> (r: usize)
        requires
            self.wf(),
        ensures
            r == self.total_len_spec(),
    {
        self.total_len() as usize
    }

    /// Runtime check of the construction invariant.
    pub fn well_formed(&self) -> (r: bool)
        ensures
            r == self.wf(),
    {
        if !features_well_formed(&self.features) {
            return false;
        }
        match features_total_len_checked(&self.features) {
            Some(v) => v <= 0xFFF7,
            None => false,
        }
    }
}

/// Sum of the encoded lengths of the given function subsets, which the
/// caller has already bounded by the 16-bit field.
fn functions_total_len(fs: &Vec<FunctionSubset>) -> (r: u16)
    requires
        functions_wf(fs@),
        functions_len(fs@) <= 0xFFFF,
    ensures
        r == functions_len(fs@),
{
    let n = fs.len();
    let mut sum: u16 = 0;
    let mut i: usize = 0;
    assert(fs@.take(0) =~= Seq::<FunctionSubset>::empty());
    while i < n
        invariant
            i <= n,
            n == fs@.len(),
            functions_wf(fs@),
            functions_len(fs@) <= 0xFFFF,
            sum == functions_len(fs@.take(i as int)),
        decreases n - i,
    {
        proof {
            assert(fs@.take(i + 1) =~= fs@.take(i as int).push(fs@[i as int]));
            lemma_functions_snoc(fs@.take(i as int), fs@[i as int]);
            lemma_functions_len_take_bound(fs@, i + 1);
            assert(fs@[i as int].wf());
        }
        let fl = fs[i].total_len();
        sum = sum + fl;
        i = i + 1;
    }
    assert(fs@.take(n as int) =~= fs@);
    sum
}

/// Sum of the encoded lengths of the given function subsets, or `None`
/// where the sum exceeds the 16-bit wire field.
fn functions_total_len_checked(fs: &Vec<FunctionSubset>) -> (r: Option<u16>)
    requires
        functions_wf(fs@),
    ensures
        match r {
            Some(v) => v == functions_len(fs@) && functions_len(fs@) <= 0xFFFF,
            None => functions_len(fs@) > 0xFFFF,
        },
{
    let n = fs.len();
    let mut sum: u16 = 0;
    let mut i: usize = 0;
    assert(fs@.take(0) =~= Seq::<FunctionSubset>::empty());
    while i < n
        invariant
            i <= n,
            n == fs@.len(),
            functions_wf(fs@),
            sum == functions_len(fs@.take(i as int)),
        decreases n - i,
    {
        proof {
            assert(fs@.take(i + 1) =~= fs@.take(i as int).push(fs@[i as int]));
            lemma_functions_snoc(fs@.take(i as int), fs@[i as int]);
            lemma_functions_len_take_bound(fs@, i + 1);
            assert(fs@[i as int].wf());
        }
        let fl = fs[i].total_len();
        if fl > 0xFFFF - sum {
            proof {
                lemma_functions_len_nonneg(fs@.skip(i + 1));
                assert(fs@ =~= fs@.take(i + 1) + fs@.skip(i + 1));
                lemma_functions_len_app(fs@.take(i + 1), fs@.skip(i + 1));
            }
            return None;
        }
        sum = sum + fl;
        i = i + 1;
    }
    assert(fs@.take(n as int) =~= fs@);
    Some(sum)
}

/// All of the given function subsets satisfy their construction invariant.
fn functions_well_formed(fs: &Vec<FunctionSubset>) -> (r: bool)
    ensures
        r == functions_wf(fs@),
{
    let n = fs.len();
    let mut i: usize = 0;
    while i < n
        invariant
            i <= n,
            n == fs@.len(),
            forall|j: int| 0 <= j < i ==> fs@[j].wf(),
        decreases n - i,
    {
        if !fs[i].well_formed() {
            return false;
        }
        i = i + 1;
    }
    true
}

impl ConfigurationSubset {
    /// Exact encoded length of this subset, as carried in its wTotalLength
    /// field.
    pub fn total_len(&self) -> (r: u16)
        requires
            self.wf(),
        ensures
            r == self.total_len_spec(),
    {
        proof {
            lemma_features_len_nonneg(self.features@);
            lemma_functions_len_nonneg(self.functions@);
        }
        8 + features_total_len(&self.features) + functions_total_len(&self.functions)
    }

    /// Get total size of the descriptor.
    pub fn size(&self) -> (r: usize)
        requires
            self.wf(),
        ensures
            r == self.total_len_spec(),
    {
        self.total_len() as usize
    }

    /// Runtime check of the construction invariant.
    pub fn well_formed(&self) -> (r: bool)
        ensures
            r == self.wf(),
    {
        if !features_well_formed(&self.features) {
            return false;
        }
        if !functions_well_formed(&self.functions) {
            return false;
        }
        let f = match features_total_len_checked(&self.features) {
            Some(v) => v,
            None => {
                proof {
                    lemma_functions_len_nonneg(self.functions@);
                }
                return false;
            },
        };
        let g = match functions_total_len_checked(&self.functions) {
            Some(v) => v,
            None => {
                proof {
                    lemma_features_len_nonneg(self.features@);
                }
                return false;
            },
        };
        8 + f as u32 + g as u32 <= 0xFFFF
    }
}

/// Sum of the encoded lengths of the given configuration subsets, which the
/// caller has already bounded by the 16-bit field.
fn configurations_total_len(cs: &Vec<ConfigurationSubset>) -> (r: u16)
    requires
        configurations_wf(cs@),
        configurations_len(cs@) <= 0xFFFF,
    ensures
        r == configurations_len(cs@),
{
    let n = cs.len();
    let mut sum: u16 = 0;
    let mut i: usize = 0;
    assert(cs@.take(0) =~= Seq::<ConfigurationSubset>::empty());
    while i < n
        invariant
            i <= n,
            n == cs@.len(),
            configurations_wf(cs@),
            configurations_len(cs@) <= 0xFFFF,
            sum == configurations_len(cs@.take(i as int)),
        decreases n - i,
    {
        proof {
            assert(cs@.take(i + 1) =~= cs@.take(i as int).push(cs@[i as int]));
            lemma_configurations_snoc(cs@.take(i as int), cs@[i as int]);
            lemma_configurations_len_take_bound(cs@, i + 1);
            assert(cs@[i as int].wf());
        }
        let cl = cs[i].total_len();
        sum = sum + cl;
        i = i + 1;
    }
    assert(cs@.take(n as int) =~= cs@);
    sum
}

/// Sum of the encoded lengths of the given configuration subsets, or `None`
/// where the sum exceeds the 16-bit wire field.
fn configurations_total_len_checked(cs: &Vec<ConfigurationSubset>) -> (r: Option<u16>)
    requires
        configurations_wf(cs@),
    ensures
        match r {
            Some(v) => v == configurations_len(cs@) && configurations_len(cs@) <= 0xFFFF,
            None => configurations_len(cs@) > 0xFFFF,
        },
{
    let n = cs.len();
    let mut sum: u16 = 0;
    let mut i: usize = 0;
    assert(cs@.take(0) =~= Seq::<ConfigurationSubset>::empty());
    while i < n
        invariant
            i <= n,
            n == cs@.len(),
            configurations_wf(cs@),
            sum == configurations_len(cs@.take(i as int)),
        decreases n - i,
    {
        proof {
            assert(cs@.take(i + 1) =~= cs@.take(i as int).push(cs@[i as int]));
            lemma_configurations_snoc(cs@.take(i as int), cs@[i as int]);
            lemma_configurations_len_take_bound(cs@, i + 1);
            assert(cs@[i as int].wf());
        }
        let cl = cs[i].total_len();
        if cl > 0xFFFF - sum {
            proof {
                lemma_configurations_len_nonneg(cs@.skip(i + 1));
                assert(cs@ =~= cs@.take(i + 1) + cs@.skip(i + 1));
                lemma_configurations_len_app(cs@.take(i + 1), cs@.skip(i + 1));
            }
            return None;
        }
        sum = sum + cl;
        i = i + 1;
    }
    assert(cs@.take(n as int) =~= cs@);
    Some(sum)
}

/// All of the given configuration subsets satisfy their construction
/// invariant.
fn configurations_well_formed(cs: &Vec<ConfigurationSubset>) -> (r: bool)
    ensures
        r == configurations_wf(cs@),
{
    let n = cs.len();
    let mut i: usize = 0;
    while i < n
        invariant
            i <= n,
            n == cs@.len(),
            forall|j: int| 0 <= j < i ==> cs@[j].wf(),
        decreases n - i,
    {
        if !cs[i].well_formed() {
            return false;
        }
        i = i + 1;
    }
    true
}

impl DescriptorSet {
    /// Exact encoded length of the whole set, as carried in the header's
    /// wTotalLength field.
    pub fn total_len(&self) -> (r: u16)
        requires
            self.wf(),
        ensures
            r == self.total_len_spec(),
    {
        proof {
            lemma_features_len_nonneg(self.features@);
            lemma_configurations_len_nonneg(self.configurations@);
        }
        10 + features_total_len(&self.features) + configurations_total_len(&self.configurations)
    }

    /// Get total size of the descriptor.
    pub fn size(&self) -> (r: usize)
        requires
            self.wf(),
        ensures
            r == self.total_len_spec(),
    {
        self.total_len() as usize
    }

    /// Runtime check of the construction invariant: the version is at or
    /// above the floor, every nested entity is well formed, and the total
    /// encoded length fits the 16-bit wire field.
    pub fn well_formed(&self) -> (r: bool)
        ensures
            r == self.wf(),
    {
        if !self.version.check_minimal() {
            return false;
        }
        if !features_well_formed(&self.features) {
            return false;
        }
        if !configurations_well_formed(&self.configurations) {
            return false;
        }
        let f = match features_total_len_checked(&self.features) {
            Some(v) => v,
            None => {
                proof {
                    lemma_configurations_len_nonneg(self.configurations@);
                }
                return false;
            },
        };
        let g = match configurations_total_len_checked(&self.configurations) {
            Some(v) => v,
            None => {
                proof {
                    lemma_features_len_nonneg(self.features@);
                }
                return false;
            },
        };
        10 + f as u32 + g as u32 <= 0xFFFF
    }
}

/// Relies on usb-device's `descriptor::capability_type::PLATFORM` constant:
/// the standard BOS platform-capability type code, 5.
#[verifier::external_body]
fn platform_capability_type() -> (r: u8)
    ensures
        r == 5,
{
    usb_device::descriptor::capability_type::PLATFORM
}

impl Capabilities {
    /// The capability type code under which the encoded data is handed to
    /// the host stack's BOS capability writer.
    pub fn capability_type() -> (r: u8)
        ensures
            r == 5,
    {
        platform_capability_type()
    }

    /// Exact length of the whole platform capability descriptor, as carried
    /// in its bLength field.
    pub fn total_len(&self) -> (r: u8)
        requires
            self.wf(),
        ensures
            r == self.total_len_spec(),
    {
        (20 + 8 * self.infos.len()) as u8
    }

    /// Size of the capability data handed to the discovery-channel writer:
    /// the block's total length minus the 3 leading bytes the writer itself
    /// supplies.
    pub fn data_len(&self) -> (r: usize)
        requires
            self.wf(),
        ensures
            r == self.total_len_spec() - 3,
    {
        (self.total_len() - 3) as usize
    }

    /// Runtime check of the construction invariant: every referenced
    /// descriptor set is well formed and the block's length fits the 8-bit
    /// wire field.
    pub fn well_formed(&self) -> (r: bool)
        ensures
            r == self.wf(),
    {
        if self.infos.len() > 29 {
            return false;
        }
        let n = self.infos.len();
        let mut i: usize = 0;
        while i < n
            invariant
                i <= n,
                n == self.infos@.len(),
                forall|j: int| 0 <= j < i ==> self.infos@[j].descriptors.wf(),
            decreases n - i,
        {
            if !self.infos[i].descriptors.well_formed() {
                return false;
            }
            i = i + 1;
        }
        true
    }
}

proof fn lemma_utf16_snoc(s: Seq<u16>, u: u16)
    ensures
        utf16_le_bytes(s.push(u)) == utf16_le_bytes(s) + spec_le16(u),
    decreases s.len(),
{
    if s.len() == 0 {
        assert(s.push(u).drop_first() =~= Seq::<u16>::empty());
        assert(s.push(u)[0] == u);
        assert(s =~= Seq::<u16>::empty());
        assert(utf16_le_bytes(Seq::<u16>::empty()) == Seq::<u8>::empty());
        assert(utf16_le_bytes(s.push(u)) =~= utf16_le_bytes(s) + spec_le16(u));
    } else {
        assert(s.push(u).drop_first() =~= s.drop_first().push(u));
        lemma_utf16_snoc(s.drop_first(), u);
        assert(utf16_le_bytes(s.push(u)) =~= utf16_le_bytes(s) + spec_le16(u));
    }
}

/// Appends UTF-16 code units as little-endian byte pairs.
fn push_utf16(buf: &mut Vec<u8>, units: &Vec<u16>)
    ensures
        final(buf)@ == old(buf)@ + utf16_le_bytes(units@),
{
    let n = units.len();
    let mut i: usize = 0;
    assert(units@.take(0) =~= Seq::<u16>::empty());
    assert(buf@ =~= old(buf)@ + utf16_le_bytes(units@.take(0)));
    while i < n
        invariant
            i <= n,
            n == units@.len(),
            buf@ == old(buf)@ + utf16_le_bytes(units@.take(i as int)),
        decreases n - i,
    {
        push_le16(buf, units[i]);
        proof {
            assert(units@.take(i + 1) =~= units@.take(i as int).push(units@[i as int]));
            lemma_utf16_snoc(units@.take(i as int), units@[i as int]);
            assert(buf@ =~= old(buf)@ + utf16_le_bytes(units@.take(i + 1)));
        }
        i = i + 1;
    }
    assert(units@.take(n as int) =~= units@);
}

/// Writes one feature descriptor: 16-bit length, 16-bit type code, then the
/// variant payload verbatim.
fn encode_feature(f: &FeatureDescriptor, buf: &mut Vec<u8>)
    requires
        f.wf(),
    ensures
        final(buf)@ == old(buf)@ + f.bytes_spec(),
{
    let total = f.total_len();
    push_le16(buf, total);
    let dt = f.descriptor_type();
    push_le16(buf, dt.code());
    match f {
        FeatureDescriptor::CompatibleId { id, sub_id } => {
            push_bytes(buf, vstd::array::array_as_slice(id));
            push_bytes(buf, vstd::array::array_as_slice(sub_id));
        },
        FeatureDescriptor::RegistryProperty { data_type, name, data } => {
            push_le16(buf, data_type.code());
            let name_bytes: usize = 2 * name.len();
            push_le16(buf, name_bytes as u16);
            push_utf16(buf, name);
            push_le16(buf, data.len() as u16);
            push_bytes(buf, data.as_slice());
        },
        FeatureDescriptor::ResumeTime { recovery, signaling } => {
            buf.push(*recovery);
            buf.push(*signaling);
        },
        FeatureDescriptor::ModelId { id } => {
            push_bytes(buf, vstd::array::array_as_slice(id));
        },
        FeatureDescriptor::CcgpDevice => {},
        FeatureDescriptor::VendorRevision { revision } => {
            push_le16(buf, *revision);
        },
    }
    assert(buf@ =~= old(buf)@ + f.bytes_spec());
}

/// Writes a sequence of feature descriptors in declared order.
fn encode_features(fs: &Vec<FeatureDescriptor>, buf: &mut Vec<u8>)
    requires
        features_wf(fs@),
    ensures
        final(buf)@ == old(buf)@ + features_bytes(fs@),
{
    let n = fs.len();
    let mut i: usize = 0;
    assert(fs@.take(0) =~= Seq::<FeatureDescriptor>::empty());
    assert(buf@ =~= old(buf)@ + features_bytes(fs@.take(0)));
    while i < n
        invariant
            i <= n,
            n == fs@.len(),
            features_wf(fs@),
            buf@ == old(buf)@ + features_bytes(fs@.take(i as int)),
        decreases n - i,
    {
        assert(fs@[i as int].wf());
        encode_feature(&fs[i], buf);
        proof {
            assert(fs@.take(i + 1) =~= fs@.take(i as int).push(fs@[i as int]));
            lemma_features_snoc(fs@.take(i as int), fs@[i as int]);
            assert(buf@ =~= old(buf)@ + features_bytes(fs@.take(i + 1)));
        }
        i = i + 1;
    }
    assert(fs@.take(n as int) =~= fs@);
}

/// Writes one function subset: its 8-byte header, then its features.
fn encode_function(f: &FunctionSubset, buf: &mut Vec<u8>)
    requires
        f.wf(),
    ensures
        final(buf)@ == old(buf)@ + f.bytes_spec(),
{
    push_le16(buf, 8);
    push_le16(buf, DescriptorType::SubsetHeaderFunction.code());
    buf.push(f.first_interface);
    buf.push(0);
    push_le16(buf, f.total_len());
    encode_features(&f.features, buf);
    assert(buf@ =~= old(buf)@ + f.bytes_spec());
}

/// Writes a sequence of function subsets in declared order.
fn encode_functions(fs: &Vec<FunctionSubset>, buf: &mut Vec<u8>)
    requires
        functions_wf(fs@),
    ensures
        final(buf)@ == old(buf)@ + functions_bytes(fs@),
{
    let n = fs.len();
    let mut i: usize = 0;
    assert(fs@.take(0) =~= Seq::<FunctionSubset>::empty());
    assert(buf@ =~= old(buf)@ + functions_bytes(fs@.take(0)));
    while i < n
        invariant
            i <= n,
            n == fs@.len(),
            functions_wf(fs@),
            buf@ == old(buf)@ + functions_bytes(fs@.take(i as int)),
        decreases n - i,
    {
        assert(fs@[i as int].wf());
        encode_function(&fs[i], buf);
        proof {
            assert(fs@.take(i + 1) =~= fs@.take(i as int).push(fs@[i as int]));
            lemma_functions_snoc(fs@.take(i as int), fs@[i as int]);
            assert(buf@ =~= old(buf)@ + functions_bytes(fs@.take(i + 1)));
        }
        i = i + 1;
    }
    assert(fs@.take(n as int) =~= fs@);
}

/// Writes one configuration subset: its 8-byte header, its own features,
/// then its function subsets.
fn encode_configuration(c: &ConfigurationSubset, buf: &mut Vec<u8>)
    requires
        c.wf(),
    ensures
        final(buf)@ == old(buf)@ + c.bytes_spec(),
{
    push_le16(buf, 8);
    push_le16(buf, DescriptorType::SubsetHeaderConfiguration.code());
    buf.push(c.configuration);
    buf.push(0);
    push_le16(buf, c.total_len());
    encode_features(&c.features, buf);
    encode_functions(&c.functions, buf);
    assert(buf@ =~= old(buf)@ + c.bytes_spec());
}

/// Writes a sequence of configuration subsets in declared order.
fn encode_configurations(cs: &Vec<ConfigurationSubset>, buf: &mut Vec<u8>)
    requires
        configurations_wf(cs@),
    ensures
        final(buf)@ == old(buf)@ + configurations_bytes(cs@),
{
    let n = cs.len();
    let mut i: usize = 0;
    assert(cs@.take(0) =~= Seq::<ConfigurationSubset>::empty());
    assert(buf@ =~= old(buf)@ + configurations_bytes(cs@.take(0)));
    while i < n
        invariant
            i <= n,
            n == cs@.len(),
            configurations_wf(cs@),
            buf@ == old(buf)@ + configurations_bytes(cs@.take(i as int)),
        decreases n - i,
    {
        assert(cs@[i as int].wf());
        encode_configuration(&cs[i], buf);
        proof {
            assert(cs@.take(i + 1) =~= cs@.take(i as int).push(cs@[i as int]));
            lemma_configurations_snoc(cs@.take(i as int), cs@[i as int]);
            assert(buf@ =~= old(buf)@ + configurations_bytes(cs@.take(i + 1)));
        }
        i = i + 1;
    }
    assert(cs@.take(n as int) =~= cs@);
}

impl FeatureDescriptor {
    /// Encodes this feature on its own, producing exactly `size()` bytes in
    /// the published layout.
    pub fn descriptor(&self) -> (r: Vec<u8>)
        requires
            self.wf(),
        ensures
            r@ == self.bytes_spec(),
            r@.len() == self.total_len_spec(),
    {
        let mut buf: Vec<u8> = Vec::new();
        encode_feature(self, &mut buf);
        proof {
            lemma_feature_size_encode_agreement(*self);
            assert(buf@ =~= self.bytes_spec());
        }
        buf
    }
}

impl DescriptorSet {
    /// Encodes the whole descriptor set, producing exactly `size()` bytes:
    /// the 10-byte set header, the device-level features in declared order,
    /// then each configuration subset in declared order.
    pub fn descriptor(&self) -> (r: Vec<u8>)
        requires
            self.wf(),
        ensures
            r@ == self.bytes_spec(),
            r@.len() == self.total_len_spec(),
    {
        let mut buf: Vec<u8> = Vec::new();
        push_le16(&mut buf, 10);
        push_le16(&mut buf, DescriptorType::SetHeaderDescriptor.code());
        push_le32(&mut buf, self.version.code());
        push_le16(&mut buf, self.total_len());
        encode_features(&self.features, &mut buf);
        encode_configurations(&self.configurations, &mut buf);
        proof {
            assert(buf@ =~= self.bytes_spec());
            lemma_set_size_encode_agreement(*self);
        }
        buf
    }
}

impl Capabilities {
    /// Encodes the capability data handed to the discovery-channel writer:
    /// one reserved byte, the 16-byte platform identifier, then an 8-byte
    /// record per advertised descriptor set carrying its version, encoded
    /// length, 1-based vendor code and alternate-enumeration command.
    pub fn descriptor_data(&self) -> (r: Vec<u8>)
        requires
            self.wf(),
        ensures
            r@ == self.data_bytes_spec(),
            r@.len() == self.total_len_spec() - 3,
    {
        let mut buf: Vec<u8> = Vec::new();
        buf.push(0);
        let cap_id: [u8; 16] = [
            0xDF,
            0x60,
            0xDD,
            0xD8,
            0x89,
            0x45,
            0xC7,
            0x4C,
            0x9C,
            0xD2,
            0x65,
            0x9D,
            0x9E,
            0x64,
            0x8A,
            0x9F,
        ];
        push_bytes(&mut buf, vstd::array::array_as_slice(&cap_id));
        proof {
            assert(cap_id@ =~= platform_capability_id());
            assert(self.infos@.take(0) =~= Seq::<CapabilityInfo>::empty());
            assert(buf@ =~= seq![0u8] + platform_capability_id() + capability_records(
                self.infos@.take(0),
                1,
            ));
        }
        let n = self.infos.len();
        let mut i: usize = 0;
        while i < n
            invariant
                i <= n,
                n == self.infos@.len(),
                self.wf(),
                buf@ == seq![0u8] + platform_capability_id() + capability_records(
                    self.infos@.take(i as int),
                    1,
                ),
            decreases n - i,
        {
            assert(self.infos@[i as int].descriptors.wf());
            let info = &self.infos[i];
            push_le32(&mut buf, info.descriptors.version.code());
            push_le16(&mut buf, info.descriptors.total_len());
            buf.push((i + 1) as u8);
            buf.push(info.alt_enum_cmd);
            proof {
                assert(self.infos@.take(i + 1) =~= self.infos@.take(i as int).push(
                    self.infos@[i as int],
                ));
                lemma_capability_records_snoc(self.infos@.take(i as int), self.infos@[i as int], 1);
                assert(buf@ =~= seq![0u8] + platform_capability_id() + capability_records(
                    self.infos@.take(i + 1),
                    1,
                ));
            }
            i = i + 1;
        }
        proof {
            assert(self.infos@.take(n as int) =~= self.infos@);
            lemma_capabilities_size_encode_agreement(*self);
        }
        buf
    }
}

proof fn lemma_features_len_nonneg(fs: Seq<FeatureDescriptor>)
    ensures
        features_len(fs) >= 0,
    decreases fs.len(),
{
    if fs.len() > 0 {
        lemma_features_len_nonneg(fs.drop_first());
    }
}

proof fn lemma_features_len_app(s: Seq<FeatureDescriptor>, t: Seq<FeatureDescriptor>)
    ensures
        features_len(s + t) == features_len(s) + features_len(t),
    decreases s.len(),
{
    if s.len() == 0 {
        assert(s + t =~= t);
    } else {
        assert((s + t).drop_first() =~= s.drop_first() + t);
        lemma_features_len_app(s.drop_first(), t);
    }
}

proof fn lemma_features_bytes_app(s: Seq<FeatureDescriptor>, t: Seq<FeatureDescriptor>)
    ensures
        features_bytes(s + t) == features_bytes(s) + features_bytes(t),
    decreases s.len(),
{
    if s.len() == 0 {
        assert(s + t =~= t);
        assert(features_bytes(s) + features_bytes(t) =~= features_bytes(t));
    } else {
        assert((s + t).drop_first() =~= s.drop_first() + t);
        lemma_features_bytes_app(s.drop_first(), t);
        assert(features_bytes(s + t) =~= features_bytes(s) + features_bytes(t));
    }
}

proof fn lemma_features_singleton(f: FeatureDescriptor)
    ensures
        features_bytes(seq![f]) == f.bytes_spec(),
        features_len(seq![f]) == f.total_len_spec(),
{
    assert(seq![f].drop_first() =~= Seq::<FeatureDescriptor>::empty());
    assert(features_len(Seq::<FeatureDescriptor>::empty()) == 0);
    assert(features_bytes(Seq::<FeatureDescriptor>::empty()) == Seq::<u8>::empty());
    assert(features_bytes(seq![f]) =~= f.bytes_spec());
}

proof fn lemma_features_snoc(s: Seq<FeatureDescriptor>, f: FeatureDescriptor)
    ensures
        features_bytes(s.push(f)) == features_bytes(s) + f.bytes_spec(),
        features_len(s.push(f)) == features_len(s) + f.total_len_spec(),
{
    assert(s.push(f) =~= s + seq![f]);
    lemma_features_bytes_app(s, seq![f]);
    lemma_features_len_app(s, seq![f]);
    lemma_features_singleton(f);
}

proof fn lemma_features_len_take_bound(s: Seq<FeatureDescriptor>, j: int)
    requires
        0 <= j <= s.len(),
    ensures
        features_len(s.take(j)) <= features_len(s),
{
    assert(s =~= s.take(j) + s.skip(j));
    lemma_features_len_app(s.take(j), s.skip(j));
    lemma_features_len_nonneg(s.skip(j));
}

proof fn lemma_functions_len_nonneg(fs: Seq<FunctionSubset>)
    ensures
        functions_len(fs) >= 0,
    decreases fs.len(),
{
    if fs.len() > 0 {
        lemma_features_len_nonneg(fs[0].features@);
        lemma_functions_len_nonneg(fs.drop_first());
    }
}

proof fn lemma_functions_len_app(s: Seq<FunctionSubset>, t: Seq<FunctionSubset>)
    ensures
        functions_len(s + t) == functions_len(s) + functions_len(t),
    decreases s.len(),
{
    if s.len() == 0 {
        assert(s + t =~= t);
    } else {
        assert((s + t).drop_first() =~= s.drop_first() + t);
        lemma_functions_len_app(s.drop_first(), t);
    }
}

proof fn lemma_functions_bytes_app(s: Seq<FunctionSubset>, t: Seq<FunctionSubset>)
    ensures
        functions_bytes(s + t) == functions_bytes(s) + functions_bytes(t),
    decreases s.len(),
{
    if s.len() == 0 {
        assert(s + t =~= t);
        assert(functions_bytes(s) + functions_bytes(t) =~= functions_bytes(t));
    } else {
        assert((s + t).drop_first() =~= s.drop_first() + t);
        lemma_functions_bytes_app(s.drop_first(), t);
        assert(functions_bytes(s + t) =~= functions_bytes(s) + functions_bytes(t));
    }
}

proof fn lemma_functions_snoc(s: Seq<FunctionSubset>, f: FunctionSubset)
    ensures
        functions_bytes(s.push(f)) == functions_bytes(s) + f.bytes_spec(),
        functions_len(s.push(f)) == functions_len(s) + f.total_len_spec(),
{
    assert(s.push(f) =~= s + seq![f]);
    lemma_functions_bytes_app(s, seq![f]);
    lemma_functions_len_app(s, seq![f]);
    assert(seq![f].drop_first() =~= Seq::<FunctionSubset>::empty());
    assert(functions_len(Seq::<FunctionSubset>::empty()) == 0);
    assert(functions_bytes(Seq::<FunctionSubset>::empty()) == Seq::<u8>::empty());
    assert(functions_bytes(seq![f]) =~= f.bytes_spec());
}

proof fn lemma_functions_len_take_bound(s: Seq<FunctionSubset>, j: int)
    requires
        0 <= j <= s.len(),
    ensures
        functions_len(s.take(j)) <= functions_len(s),
{
    assert(s =~= s.take(j) + s.skip(j));
    lemma_functions_len_app(s.take(j), s.skip(j));
    lemma_functions_len_nonneg(s.skip(j));
}

proof fn lemma_configurations_len_nonneg(cs: Seq<ConfigurationSubset>)
    ensures
        configurations_len(cs) >= 0,
    decreases cs.len(),
{
    if cs.len() > 0 {
        lemma_features_len_nonneg(cs[0].features@);
        lemma_functions_len_nonneg(cs[0].functions@);
        lemma_configurations_len_nonneg(cs.drop_first());
    }
}

proof fn lemma_configurations_len_app(s: Seq<ConfigurationSubset>, t: Seq<ConfigurationSubset>)
    ensures
        configurations_len(s + t) == configurations_len(s) + configurations_len(t),
    decreases s.len(),
{
    if s.len() == 0 {
        assert(s + t =~= t);
    } else {
        assert((s + t).drop_first() =~= s.drop_first() + t);
        lemma_configurations_len_app(s.drop_first(), t);
    }
}

proof fn lemma_configurations_bytes_app(s: Seq<ConfigurationSubset>, t: Seq<ConfigurationSubset>)
    ensures
        configurations_bytes(s + t) == configurations_bytes(s) + configurations_bytes(t),
    decreases s.len(),
{
    if s.len() == 0 {
        assert(s + t =~= t);
        assert(configurations_bytes(s) + configurations_bytes(t) =~= configurations_bytes(t));
    } else {
        assert((s + t).drop_first() =~= s.drop_first() + t);
        lemma_configurations_bytes_app(s.drop_first(), t);
        assert(configurations_bytes(s + t) =~= configurations_bytes(s) + configurations_bytes(t));
    }
}

proof fn lemma_configurations_snoc(s: Seq<ConfigurationSubset>, c: ConfigurationSubset)
    ensures
        configurations_bytes(s.push(c)) == configurations_bytes(s) + c.bytes_spec(),
        configurations_len(s.push(c)) == configurations_len(s) + c.total_len_spec(),
{
    assert(s.push(c) =~= s + seq![c]);
    lemma_configurations_bytes_app(s, seq![c]);
    lemma_configurations_len_app(s, seq![c]);
    assert(seq![c].drop_first() =~= Seq::<ConfigurationSubset>::empty());
    assert(configurations_len(Seq::<ConfigurationSubset>::empty()) == 0);
    assert(configurations_bytes(Seq::<ConfigurationSubset>::empty()) == Seq::<u8>::empty());
    assert(configurations_bytes(seq![c]) =~= c.bytes_spec());
}

proof fn lemma_configurations_len_take_bound(s: Seq<ConfigurationSubset>, j: int)
    requires
        0 <= j <= s.len(),
    ensures
        configurations_len(s.take(j)) <= configurations_len(s),
{
    assert(s =~= s.take(j) + s.skip(j));
    lemma_configurations_len_app(s.take(j), s.skip(j));
    lemma_configurations_len_nonneg(s.skip(j));
}

proof fn lemma_utf16_le_bytes_len(units: Seq<u16>)
    ensures
        utf16_le_bytes(units).len() == 2 * units.len(),
    decreases units.len(),
{
    if units.len() > 0 {
        lemma_utf16_le_bytes_len(units.drop_first());
    }
}

/// Size/encode agreement for one feature descriptor: the encoder emits
/// exactly as many bytes as the size calculator reports.
pub proof fn lemma_feature_size_encode_agreement(f: FeatureDescriptor)
    ensures
        f.bytes_spec().len() == f.total_len_spec(),
{
    match f {
        FeatureDescriptor::RegistryProperty { name, .. } => {
            lemma_utf16_le_bytes_len(name@);
        },
        _ => {},
    }
}

/// Size/encode agreement for a sequence of feature descriptors.
pub proof fn lemma_features_size_encode_agreement(fs: Seq<FeatureDescriptor>)
    ensures
        features_bytes(fs).len() == features_len(fs),
    decreases fs.len(),
{
    if fs.len() > 0 {
        lemma_feature_size_encode_agreement(fs[0]);
        lemma_features_size_encode_agreement(fs.drop_first());
    }
}

/// Size/encode agreement for one function subset.
pub proof fn lemma_function_size_encode_agreement(f: FunctionSubset)
    ensures
        f.bytes_spec().len() == f.total_len_spec(),
{
    lemma_features_size_encode_agreement(f.features@);
}

/// Size/encode agreement for a sequence of function subsets.
pub proof fn lemma_functions_size_encode_agreement(fs: Seq<FunctionSubset>)
    ensures
        functions_bytes(fs).len() == functions_len(fs),
    decreases fs.len(),
{
    if fs.len() > 0 {
        lemma_function_size_encode_agreement(fs[0]);
        lemma_functions_size_encode_agreement(fs.drop_first());
    }
}

/// Size/encode agreement for one configuration subset.
pub proof fn lemma_configuration_size_encode_agreement(c: ConfigurationSubset)
    ensures
        c.bytes_spec().len() == c.total_len_spec(),
{
    lemma_features_size_encode_agreement(c.features@);
    lemma_functions_size_encode_agreement(c.functions@);
}

/// Size/encode agreement for a sequence of configuration subsets.
pub proof fn lemma_configurations_size_encode_agreement(cs: Seq<ConfigurationSubset>)
    ensures
        configurations_bytes(cs).len() == configurations_len(cs),
    decreases cs.len(),
{
    if cs.len() > 0 {
        lemma_configuration_size_encode_agreement(cs[0]);
        lemma_configurations_size_encode_agreement(cs.drop_first());
    }
}

/// Size/encode agreement for a whole descriptor set: the encoded buffer is
/// exactly as long as the size calculator reports, for every shape of the
/// tree, empty sequences included.
pub proof fn lemma_set_size_encode_agreement(s: DescriptorSet)
    ensures
        s.bytes_spec().len() == s.total_len_spec(),
{
    lemma_features_size_encode_agreement(s.features@);
    lemma_configurations_size_encode_agreement(s.configurations@);
}

proof fn lemma_capability_records_len(infos: Seq<CapabilityInfo>, first_code: int)
    ensures
        capability_records(infos, first_code).len() == 8 * infos.len(),
    decreases infos.len(),
{
    if infos.len() > 0 {
        lemma_capability_records_len(infos.drop_first(), first_code + 1);
    }
}

proof fn lemma_capability_records_snoc(s: Seq<CapabilityInfo>, x: CapabilityInfo, first_code: int)
    ensures
        capability_records(s.push(x), first_code) == capability_records(s, first_code)
            + capability_record(x, first_code + s.len()),
    decreases s.len(),
{
    if s.len() == 0 {
        assert(s.push(x).drop_first() =~= Seq::<CapabilityInfo>::empty());
        assert(capability_records(Seq::<CapabilityInfo>::empty(), first_code + 1)
            == Seq::<u8>::empty());
        assert(capability_records(s, first_code) == Seq::<u8>::empty());
        assert(capability_records(s.push(x), first_code) =~= capability_records(s, first_code)
            + capability_record(x, first_code + s.len()));
    } else {
        assert(s.push(x).drop_first() =~= s.drop_first().push(x));
        lemma_capability_records_snoc(s.drop_first(), x, first_code + 1);
        assert(capability_records(s.push(x), first_code) =~= capability_records(s, first_code)
            + capability_record(x, first_code + s.len()));
    }
}

proof fn lemma_capability_records_vendor_code(infos: Seq<CapabilityInfo>, first_code: int, i: int)
    requires
        0 <= i < infos.len(),
    ensures
        capability_records(infos, first_code)[8 * i + 6] == (first_code + i) as u8,
    decreases i,
{
    let head = capability_record(infos[0], first_code);
    let rest = capability_records(infos.drop_first(), first_code + 1);
    assert(head.len() == 8);
    if i == 0 {
        assert(head[6] == first_code as u8);
    } else {
        lemma_capability_records_vendor_code(infos.drop_first(), first_code + 1, i - 1);
        lemma_capability_records_len(infos.drop_first(), first_code + 1);
        assert(capability_records(infos, first_code) == head + rest);
        assert((head + rest)[8 * i + 6] == rest[8 * (i - 1) + 6]);
    }
}

/// Size/encode agreement for the capability block: the data handed to the
/// discovery-channel writer is exactly the block's total length minus the
/// 3 leading bytes that the writer itself supplies.
pub proof fn lemma_capabilities_size_encode_agreement(c: Capabilities)
    ensures
        c.data_bytes_spec().len() == c.total_len_spec() - 3,
{
    lemma_capability_records_len(c.infos@, 1);
}

/// Round-trip field extraction from a produced descriptor set buffer: the
/// first two header fields decode to (length = 10, type = 0), and the last
/// two header bytes decode to the buffer's own total length.
pub proof fn lemma_set_header_round_trip(s: DescriptorSet)
    requires
        s.wf(),
    ensures
        s.bytes_spec().len() == s.total_len_spec(),
        s.bytes_spec()[0] + 0x100 * s.bytes_spec()[1] == 10,
        s.bytes_spec()[2] + 0x100 * s.bytes_spec()[3] == 0,
        s.bytes_spec()[8] + 0x100 * s.bytes_spec()[9] == s.total_len_spec(),
{
    lemma_set_size_encode_agreement(s);
    lemma_features_len_nonneg(s.features@);
    lemma_configurations_len_nonneg(s.configurations@);
    let b = s.bytes_spec();
    let total = (s.total_len_spec() as u16);
    assert(b[0] == spec_le16(10)[0] && b[1] == spec_le16(10)[1]);
    assert(b[2] == spec_le16(0)[0] && b[3] == spec_le16(0)[1]);
    assert(b[8] == spec_le16(total)[0] && b[9] == spec_le16(total)[1]);
    lemma_le16_recompose(10);
    lemma_le16_recompose(0);
    lemma_le16_recompose(total);
}

/// The encoders are pure functions of the entity they encode: any two
/// buffers produced from the same descriptor set are byte-identical.
pub proof fn lemma_encode_deterministic(s: DescriptorSet, b1: Seq<u8>, b2: Seq<u8>)
    requires
        b1 == s.bytes_spec(),
        b2 == s.bytes_spec(),
    ensures
        b1 == b2,
{
}

} // verus!
