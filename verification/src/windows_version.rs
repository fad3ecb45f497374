//! Windows version identifiers used to tag a descriptor set with the minimum
//! platform version it applies to.

use vstd::prelude::*;

verus! {

/// Windows version as defined by the NTDDI version constants.
///
/// The numeric code of each variant is an opaque ordered 32-bit identifier; it
/// is used only for comparison against the floor value and for little-endian
/// encoding in the descriptor set header. The minimum version allowed in a
/// Microsoft OS 2.0 descriptor set is Windows 8.1 (`WinBlue`).
#[derive(Clone, Copy)]
#[allow(missing_docs)]
pub enum WindowsVersion {
    Win4,
    Win2k,
    Win2KSp1,
    Win2KSp2,
    Win2KSp3,
    Win2KSp4,
    WinXp,
    WinXpSp1,
    WinXpSp2,
    WinXpSp3,
    WinXpSp4,
    WS03,
    WS03Sp1,
    WS03Sp2,
    WS03Sp3,
    WS03Sp4,
    Win6,
    Win6Sp1,
    Win6Sp2,
    Win6Sp3,
    Win6Sp4,
    Win7,
    Win8,
    /// Windows 8.1
    WinBlue,
    /// Windows 10 1507
    Win10,
    /// Windows 10 1511
    Win10Th2,
    /// Windows 10 1607
    Win10Rs1,
    /// Windows 10 1703
    Win10Rs2,
    /// Windows 10 1709
    Win10Rs3,
    /// Windows 10 1803
    Win10Rs4,
    /// Windows 10 1809
    Win10Rs5,
    /// Windows 10 1903
    Win1019h1,
    /// Windows 10 2004
    Win10Vb,
    Win10Mn,
    Win10Fe,
    /// Windows 10 21H2
    Win10Co,
}

impl WindowsVersion {
    /// Minimal version that can be used in Microsoft OS 2.0 descriptors.
    pub const MINIMAL: WindowsVersion = WindowsVersion::WinBlue;

    /// The 32-bit NTDDI code of this version.
    pub open spec fn code_spec(self) -> u32 {
        match self {
            WindowsVersion::Win4 => 0x04000000,
            WindowsVersion::Win2k => 0x05000000,
            WindowsVersion::Win2KSp1 => 0x05000100,
            WindowsVersion::Win2KSp2 => 0x05000200,
            WindowsVersion::Win2KSp3 => 0x05000300,
            WindowsVersion::Win2KSp4 => 0x05000400,
            WindowsVersion::WinXp => 0x05010000,
            WindowsVersion::WinXpSp1 => 0x05010100,
            WindowsVersion::WinXpSp2 => 0x05010200,
            WindowsVersion::WinXpSp3 => 0x05010300,
            WindowsVersion::WinXpSp4 => 0x05010400,
            WindowsVersion::WS03 => 0x05020000,
            WindowsVersion::WS03Sp1 => 0x05020100,
            WindowsVersion::WS03Sp2 => 0x05020200,
            WindowsVersion::WS03Sp3 => 0x05020300,
            WindowsVersion::WS03Sp4 => 0x05020400,
            WindowsVersion::Win6 => 0x06000000,
            WindowsVersion::Win6Sp1 => 0x06000100,
            WindowsVersion::Win6Sp2 => 0x06000200,
            WindowsVersion::Win6Sp3 => 0x06000300,
            WindowsVersion::Win6Sp4 => 0x06000400,
            WindowsVersion::Win7 => 0x06010000,
            WindowsVersion::Win8 => 0x06020000,
            WindowsVersion::WinBlue => 0x06030000,
            WindowsVersion::Win10 => 0x0A000000,
            WindowsVersion::Win10Th2 => 0x0A000001,
            WindowsVersion::Win10Rs1 => 0x0A000002,
            WindowsVersion::Win10Rs2 => 0x0A000003,
            WindowsVersion::Win10Rs3 => 0x0A000004,
            WindowsVersion::Win10Rs4 => 0x0A000005,
            WindowsVersion::Win10Rs5 => 0x0A000006,
            WindowsVersion::Win1019h1 => 0x0A000007,
            WindowsVersion::Win10Vb => 0x0A000008,
            WindowsVersion::Win10Mn => 0x0A000009,
            WindowsVersion::Win10Fe => 0x0A00000A,
            WindowsVersion::Win10Co => 0x0A00000B,
        }
    }

    /// The NTDDI code of the floor version: no descriptor set may be tagged
    /// with a version below it.
    pub open spec fn minimal_code() -> u32 {
        0x06030000
    }

    /// Whether this version is at or above the floor version.
    pub open spec fn meets_minimal(self) -> bool {
        self.code_spec() >= WindowsVersion::minimal_code()
    }

    /// The 32-bit NTDDI code of this version.
    pub fn code(&self) -> (r: u32)
        ensures
            r == self.code_spec(),
    {
        match self {
            WindowsVersion::Win4 => 0x04000000,
            WindowsVersion::Win2k => 0x05000000,
            WindowsVersion::Win2KSp1 => 0x05000100,
            WindowsVersion::Win2KSp2 => 0x05000200,
            WindowsVersion::Win2KSp3 => 0x05000300,
            WindowsVersion::Win2KSp4 => 0x05000400,
            WindowsVersion::WinXp => 0x05010000,
            WindowsVersion::WinXpSp1 => 0x05010100,
            WindowsVersion::WinXpSp2 => 0x05010200,
            WindowsVersion::WinXpSp3 => 0x05010300,
            WindowsVersion::WinXpSp4 => 0x05010400,
            WindowsVersion::WS03 => 0x05020000,
            WindowsVersion::WS03Sp1 => 0x05020100,
            WindowsVersion::WS03Sp2 => 0x05020200,
            WindowsVersion::WS03Sp3 => 0x05020300,
            WindowsVersion::WS03Sp4 => 0x05020400,
            WindowsVersion::Win6 => 0x06000000,
            WindowsVersion::Win6Sp1 => 0x06000100,
            WindowsVersion::Win6Sp2 => 0x06000200,
            WindowsVersion::Win6Sp3 => 0x06000300,
            WindowsVersion::Win6Sp4 => 0x06000400,
            WindowsVersion::Win7 => 0x06010000,
            WindowsVersion::Win8 => 0x06020000,
            WindowsVersion::WinBlue => 0x06030000,
            WindowsVersion::Win10 => 0x0A000000,
            WindowsVersion::Win10Th2 => 0x0A000001,
            WindowsVersion::Win10Rs1 => 0x0A000002,
            WindowsVersion::Win10Rs2 => 0x0A000003,
            WindowsVersion::Win10Rs3 => 0x0A000004,
            WindowsVersion::Win10Rs4 => 0x0A000005,
            WindowsVersion::Win10Rs5 => 0x0A000006,
            WindowsVersion::Win1019h1 => 0x0A000007,
            WindowsVersion::Win10Vb => 0x0A000008,
            WindowsVersion::Win10Mn => 0x0A000009,
            WindowsVersion::Win10Fe => 0x0A00000A,
            WindowsVersion::Win10Co => 0x0A00000B,
        }
    }

    /// Get little-endian bytes as used in the descriptor set header. Only a
    /// version at or above the floor may be encoded: a lower one is a
    /// construction-time error.
    pub fn bytes(&self) -> (r: [u8; 4])
        requires
            self.meets_minimal(),
        ensures
            r@ == crate::os_20::spec_le32(self.code_spec()),
    {
        let c = self.code();
        let r = [
            (c & 0xff) as u8,
            ((c >> 8) & 0xff) as u8,
            ((c >> 16) & 0xff) as u8,
            ((c >> 24) & 0xff) as u8,
        ];
        assert(r@ =~= crate::os_20::spec_le32(c));
        r
    }

    /// Whether this version is at or above the floor version. Building a
    /// descriptor set from a version below the floor is a construction-time
    /// error, and the encoding entry points refuse such a set.
    pub fn check_minimal(&self) -> (r: bool)
        ensures
            r == self.meets_minimal(),
    {
        self.code() >= 0x06030000
    }
}

} // verus!
