//! The firmware-facing records: status codes, protocol GUIDs, fixed-layout
//! tables and descriptors, the mapping from the firmware's reported pixel
//! format to the two supported channel orders, UTF-16 encoding for the
//! firmware text output, and a recording model of that output.

use vstd::prelude::*;

use crate::bytes::{read_u32_le, read_u64_le, spec_le_u32, spec_le_u64};
use crate::graphics::{FrameBufferConfig, PixelFormat};

verus! {

#[derive(Clone, Copy, Debug, PartialEq, Eq, Structural)]
pub enum EfiStatus {
    Success,
    LoadError,
    InvalidParameter,
    Unsupprted,
    BadBufferSize,
    BufferTooSmall,
    NotReady,
    DeviceError,
    WriteProtected,
    OutOfResources,
    VolumeCorrupted,
    VolumeFull,
    NoMedia,
    MediaChanged,
    NotFound,
    AccessDenied,
    NoResponse,
    NoMapping,
    Timeout,
    NotStarted,
    AlreadyStarted,
    Aborted,
    IcmpError,
    TftpError,
    ProtocolError,
    IncompatibleVersion,
    SecurityViolation,
    CrcError,
    EndOfMedia,
    EndOfFile,
    InvalidLanguage,
    CompromisedData,
    IpAddressConflict,
    HttpError,
}

#[derive(Clone, Copy, Debug, PartialEq, Eq)]
pub struct EfiGuid {
    pub data_1: u32,
    pub data_2: u16,
    pub data_3: u16,
    pub data_4: [u8; 8],
}

pub const EFI_OPEN_PROTOCOL_BY_HANDLE_PROTOCOL: u32 = 0x00000001;

/// The GUID under which a loaded image's own protocol is opened.
pub fn efi_loaded_image_protocol_guid() -> (r: EfiGuid)
    ensures
        r.data_1 == 0x5b1b31a1u32,
        r.data_2 == 0x9562u16,
        r.data_3 == 0x11d2u16,
        r.data_4@ =~= seq![0x8eu8, 0x3fu8, 0x00u8, 0xa0u8, 0xc9u8, 0x69u8, 0x72u8, 0x3bu8],
{
    EfiGuid {
        data_1: 0x5b1b31a1,
        data_2: 0x9562,
        data_3: 0x11d2,
        data_4: [0x8e, 0x3f, 0x00, 0xa0, 0xc9, 0x69, 0x72, 0x3b],
    }
}

/// The GUID of the simple file system protocol.
pub fn efi_simple_file_system_protocol_guid() -> (r: EfiGuid)
    ensures
        r.data_1 == 0x0964e5b22u32,
        r.data_2 == 0x6459u16,
        r.data_3 == 0x11d2u16,
        r.data_4@ =~= seq![0x8eu8, 0x39u8, 0x00u8, 0xa0u8, 0xc9u8, 0x69u8, 0x72u8, 0x3bu8],
{
    EfiGuid {
        data_1: 0x0964e5b22,
        data_2: 0x6459,
        data_3: 0x11d2,
        data_4: [0x8e, 0x39, 0x00, 0xa0, 0xc9, 0x69, 0x72, 0x3b],
    }
}

/// The GUID of the graphics output protocol.
pub fn efi_graphics_output_protocol_guid() -> (r: EfiGuid)
    ensures
        r.data_1 == 0x9042a9deu32,
        r.data_2 == 0x23dcu16,
        r.data_3 == 0x4a38u16,
        r.data_4@ =~= seq![0x96u8, 0xfbu8, 0x7au8, 0xdeu8, 0xd0u8, 0x80u8, 0x51u8, 0x6au8],
{
    EfiGuid {
        data_1: 0x9042a9de,
        data_2: 0x23dc,
        data_3: 0x4a38,
        data_4: [0x96, 0xfb, 0x7a, 0xde, 0xd0, 0x80, 0x51, 0x6a],
    }
}

/// The GUID naming the file-info information type.
pub fn efi_file_info_id() -> (r: EfiGuid)
    ensures
        r.data_1 == 0x09576e92u32,
        r.data_2 == 0x6d3fu16,
        r.data_3 == 0x11d2u16,
        r.data_4@ =~= seq![0x8eu8, 0x39u8, 0x00u8, 0xa0u8, 0xc9u8, 0x69u8, 0x72u8, 0x3bu8],
{
    EfiGuid {
        data_1: 0x09576e92,
        data_2: 0x6d3f,
        data_3: 0x11d2,
        data_4: [0x8e, 0x39, 0x00, 0xa0, 0xc9, 0x69, 0x72, 0x3b],
    }
}

#[derive(Clone, Copy, Debug, PartialEq, Eq, Structural)]
pub struct EfiTableHeader {
    pub signature: u64,
    pub revision: u32,
    pub header_size: u32,
    pub crc32: u32,
    pub reserved: u32,
}

#[derive(Clone, Copy, Debug, PartialEq, Eq, Structural)]
pub enum EfiFileAttribute {
    Unset,
    ReadOnly,
    Hidden,
    System,
    Reserved,
    Directory,
    Archive,
    ValidAttribute,
}

impl EfiFileAttribute {
    /// The attribute's wire value.
    pub fn bits(self) -> (r: u64)
        ensures
            self == EfiFileAttribute::Unset ==> r == 0x0,
            self == EfiFileAttribute::ReadOnly ==> r == 0x1,
            self == EfiFileAttribute::Hidden ==> r == 0x2,
            self == EfiFileAttribute::System ==> r == 0x4,
            self == EfiFileAttribute::Reserved ==> r == 0x8,
            self == EfiFileAttribute::Directory ==> r == 0x10,
            self == EfiFileAttribute::Archive ==> r == 0x20,
            self == EfiFileAttribute::ValidAttribute ==> r == 0x37,
    {
        match self {
            EfiFileAttribute::Unset => 0x0,
            EfiFileAttribute::ReadOnly => 0x1,
            EfiFileAttribute::Hidden => 0x2,
            EfiFileAttribute::System => 0x4,
            EfiFileAttribute::Reserved => 0x8,
            EfiFileAttribute::Directory => 0x10,
            EfiFileAttribute::Archive => 0x20,
            EfiFileAttribute::ValidAttribute => 0x37,
        }
    }
}

#[derive(Clone, Copy, Debug, PartialEq, Eq, Structural)]
pub enum EfiFileOpenMode {
    Read,
    ReadWrite,
    CreateReadWrite,
}

impl EfiFileOpenMode {
    /// The open mode's wire value.
    pub fn bits(self) -> (r: u64)
        ensures
            self == EfiFileOpenMode::Read ==> r == 0x1,
            self == EfiFileOpenMode::ReadWrite ==> r == 0x3,
            self == EfiFileOpenMode::CreateReadWrite ==> r == 0x8000_0000_0000_0003,
    {
        match self {
            EfiFileOpenMode::Read => 0x1,
            EfiFileOpenMode::ReadWrite => 0x3,
            EfiFileOpenMode::CreateReadWrite => 0x8000_0000_0000_0003,
        }
    }
}

#[derive(Clone, Copy, Debug, PartialEq, Eq, Structural)]
pub enum EfiAllocateType {
    AllocateAnyPages,
    AllocateMaxAddress,
    AllocateAddress,
    MaxAllocateType,
}

#[derive(Clone, Copy, Debug, PartialEq, Eq, Structural)]
pub enum EfiLocateSearchType {
    AllHandles,
    ByRegisterNotify,
    ByProtocol,
}

#[derive(Clone, Copy, Debug, PartialEq, Eq, Structural)]
pub enum EfiMemoryType {
    EfiReservedMemoryType,
    EfiLoaderCode,
    EfiLoaderData,
    EfiBootServicesCode,
    EfiBootServicesData,
    EfiRuntimeServicesCode,
    EfiRuntimeServicesData,
    EfiConventionalMemory,
    EfiUnusableMemory,
    EfiACPIReclaimMemory,
    EfiACPIMemoryNVS,
    EfiMemoryMappedIO,
    EfiMemoryMappedIOPortSpace,
    EfiPalCode,
    EfiPersistentMemory,
    EfiUnacceptedMemoryType,
    EfiMaxMemoryType,
}

#[derive(Clone, Copy, Debug, PartialEq, Eq, Structural)]
pub enum EfiGraphicsPixelFormat {
    PixelRedGreenBlueReserved8BitPerColor,
    PixelBlueGreenRedReserved8BitPerColor,
    PixelBitMask,
    PixelBitOnly,
    PixelFormatMAx,
}

#[derive(Clone, Copy, Debug, PartialEq, Eq, Structural)]
pub enum EfiGraphicsOutputBltOperation {
    EfiBltVideoFill,
    EfiBltVideoToVltBuffer,
    EfiBltBufferToVideo,
    EfiBltVideoToVideo,
    EfiGraphicsOutputBltOperationMax,
}

#[derive(Clone, Copy, Debug, PartialEq, Eq, Structural)]
pub struct EfiPixelBitmask {
    pub red_mask: u32,
    pub green_mask: u32,
    pub blue_mask: u32,
    pub reserved_mask: u32,
}

#[derive(Clone, Copy, Debug, PartialEq, Eq, Structural)]
pub struct EfiGraphicsOutputBltPixel {
    pub blue: u8,
    pub green: u8,
    pub red: u8,
    pub reserved: u8,
}

#[derive(Clone, Copy, Debug, PartialEq, Eq, Structural)]
pub struct EfiGraphicsOutputModeInformation {
    pub version: u32,
    pub horizontal_resolution: u32,
    pub vertical_resolution: u32,
    pub pixel_format: EfiGraphicsPixelFormat,
    pub pixel_information: EfiPixelBitmask,
    pub pixels_per_scan_line: u32,
}

#[derive(Clone, Copy, Debug, PartialEq, Eq, Structural)]
pub struct EfiGraphicsOutputProtocolMode {
    pub max_mode: u32,
    pub mode: u32,
    pub info: EfiGraphicsOutputModeInformation,
    pub size_of_info: usize,
    pub frame_buffer_base: u64,
    pub frame_buffer_size: usize,
}

/// The graphics output capability as this core reads it: the mode the
/// firmware reported. The firmware-side call table stays outside.
#[derive(Clone, Copy, Debug, PartialEq, Eq, Structural)]
pub struct EfiGraphicsOutputProtocol {
    pub mode: EfiGraphicsOutputProtocolMode,
}

#[derive(Default, Clone, Copy, Debug, PartialEq, Eq, Structural)]
pub struct EfiMemoryDescriptor {
    pub memory_type: u32,
    pub physical_start: u64,
    pub virtual_start: u64,
    pub number_of_pages: u64,
    pub attribute: u64,
}

#[derive(Clone, Copy, Debug, PartialEq, Eq, Structural)]
pub struct EfiTime {
    pub year: u64,
    pub month: u8,
    pub day: u8,
    pub hour: u8,
    pub minute: u8,
    pub second: u8,
    pub nanosecond: u32,
    pub time_zone: i16,
    pub daylight: u8,
}

#[derive(Clone, Copy, Debug, PartialEq, Eq, Structural)]
pub struct EfiFileInfo {
    pub size: u64,
    pub file_size: u64,
    pub physical_size: u64,
    pub create_time: EfiTime,
    pub last_access_time: EfiTime,
    pub modification_time: EfiTime,
    pub attribute: u64,
}

/// What one memory-map acquisition reported alongside the raw buffer.
#[derive(Clone, Copy, Debug, PartialEq, Eq, Structural)]
pub struct MemoryMapSnapshot {
    pub map_size: usize,
    pub map_key: usize,
    pub descriptor_size: usize,
    pub descriptor_version: u32,
}

pub struct EfiSimpleTextInputProtocol {}

pub struct EfiRuntimeService {}

pub struct EfiConfigurationTable {}

pub struct EfiFileIoToken {}

#[derive(Clone, Copy, Debug, PartialEq, Eq, Structural)]
pub struct EfiDevicePathProtocol {}

/// The firmware's pool allocator front end: it serves layouts aligned to at
/// most eight bytes, anything stricter is refused.
pub struct Allocator;

impl Allocator {
    /// Whether pool allocation can serve an alignment.
    pub fn supports_alignment(align: usize) -> (r: bool)
        ensures
            r == (align <= 8),
    {
        align <= 8
    }
}

/// Number of 4 KiB pages that cover an allocation of `bytes` bytes, for
/// the firmware's page allocator.
pub fn pages_needed(bytes: usize) -> (r: usize)
    ensures
        r == bytes / 0x1000 + (if bytes % 0x1000 != 0 {
            1int
        } else {
            0int
        }),
{
    if bytes % 0x1000 != 0 {
        bytes / 0x1000 + 1
    } else {
        bytes / 0x1000
    }
}

/// The descriptor the firmware laid down at byte offset `off` of the raw
/// memory-map buffer.
pub open spec fn descriptor_at(map: Seq<u8>, off: int) -> EfiMemoryDescriptor {
    EfiMemoryDescriptor {
        memory_type: spec_le_u32(map, off) as u32,
        physical_start: spec_le_u64(map, off + 8) as u64,
        virtual_start: spec_le_u64(map, off + 16) as u64,
        number_of_pages: spec_le_u64(map, off + 24) as u64,
        attribute: spec_le_u64(map, off + 32) as u64,
    }
}

/// Read one fixed-layout memory descriptor out of the raw buffer.
pub fn parse_memory_descriptor(map: &Vec<u8>, off: usize) -> (r: EfiMemoryDescriptor)
    requires
        off + 40 <= map.len(),
    ensures
        r == descriptor_at(map@, off as int),
{
    EfiMemoryDescriptor {
        memory_type: read_u32_le(map, off),
        physical_start: read_u64_le(map, off + 8),
        virtual_start: read_u64_le(map, off + 16),
        number_of_pages: read_u64_le(map, off + 24),
        attribute: read_u64_le(map, off + 32),
    }
}

/// The channel order a reported pixel format stands for, when it is one of
/// the two this core supports.
pub open spec fn spec_supported_pixel_format(f: EfiGraphicsPixelFormat) -> Option<PixelFormat> {
    match f {
        EfiGraphicsPixelFormat::PixelRedGreenBlueReserved8BitPerColor => Some(PixelFormat::RGB),
        EfiGraphicsPixelFormat::PixelBlueGreenRedReserved8BitPerColor => Some(PixelFormat::BGR),
        _ => None,
    }
}

/// Map the firmware's pixel format to a supported channel order; any other
/// reported format is unsupported.
pub fn supported_pixel_format(f: EfiGraphicsPixelFormat) -> (r: Option<PixelFormat>)
    ensures
        r == spec_supported_pixel_format(f),
{
    match f {
        EfiGraphicsPixelFormat::PixelRedGreenBlueReserved8BitPerColor => Some(PixelFormat::RGB),
        EfiGraphicsPixelFormat::PixelBlueGreenRedReserved8BitPerColor => Some(PixelFormat::BGR),
        _ => None,
    }
}

/// Build the frame-buffer descriptor out of the mode the graphics output
/// capability reported. Fails as unsupported exactly when the reported
/// pixel format is neither of the two channel orders.
pub fn get_monitor_config(gop: &EfiGraphicsOutputProtocol) -> (r: Result<
    FrameBufferConfig,
    EfiStatus,
>)
    ensures
        r is Ok <==> spec_supported_pixel_format(gop.mode.info.pixel_format) is Some,
        r matches Ok(c) ==> {
            &&& c.frame_buffer_base == gop.mode.frame_buffer_base
            &&& c.pixels_per_scan_line == gop.mode.info.pixels_per_scan_line
            &&& c.horizontal_resolution == gop.mode.info.horizontal_resolution
            &&& c.vertical_resolution == gop.mode.info.vertical_resolution
            &&& Some(c.pixel_format) == spec_supported_pixel_format(gop.mode.info.pixel_format)
        },
        r matches Err(e) ==> e == EfiStatus::Unsupprted,
{
    match supported_pixel_format(gop.mode.info.pixel_format) {
        Some(fmt) => Ok(
            FrameBufferConfig {
                frame_buffer_base: gop.mode.frame_buffer_base,
                pixels_per_scan_line: gop.mode.info.pixels_per_scan_line,
                horizontal_resolution: gop.mode.info.horizontal_resolution,
                vertical_resolution: gop.mode.info.vertical_resolution,
                pixel_format: fmt,
            },
        ),
        None => Err(EfiStatus::Unsupprted),
    }
}

/// The UTF-16 code units of one character: one unit below the supplementary
/// planes, else a surrogate pair.
pub open spec fn utf16_units(c: char) -> Seq<u16> {
    if (c as int) < 0x10000 {
        seq![(c as int) as u16]
    } else {
        seq![
            (0xD800 + ((c as int) - 0x10000) / 0x400) as u16,
            (0xDC00 + ((c as int) - 0x10000) % 0x400) as u16,
        ]
    }
}

/// The UTF-16 code units of a character sequence.
pub open spec fn utf16_of(s: Seq<char>) -> Seq<u16>
    decreases s.len(),
{
    if s.len() == 0 {
        Seq::empty()
    } else {
        utf16_units(s[0]) + utf16_of(s.subrange(1, s.len() as int))
    }
}

/// Encode a string as the firmware text output wants it: UTF-16 code
/// units followed by one terminating nul.
pub fn encode_utf16_nul(s: &str) -> (r: Vec<u16>)
    ensures
        r@ == utf16_of(s@) + seq![0u16],
{
    let n = s.unicode_len();
    let mut v: Vec<u16> = Vec::new();
    let mut i: usize = 0;
    proof {
        assert(s@.take(0) =~= Seq::<char>::empty());
        assert(utf16_of(s@.take(0)) =~= Seq::<u16>::empty());
    }
    while i < n
        invariant
            i <= n,
            n == s@.len(),
            v@ == utf16_of(s@.take(i as int)),
        decreases n - i,
    {
        let c = s.get_char(i);
        let code = c as u32;
        if code < 0x10000 {
            v.push(code as u16);
        } else {
            let high: u32 = 0xD800 + (code - 0x10000) / 0x400;
            let low: u32 = 0xDC00 + (code - 0x10000) % 0x400;
            v.push(high as u16);
            v.push(low as u16);
        }
        proof {
            lemma_utf16_of_snoc(s@.take(i as int), c);
            assert(s@.take(i as int).push(c) =~= s@.take(i as int + 1));
            assert(v@ =~= utf16_of(s@.take(i as int + 1)));
        }
        i = i + 1;
    }
    v.push(0u16);
    proof {
        assert(s@.take(n as int) =~= s@);
        assert(v@ =~= utf16_of(s@) + seq![0u16]);
    }
    v
}

/// Encoding one more character appends its units.
pub proof fn lemma_utf16_of_snoc(s: Seq<char>, c: char)
    ensures
        utf16_of(s.push(c)) == utf16_of(s) + utf16_units(c),
    decreases s.len(),
{
    if s.len() == 0 {
        assert(s.push(c)[0] == c);
        assert(s.push(c).subrange(1, s.push(c).len() as int) =~= Seq::<char>::empty());
        assert(utf16_of(Seq::<char>::empty()) =~= Seq::<u16>::empty());
        assert(utf16_of(s.push(c)) =~= utf16_units(c));
        assert(utf16_of(s) + utf16_units(c) =~= utf16_units(c));
    } else {
        assert(s.push(c)[0] == s[0]);
        assert(s.push(c).subrange(1, s.push(c).len() as int) =~= s.subrange(
            1,
            s.len() as int,
        ).push(c));
        lemma_utf16_of_snoc(s.subrange(1, s.len() as int), c);
        assert(utf16_of(s.push(c)) =~= utf16_of(s) + utf16_units(c));
    }
}

/// Index of the first nul unit, or the length when there is none.
pub open spec fn first_nul(s: Seq<u16>) -> int
    decreases s.len(),
{
    if s.len() == 0 {
        0
    } else if s[0] == 0u16 {
        0
    } else {
        1 + first_nul(s.subrange(1, s.len() as int))
    }
}

/// The first nul lies inside the sequence, and nothing before it is nul.
pub proof fn lemma_first_nul(s: Seq<u16>)
    ensures
        0 <= first_nul(s) <= s.len(),
        first_nul(s) < s.len() ==> s[first_nul(s)] == 0u16,
        forall|j: int| 0 <= j < first_nul(s) ==> s[j] != 0u16,
    decreases s.len(),
{
    if s.len() > 0 && s[0] != 0u16 {
        lemma_first_nul(s.subrange(1, s.len() as int));
        assert forall|j: int| 0 <= j < first_nul(s) implies s[j] != 0u16 by {
            if j > 0 {
                assert(s.subrange(1, s.len() as int)[j - 1] == s[j]);
            }
        }
    }
}

/// The firmware's simple text output, as this core observes it: everything
/// written since the last reset, in the order it was written.
pub struct EfiSimpleTextOutputProtocol {
    written: Vec<u16>,
}

impl EfiSimpleTextOutputProtocol {
    /// The code units written since the last reset.
    pub closed spec fn spec_written(&self) -> Seq<u16> {
        self.written@
    }

    /// A fresh output with nothing written.
    pub fn new() -> (r: EfiSimpleTextOutputProtocol)
        ensures
            r.spec_written() =~= Seq::<u16>::empty(),
    {
        EfiSimpleTextOutputProtocol { written: Vec::new() }
    }

    /// The code units written since the last reset, oldest first.
    pub fn written(&self) -> (r: &Vec<u16>)
        ensures
            r@ == self.spec_written(),
    {
        &self.written
    }

    /// Reset the output device, clearing what it shows.
    pub fn reset(&mut self, extended_verification: bool) -> (r: EfiStatus)
        ensures
            final(self).spec_written() =~= Seq::<u16>::empty(),
            r == EfiStatus::Success,
    {
        self.written = Vec::new();
        EfiStatus::Success
    }

    /// Write a nul-terminated sequence of UTF-16 units: the units before
    /// the first nul are appended to the output.
    pub fn output_string(&mut self, string: &Vec<u16>) -> (r: EfiStatus)
        requires
            first_nul(string@) < string@.len(),
        ensures
            final(self).spec_written() =~= old(self).spec_written() + string@.take(first_nul(
                string@,
            )),
            r == EfiStatus::Success,
    {
        proof {
            lemma_first_nul(string@);
        }
        let n = string.len();
        let mut i: usize = 0;
        while string[i] != 0
            invariant
                n == string@.len(),
                0 <= i <= first_nul(string@),
                first_nul(string@) < string@.len(),
                forall|j: int| 0 <= j < first_nul(string@) ==> string@[j] != 0u16,
                string@[first_nul(string@)] == 0u16,
                self.spec_written() =~= old(self).spec_written() + string@.take(i as int),
            decreases string@.len() - i,
        {
            self.written.push(string[i]);
            proof {
                assert(string@.take(i as int).push(string@[i as int]) =~= string@.take(
                    i as int + 1));
                assert(string@[i as int] != 0u16);
                assert(i + 1 <= first_nul(string@)) by {
                    lemma_first_nul(string@);
                    if i + 1 > first_nul(string@) {
                        assert(string@[first_nul(string@)] == 0u16);
                    }
                }
            }
            i = i + 1;
        }
        proof {
            assert(i == first_nul(string@));
        }
        EfiStatus::Success
    }

    /// Encode a string and write it to the output.
    pub fn output_str(&mut self, s: &str) -> (r: EfiStatus)
        requires
            forall|j: int| 0 <= j < s@.len() ==> s@[j] != '\u{0}',
        ensures
            final(self).spec_written() =~= old(self).spec_written() + utf16_of(s@),
            r == EfiStatus::Success,
    {
        let units = encode_utf16_nul(s);
        proof {
            lemma_utf16_no_nul(s@);
            lemma_first_nul_of_append_nul(utf16_of(s@));
            assert(units@.take(utf16_of(s@).len() as int) =~= utf16_of(s@));
        }
        self.output_string(&units)
    }
}

/// Every character is a Unicode scalar value.
proof fn lemma_char_bound(c: char)
    ensures
        0 <= c as int <= 0x10FFFF,
{
}

/// A string without nul characters encodes without nul units.
proof fn lemma_utf16_no_nul(s: Seq<char>)
    requires
        forall|j: int| 0 <= j < s.len() ==> s[j] != '\u{0}',
    ensures
        forall|j: int| 0 <= j < utf16_of(s).len() ==> utf16_of(s)[j] != 0u16,
    decreases s.len(),
{
    if s.len() > 0 {
        assert(forall|j: int|
            0 <= j < s.subrange(1, s.len() as int).len() ==> s.subrange(1, s.len() as int)[j]
                != '\u{0}');
        lemma_utf16_no_nul(s.subrange(1, s.len() as int));
        let u = utf16_units(s[0]);
        assert forall|j: int| 0 <= j < u.len() implies u[j] != 0u16 by {
            lemma_char_bound(s[0]);
            if (s[0] as int) >= 0x10000 {
                assert(0xD800 <= u[0] < 0xDC00) by {
                    lemma_char_bound(s[0]);
                    vstd::arithmetic::div_mod::lemma_div_pos_is_pos((s[0] as int) - 0x10000, 0x400);
                    vstd::arithmetic::div_mod::lemma_div_is_ordered((s[0] as int) - 0x10000,
                        0xFFFFF, 0x400);
                }
                assert(0xDC00 <= u[1] < 0xE000) by {
                    vstd::arithmetic::div_mod::lemma_mod_bound((s[0] as int) - 0x10000, 0x400);
                }
            }
        }
        let rest = utf16_of(s.subrange(1, s.len() as int));
        assert forall|j: int| 0 <= j < utf16_of(s).len() implies utf16_of(s)[j] != 0u16 by {
            if j < u.len() {
                assert(utf16_of(s)[j] == u[j]);
            } else {
                assert(utf16_of(s)[j] == rest[j - u.len()]);
            }
        }
    }
}

/// Appending the terminator to a nul-free sequence puts the first nul
/// exactly at its end.
proof fn lemma_first_nul_of_append_nul(s: Seq<u16>)
    requires
        forall|j: int| 0 <= j < s.len() ==> s[j] != 0u16,
    ensures
        first_nul(s + seq![0u16]) == s.len(),
    decreases s.len(),
{
    if s.len() == 0 {
        assert((s + seq![0u16])[0] == 0u16);
    } else {
        assert((s + seq![0u16])[0] == s[0]);
        let t = s + seq![0u16];
        assert(t.subrange(1, t.len() as int) =~= s.subrange(1, s.len() as int) + seq![0u16]);
        assert(forall|j: int|
            0 <= j < s.subrange(1, s.len() as int).len() ==> s.subrange(1, s.len() as int)[j]
                != 0u16);
        lemma_first_nul_of_append_nul(s.subrange(1, s.len() as int));
    }
}

/// The memory-type names the diagnostic memory-map log prints.
pub open spec fn spec_memory_type_name(n: u32) -> Seq<char> {
    match n {
        0u32 => "EfiReservedMemoryType"@,
        1u32 => "EfiLoaderCode"@,
        2u32 => "EfiLoaderData"@,
        3u32 => "EfiBootServicesCode"@,
        4u32 => "EfiBootServicesData"@,
        5u32 => "EfiRuntimeServiceCode"@,
        6u32 => "EfiRuntimeServiceData"@,
        7u32 => "EfiConventionalMemory"@,
        8u32 => "EfiUnusableMemory"@,
        9u32 => "EfiACPIReclaimMemory"@,
        10u32 => "EfiACPIMemoryNVS"@,
        11u32 => "EfiMemoryMappedIO"@,
        12u32 => "EfiMemoryMappedIOPortSpace"@,
        13u32 => "EfiPalCode"@,
        14u32 => "EfiPersistentMemory"@,
        15u32 => "EfiUnacceptedMemoryType"@,
        16u32 => "EfiMaxMemoryType"@,
        _ => "Unknown Memory Type"@,
    }
}

/// The printable name of a reported memory type.
pub fn get_memory_map_unicode(memory_type_number: u32) -> (r: &'static str)
    ensures
        r@ == spec_memory_type_name(memory_type_number),
{
    match memory_type_number {
        0 => "EfiReservedMemoryType",
        1 => "EfiLoaderCode",
        2 => "EfiLoaderData",
        3 => "EfiBootServicesCode",
        4 => "EfiBootServicesData",
        5 => "EfiRuntimeServiceCode",
        6 => "EfiRuntimeServiceData",
        7 => "EfiConventionalMemory",
        8 => "EfiUnusableMemory",
        9 => "EfiACPIReclaimMemory",
        10 => "EfiACPIMemoryNVS",
        11 => "EfiMemoryMappedIO",
        12 => "EfiMemoryMappedIOPortSpace",
        13 => "EfiPalCode",
        14 => "EfiPersistentMemory",
        15 => "EfiUnacceptedMemoryType",
        16 => "EfiMaxMemoryType",
        _ => "Unknown Memory Type",
    }
}

} // verus!
