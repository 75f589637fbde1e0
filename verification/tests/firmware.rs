//! The exit-services coordinator against a simulated firmware, the
//! firmware-facing records, UTF-16 text output, and the memory-map log.

use bootcore::coordinator::{Coordinator, CoordinatorState, ExitDirective};
use bootcore::graphics::PixelFormat;
use bootcore::report::{dec_chars_u64, hex_chars_u64, memory_map_report};
use bootcore::uefi::{
    encode_utf16_nul, get_memory_map_unicode, get_monitor_config, parse_memory_descriptor,
    supported_pixel_format, Allocator, EfiFileAttribute, EfiFileOpenMode, EfiGraphicsOutputProtocol,
    EfiGraphicsOutputProtocolMode, EfiGraphicsOutputModeInformation, EfiGraphicsPixelFormat,
    EfiPixelBitmask, EfiSimpleTextOutputProtocol, EfiStatus,
};

/// A firmware double: it answers each exit-services call with the next
/// prepared status.
struct ScriptedFirmware {
    answers: Vec<EfiStatus>,
    calls: usize,
}

impl ScriptedFirmware {
    fn exit_boot_services(&mut self) -> EfiStatus {
        let r = self.answers[self.calls];
        self.calls += 1;
        r
    }
}

/// The firmware fails the first exit call with a stale key and accepts the
/// second: the coordinator reaches the exited state after exactly one
/// retry.
#[test]
fn exit_retry_succeeds_second_time() {
    let mut firmware = ScriptedFirmware {
        answers: vec![EfiStatus::InvalidParameter, EfiStatus::Success],
        calls: 0,
    };
    let mut coordinator = Coordinator::new();
    let first = coordinator.record_exit_attempt(firmware.exit_boot_services());
    assert_eq!(first, ExitDirective::RetryWithFreshMap);
    assert_eq!(coordinator.state(), CoordinatorState::Active);
    let second = coordinator.record_exit_attempt(firmware.exit_boot_services());
    assert_eq!(second, ExitDirective::Done);
    assert_eq!(coordinator.state(), CoordinatorState::Exited);
    assert_eq!(coordinator.exit_attempts(), 2);
    assert_eq!(firmware.calls, 2);
}

/// The firmware fails twice: the coordinator reports the failure as fatal
/// and never asks for a third call.
#[test]
fn exit_retry_exhaustion_is_fatal() {
    let mut firmware = ScriptedFirmware {
        answers: vec![EfiStatus::InvalidParameter, EfiStatus::InvalidParameter],
        calls: 0,
    };
    let mut coordinator = Coordinator::new();
    let first = coordinator.record_exit_attempt(firmware.exit_boot_services());
    assert_eq!(first, ExitDirective::RetryWithFreshMap);
    let second = coordinator.record_exit_attempt(firmware.exit_boot_services());
    assert_eq!(second, ExitDirective::Fatal(EfiStatus::InvalidParameter));
    assert_eq!(coordinator.state(), CoordinatorState::Failed);
    // the failed state never asks for another call
    assert_eq!(firmware.calls, 2);
    assert_eq!(coordinator.exit_attempts(), 2);
}

#[test]
fn exit_other_failure_is_fatal_at_once() {
    let mut coordinator = Coordinator::new();
    let r = coordinator.record_exit_attempt(EfiStatus::DeviceError);
    assert_eq!(r, ExitDirective::Fatal(EfiStatus::DeviceError));
    assert_eq!(coordinator.state(), CoordinatorState::Failed);
}

#[test]
fn exit_success_first_time() {
    let mut coordinator = Coordinator::new();
    let r = coordinator.record_exit_attempt(EfiStatus::Success);
    assert_eq!(r, ExitDirective::Done);
    assert_eq!(coordinator.state(), CoordinatorState::Exited);
    assert_eq!(coordinator.exit_attempts(), 1);
}

#[test]
fn pixel_format_mapping() {
    assert_eq!(
        supported_pixel_format(EfiGraphicsPixelFormat::PixelRedGreenBlueReserved8BitPerColor),
        Some(PixelFormat::RGB)
    );
    assert_eq!(
        supported_pixel_format(EfiGraphicsPixelFormat::PixelBlueGreenRedReserved8BitPerColor),
        Some(PixelFormat::BGR)
    );
    assert_eq!(supported_pixel_format(EfiGraphicsPixelFormat::PixelBitMask), None);
}

fn sample_mode(format: EfiGraphicsPixelFormat) -> EfiGraphicsOutputProtocol {
    EfiGraphicsOutputProtocol {
        mode: EfiGraphicsOutputProtocolMode {
            max_mode: 1,
            mode: 0,
            info: EfiGraphicsOutputModeInformation {
                version: 0,
                horizontal_resolution: 1024,
                vertical_resolution: 768,
                pixel_format: format,
                pixel_information: EfiPixelBitmask {
                    red_mask: 0,
                    green_mask: 0,
                    blue_mask: 0,
                    reserved_mask: 0,
                },
                pixels_per_scan_line: 1024,
            },
            size_of_info: 36,
            frame_buffer_base: 0x8000_0000,
            frame_buffer_size: 1024 * 768 * 4,
        },
    }
}

#[test]
fn monitor_config_from_reported_mode() {
    let gop = sample_mode(EfiGraphicsPixelFormat::PixelBlueGreenRedReserved8BitPerColor);
    let config = get_monitor_config(&gop).unwrap();
    assert_eq!(config.frame_buffer_base, 0x8000_0000);
    assert_eq!(config.pixels_per_scan_line, 1024);
    assert_eq!(config.horizontal_resolution, 1024);
    assert_eq!(config.vertical_resolution, 768);
    assert_eq!(config.pixel_format, PixelFormat::BGR);
}

#[test]
fn monitor_config_rejects_other_formats() {
    let gop = sample_mode(EfiGraphicsPixelFormat::PixelBitOnly);
    assert_eq!(get_monitor_config(&gop), Err(EfiStatus::Unsupprted));
}

#[test]
fn utf16_encoding_appends_terminator() {
    let units = encode_utf16_nul("Az");
    assert_eq!(units, vec![0x41, 0x7A, 0]);
}

#[test]
fn utf16_encoding_uses_surrogate_pairs() {
    let units = encode_utf16_nul("\u{1F600}");
    assert_eq!(units, vec![0xD83D, 0xDE00, 0]);
}

#[test]
fn text_output_records_written_units() {
    let mut out = EfiSimpleTextOutputProtocol::new();
    assert_eq!(out.output_str("hi"), EfiStatus::Success);
    assert_eq!(out.output_str("!"), EfiStatus::Success);
    // the concatenation was recorded, without the terminators
    assert_eq!(out.written(), &vec![0x68u16, 0x69, 0x21]);
    assert_eq!(out.reset(false), EfiStatus::Success);
    assert_eq!(out.written(), &Vec::<u16>::new());
    assert_eq!(out.output_str("ok"), EfiStatus::Success);
    assert_eq!(out.written(), &vec![0x6Fu16, 0x6B]);
}

#[test]
fn text_output_stops_at_first_nul() {
    let mut out = EfiSimpleTextOutputProtocol::new();
    let units = vec![0x61u16, 0x62, 0, 0x63, 0];
    assert_eq!(out.output_string(&units), EfiStatus::Success);
    assert_eq!(out.written(), &vec![0x61u16, 0x62]);
}

#[test]
fn memory_type_names() {
    assert_eq!(get_memory_map_unicode(2), "EfiLoaderData");
    assert_eq!(get_memory_map_unicode(7), "EfiConventionalMemory");
    assert_eq!(get_memory_map_unicode(99), "Unknown Memory Type");
}

#[test]
fn allocator_alignment_policy() {
    assert!(Allocator::supports_alignment(8));
    assert!(Allocator::supports_alignment(1));
    assert!(!Allocator::supports_alignment(16));
}

#[test]
fn open_mode_and_attribute_bits() {
    assert_eq!(EfiFileOpenMode::Read.bits(), 0x1);
    assert_eq!(EfiFileOpenMode::ReadWrite.bits(), 0x3);
    assert_eq!(EfiFileOpenMode::CreateReadWrite.bits(), 0x8000_0000_0000_0003);
    assert_eq!(EfiFileAttribute::Unset.bits(), 0x0);
    assert_eq!(EfiFileAttribute::Directory.bits(), 0x10);
}

fn put_descriptor(map: &mut Vec<u8>, off: usize, ty: u32, start: u64, pages: u64, attr: u64) {
    map[off..off + 4].copy_from_slice(&ty.to_le_bytes());
    map[off + 8..off + 16].copy_from_slice(&start.to_le_bytes());
    map[off + 24..off + 32].copy_from_slice(&pages.to_le_bytes());
    map[off + 32..off + 40].copy_from_slice(&attr.to_le_bytes());
}

#[test]
fn descriptor_parsing() {
    let mut map = vec![0u8; 48];
    put_descriptor(&mut map, 0, 7, 0x0010_0000, 0x20, 0xF);
    let d = parse_memory_descriptor(&map, 0);
    assert_eq!(d.memory_type, 7);
    assert_eq!(d.physical_start, 0x0010_0000);
    assert_eq!(d.number_of_pages, 0x20);
    assert_eq!(d.attribute, 0xF);
}

#[test]
fn number_rendering() {
    let d: String = dec_chars_u64(0).into_iter().collect();
    assert_eq!(d, "0");
    let d: String = dec_chars_u64(1234).into_iter().collect();
    assert_eq!(d, "1234");
    let h: String = hex_chars_u64(0x1f4).into_iter().collect();
    assert_eq!(h, "1f4");
    let h: String = hex_chars_u64(0).into_iter().collect();
    assert_eq!(h, "0");
    let h: String = hex_chars_u64(u64::MAX).into_iter().collect();
    assert_eq!(h, "ffffffffffffffff");
}

/// The full log text for a two-descriptor map, against the exact expected
/// rows.
#[test]
fn memory_map_log_rows() {
    let mut map = vec![0u8; 96];
    put_descriptor(&mut map, 0, 2, 0x0010_0000, 0x10, 0xF);
    put_descriptor(&mut map, 48, 7, 0x0020_0000, 0x1, 0x0);
    let report: String = memory_map_report(&map, 96, 48).into_iter().collect();
    let expected = "Index,\tType,\tType(name),\tPhysicalStart,\tNumberOfPages,\tAttribute\n\
                    0,\t0x2,\tEfiLoaderData,\t0x100000,\t0x10,\t0xf\n\
                    1,\t0x7,\tEfiConventionalMemory,\t0x200000,\t0x1,\t0x0\n";
    assert_eq!(report, expected);
}

#[test]
fn memory_map_log_empty() {
    let map = vec![0u8; 48];
    let report: String = memory_map_report(&map, 0, 48).into_iter().collect();
    assert_eq!(report, "Index,\tType,\tType(name),\tPhysicalStart,\tNumberOfPages,\tAttribute\n");
}
