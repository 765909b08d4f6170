use serseg::builder::{ExternalData, SerialBuilder, SerialSectorBuilder};
use serseg::error::SerialError;
use serseg::rounding::Rounding;
use serseg::u24::{U24, U24_MAX};

type Builder = SerialBuilder<ExampleSectorKey>;
type SectorBuilder = SerialSectorBuilder<ExampleSectorKey>;

#[derive(Debug, Clone, Hash, PartialEq, Eq)]
enum ExampleSectorKey {
    First,
    Second,
    Third,
}

#[test]
fn sector_string() {
    let expected = b"This is a test\x00";

    let output = Builder::default()
        .sector(
            ExampleSectorKey::First,
            SectorBuilder::default().string("This is a test"),
        )
        .build()
        .unwrap();

    assert_eq!(output, expected);
}

#[test]
fn sector_u24() {
    let expected = [0x12, 0x34, 0x56];

    let output = Builder::default()
        .sector(
            ExampleSectorKey::First,
            SectorBuilder::default().u24(U24::from_le_bytes([0x12, 0x34, 0x56])),
        )
        .build()
        .unwrap();

    assert_eq!(output, expected);
}

#[test]
fn sector_dynamic() {
    let expected = b"\xFF\x06\x00\x00\x13\x00\x00first string\x00second string\x00";

    let output = Builder::default()
        .sector(ExampleSectorKey::First, SectorBuilder::default().u8(0xFF))
        .sector(
            ExampleSectorKey::Second,
            SectorBuilder::default()
                .dynamic_u24(ExampleSectorKey::Second, ExampleSectorKey::Third, 0)
                .dynamic_u24(ExampleSectorKey::Second, ExampleSectorKey::Third, 1),
        )
        .sector(
            ExampleSectorKey::Third,
            SectorBuilder::default()
                .string("first string")
                .string("second string"),
        )
        .build()
        .unwrap();

    assert_eq!(output, expected);
}

#[test]
fn sector_fill() {
    let expected = [
        b'T', b'e', b's', b't', 0, 0, 0, 0, 0, 0, 0, 0, 0, 0, 0, 0, 0xFF,
    ];

    let output = Builder::default()
        .sector_default(ExampleSectorKey::First)
        .sector(
            ExampleSectorKey::Second,
            SectorBuilder::default()
                .string("Test")
                .fill(ExampleSectorKey::First, 16)
                .u8(0xFF),
        )
        .build()
        .unwrap();

    assert_eq!(output, expected);
}

#[test]
fn sector_fill_end() {
    // A trailing fill still pads with zeros: the emitted byte count always
    // equals the summed field sizes.
    let expected = [
        b'T', b'e', b's', b't', 0, 0, 0, 0, 0, 0, 0, 0, 0, 0, 0, 0,
    ];

    let output = Builder::default()
        .sector_default(ExampleSectorKey::First)
        .sector(
            ExampleSectorKey::Second,
            SectorBuilder::default()
                .string("Test")
                .fill(ExampleSectorKey::First, 16),
        )
        .build()
        .unwrap();

    assert_eq!(output, expected);
}

#[test]
fn sector_fill_overflow() {
    let result = Builder::default()
        .sector_default(ExampleSectorKey::First)
        .sector(
            ExampleSectorKey::Second,
            SectorBuilder::default()
                .string("Test")
                .fill(ExampleSectorKey::First, 2),
        )
        .build();

    assert!(result.is_err());
    assert!(matches!(
        result.unwrap_err(),
        SerialError::LayoutOverflow { value: 5, limit: 2 }
    ));
}

#[test]
fn sector_fill_zero_offset() {
    // A fill that is already at its target writes nothing.
    let expected = b"Test\x00\xAA";

    let output = Builder::default()
        .sector_default(ExampleSectorKey::First)
        .sector(
            ExampleSectorKey::Second,
            SectorBuilder::default()
                .string("Test")
                .fill(ExampleSectorKey::First, 5)
                .u8(0xAA),
        )
        .build()
        .unwrap();

    assert_eq!(output, expected);
}

#[test]
fn sector_replaced_on_repeated_key() {
    // Inserting the same key twice keeps the position but the later fields.
    let expected = [0x01, 0x02];

    let output = Builder::default()
        .sector(ExampleSectorKey::First, SectorBuilder::default().u32(7))
        .sector(ExampleSectorKey::Second, SectorBuilder::default().u8(0x02))
        .sector(ExampleSectorKey::First, SectorBuilder::default().u8(0x01))
        .build()
        .unwrap();

    assert_eq!(output, expected);
}

#[test]
fn integer_fields_little_endian() {
    let expected = [
        0x11, // u8
        0x22, 0x33, // u16
        0x44, 0x55, 0x66, // u24
        0x77, 0x88, 0x99, 0xAA, // u32
        0x01, 0x02, 0x03, 0x04, 0x05, 0x06, 0x07, 0x08, // u64
    ];

    let output = Builder::default()
        .sector(
            ExampleSectorKey::First,
            SectorBuilder::default()
                .u8(0x11)
                .u16(0x3322)
                .u24(U24::new(0x665544))
                .u32(0xAA998877)
                .u64(0x0807060504030201),
        )
        .build()
        .unwrap();

    assert_eq!(output, expected);
}

#[test]
fn signed_fields_two_complement() {
    let expected = [
        0xFF, // i8 -1
        0xFE, 0xFF, // i16 -2
        0xFD, 0xFF, 0xFF, 0xFF, // i32 -3
        0xFC, 0xFF, 0xFF, 0xFF, 0xFF, 0xFF, 0xFF, 0xFF, // i64 -4
    ];

    let output = Builder::default()
        .sector(
            ExampleSectorKey::First,
            SectorBuilder::default().i8(-1).i16(-2).i32(-3).i64(-4),
        )
        .build()
        .unwrap();

    assert_eq!(output, expected);
}

#[test]
fn null_fields_are_zero() {
    let expected = [0u8; 1 + 2 + 3 + 4 + 8];

    let output = Builder::default()
        .sector(
            ExampleSectorKey::First,
            SectorBuilder::default()
                .null_8()
                .null_16()
                .null_24()
                .null_32()
                .null_64(),
        )
        .build()
        .unwrap();

    assert_eq!(output, expected);
}

#[test]
fn bytes_field_raw() {
    let expected = [9, 8, 7];

    let output = Builder::default()
        .sector(
            ExampleSectorKey::First,
            SectorBuilder::default().bytes(vec![9, 8, 7]),
        )
        .build()
        .unwrap();

    assert_eq!(output, expected);
}

#[test]
fn dynamic_chunk_scales_offset() {
    // The target starts 4 bytes after the origin; in 2-byte chunks that is 2.
    let expected = [0x02, 0x00, 0xEE, 0xFF, 0xDD, 0xCC];

    let output = Builder::default()
        .sector(
            ExampleSectorKey::First,
            SectorBuilder::default()
                .dynamic_u16_chunk(ExampleSectorKey::First, ExampleSectorKey::Second, 0, 2)
                .u8(0xEE)
                .u8(0xFF),
        )
        .sector(
            ExampleSectorKey::Second,
            SectorBuilder::default().u8(0xDD).u8(0xCC),
        )
        .build()
        .unwrap();

    assert_eq!(output, expected);
}

#[test]
fn dynamic_rounding_policies() {
    // The target starts 3 bytes after the origin; in 2-byte chunks floor
    // gives 1, ceiling gives 2, and the parity rule on the odd offset 3
    // gives 2.
    let base = SectorBuilder::default();
    for (rounding, expected_value) in [
        (Rounding::Floor, 1u8),
        (Rounding::Ceiling, 2u8),
        (Rounding::Nearest, 2u8),
    ] {
        let output = Builder::default()
            .sector(
                ExampleSectorKey::First,
                base.clone()
                    .dynamic(
                        ExampleSectorKey::First,
                        ExampleSectorKey::Second,
                        0,
                        2,
                        rounding,
                        1,
                    )
                    .u16(0),
            )
            .sector(ExampleSectorKey::Second, SectorBuilder::default().u8(1))
            .build()
            .unwrap();
        assert_eq!(output, [expected_value, 0, 0, 1]);
    }
}

#[test]
fn rounding_floor_values() {
    assert_eq!(Rounding::Floor.apply(11, 3), 3);
    assert_eq!(Rounding::Floor.apply(10, 10), 1);
    assert_eq!(Rounding::Floor.apply(26, 5), 5);
}

#[test]
fn rounding_ceiling_values() {
    assert_eq!(Rounding::Ceiling.apply(11, 3), 4);
    assert_eq!(Rounding::Ceiling.apply(10, 10), 1);
    assert_eq!(Rounding::Ceiling.apply(26, 5), 6);
}

#[test]
fn rounding_nearest_values() {
    assert_eq!(Rounding::Nearest.apply(11, 3), 4);
    assert_eq!(Rounding::Nearest.apply(10, 10), 1);
    assert_eq!(Rounding::Nearest.apply(26, 5), 5);
}

#[test]
fn missing_sector_is_reported() {
    let result = Builder::default()
        .sector(
            ExampleSectorKey::First,
            SectorBuilder::default().dynamic_u24(
                ExampleSectorKey::First,
                ExampleSectorKey::Third,
                0,
            ),
        )
        .build();

    assert_eq!(
        result.unwrap_err(),
        SerialError::MissingSector(ExampleSectorKey::Third)
    );
}

#[test]
fn fill_origin_ahead_is_missing() {
    // During sizing only earlier sectors are known, so a fill whose origin
    // comes later is a missing sector.
    let result = Builder::default()
        .sector(
            ExampleSectorKey::First,
            SectorBuilder::default().fill(ExampleSectorKey::Second, 4),
        )
        .sector_default(ExampleSectorKey::Second)
        .build();

    assert_eq!(
        result.unwrap_err(),
        SerialError::MissingSector(ExampleSectorKey::Second)
    );
}

#[test]
fn ordering_violation_is_reported() {
    // The pointer's origin starts after its target.
    let result = Builder::default()
        .sector(ExampleSectorKey::First, SectorBuilder::default().u8(1))
        .sector(
            ExampleSectorKey::Second,
            SectorBuilder::default().dynamic_u16(
                ExampleSectorKey::Second,
                ExampleSectorKey::First,
                0,
            ),
        )
        .build();

    assert_eq!(
        result.unwrap_err(),
        SerialError::OrderingViolation {
            origin_start: 1,
            target_start: 0,
        }
    );
}

#[test]
fn index_out_of_range_is_reported() {
    let result = Builder::default()
        .sector(
            ExampleSectorKey::First,
            SectorBuilder::default().dynamic_u16(
                ExampleSectorKey::First,
                ExampleSectorKey::Second,
                2,
            ),
        )
        .sector(ExampleSectorKey::Second, SectorBuilder::default().u8(1))
        .build();

    assert_eq!(
        result.unwrap_err(),
        SerialError::IndexOutOfRange {
            length: 1,
            index: 2,
        }
    );
}

#[test]
fn index_zero_into_empty_sector_is_its_start() {
    // An empty sector can still be pointed at: it names a position.
    let expected = [0x02, 0x00, 0xAB];

    let output = Builder::default()
        .sector(
            ExampleSectorKey::First,
            SectorBuilder::default().dynamic_u16(
                ExampleSectorKey::First,
                ExampleSectorKey::Second,
                0,
            ),
        )
        .sector_default(ExampleSectorKey::Second)
        .sector(ExampleSectorKey::Third, SectorBuilder::default().u8(0xAB))
        .build()
        .unwrap();

    assert_eq!(output, expected);
}

#[test]
fn unsupported_width_is_reported() {
    let result = Builder::default()
        .sector(
            ExampleSectorKey::First,
            SectorBuilder::default().dynamic(
                ExampleSectorKey::First,
                ExampleSectorKey::First,
                0,
                1,
                Rounding::Floor,
                7,
            ),
        )
        .build();

    assert_eq!(result.unwrap_err(), SerialError::UnsupportedWidth { bytes: 7 });
}

#[test]
fn pointer_exceeding_width_is_reported() {
    // A one-byte pointer cannot reach offset 256.
    let result = Builder::default()
        .sector(
            ExampleSectorKey::First,
            SectorBuilder::default()
                .dynamic_u8(ExampleSectorKey::First, ExampleSectorKey::Second, 0)
                .bytes(vec![0; 255]),
        )
        .sector(ExampleSectorKey::Second, SectorBuilder::default().u8(1))
        .build();

    assert_eq!(
        result.unwrap_err(),
        SerialError::LayoutOverflow {
            value: 256,
            limit: 255,
        }
    );
}

#[test]
fn external_data_round_trip() {
    let expected = [0xAA, 1, 2, 3];

    let externals = vec![ExternalData {
        path: "blob.bin".to_string(),
        data: vec![1, 2, 3],
    }];
    let output = Builder::default()
        .sector(
            ExampleSectorKey::First,
            SectorBuilder::default()
                .u8(0xAA)
                .external("blob.bin".to_string(), 3),
        )
        .build_with_externals(&externals)
        .unwrap();

    assert_eq!(output, expected);
}

#[test]
fn external_size_mismatch_is_reported() {
    let externals = vec![ExternalData {
        path: "blob.bin".to_string(),
        data: vec![1, 2],
    }];
    let result = Builder::default()
        .sector(
            ExampleSectorKey::First,
            SectorBuilder::default().external("blob.bin".to_string(), 3),
        )
        .build_with_externals(&externals);

    assert_eq!(
        result.unwrap_err(),
        SerialError::ExternalMismatch {
            path: "blob.bin".to_string(),
            expected: 3,
            found: 2,
        }
    );
}

#[test]
fn external_missing_is_reported() {
    let result = Builder::default()
        .sector(
            ExampleSectorKey::First,
            SectorBuilder::default().external("blob.bin".to_string(), 3),
        )
        .build();

    assert_eq!(
        result.unwrap_err(),
        SerialError::ExternalMissing {
            path: "blob.bin".to_string(),
        }
    );
}

#[test]
fn oversized_layout_is_reported() {
    let result = Builder::default()
        .sector(
            ExampleSectorKey::First,
            SectorBuilder::default()
                .external("huge.bin".to_string(), usize::MAX)
                .u8(1),
        )
        .build();

    assert_eq!(result.unwrap_err(), SerialError::SizeOverflow);
}

#[test]
fn error_descriptions_are_nonempty() {
    let errors: Vec<SerialError<ExampleSectorKey>> = vec![
        SerialError::LayoutUnderflow {
            position: 1,
            origin_start: 2,
        },
        SerialError::LayoutOverflow { value: 3, limit: 2 },
        SerialError::MissingSector(ExampleSectorKey::First),
        SerialError::OrderingViolation {
            origin_start: 2,
            target_start: 1,
        },
        SerialError::IndexOutOfRange {
            length: 1,
            index: 2,
        },
        SerialError::UnsupportedWidth { bytes: 9 },
        SerialError::ExternalMismatch {
            path: "p".to_string(),
            expected: 1,
            found: 2,
        },
        SerialError::ExternalMissing {
            path: "p".to_string(),
        },
        SerialError::SizeOverflow,
    ];
    for error in errors {
        assert!(!error.describe().is_empty());
    }
}

#[test]
fn u24_value_round_trip() {
    let value = U24::new(0x00ABCDEF);
    assert_eq!(value.value(), 0x00ABCDEF);
    assert_eq!(value.to_le_bytes(), [0xEF, 0xCD, 0xAB]);
    assert_eq!(U24::from_le_bytes([0xEF, 0xCD, 0xAB]), value);
    assert_eq!(U24::checked_from_u32(0x00ABCDEF), Some(value));
    assert_eq!(U24::checked_from_u32(U24_MAX + 1), None);
}

#[test]
fn tracker_caches_sector_starts() {
    let builder = Builder::default()
        .sector(ExampleSectorKey::First, SectorBuilder::default().u8(0xFF))
        .sector(
            ExampleSectorKey::Second,
            SectorBuilder::default().string("Test"),
        )
        .sector(ExampleSectorKey::Third, SectorBuilder::default().u16(7));
    let tracker = serseg::tracker::SerialTracker::new(&builder).unwrap();

    assert_eq!(
        tracker.offset_from_origin(&ExampleSectorKey::First).unwrap(),
        0
    );
    assert_eq!(
        tracker
            .offset_from_origin(&ExampleSectorKey::Second)
            .unwrap(),
        1
    );
    assert_eq!(
        tracker.offset_from_origin(&ExampleSectorKey::Third).unwrap(),
        6
    );
}

#[test]
fn tracker_resolves_field_offsets() {
    let builder = Builder::default()
        .sector(ExampleSectorKey::First, SectorBuilder::default().u8(0xFF))
        .sector(
            ExampleSectorKey::Second,
            SectorBuilder::default().string("first string").u32(9),
        );
    let tracker = serseg::tracker::SerialTracker::new(&builder).unwrap();

    // From the start of the first sector to the second sector's second
    // field: one byte, then the 13 bytes of the terminated string.
    assert_eq!(
        tracker
            .offset_field_from_sector(
                &ExampleSectorKey::First,
                &ExampleSectorKey::Second,
                1,
                &builder,
                &tracker,
            )
            .unwrap(),
        14
    );
    assert_eq!(
        tracker
            .offset_field_from_sector(
                &ExampleSectorKey::Second,
                &ExampleSectorKey::Second,
                0,
                &builder,
                &tracker,
            )
            .unwrap(),
        0
    );
}

#[test]
fn external_first_match_wins() {
    let externals = vec![
        ExternalData {
            path: "blob.bin".to_string(),
            data: vec![1, 2],
        },
        ExternalData {
            path: "blob.bin".to_string(),
            data: vec![9, 9, 9],
        },
    ];
    let output = Builder::default()
        .sector(
            ExampleSectorKey::First,
            SectorBuilder::default().external("blob.bin".to_string(), 2),
        )
        .build_with_externals(&externals)
        .unwrap();

    assert_eq!(output, [1, 2]);
}

#[test]
fn dynamic_widths_one_and_four_bytes() {
    // The same target offset written as a one-byte and a four-byte pointer.
    let expected = [0x05, 0x05, 0x00, 0x00, 0x00, 0x77];

    let output = Builder::default()
        .sector(
            ExampleSectorKey::First,
            SectorBuilder::default()
                .dynamic_u8(ExampleSectorKey::First, ExampleSectorKey::Second, 0)
                .dynamic_u32(ExampleSectorKey::First, ExampleSectorKey::Second, 0),
        )
        .sector(ExampleSectorKey::Second, SectorBuilder::default().u8(0x77))
        .build()
        .unwrap();

    assert_eq!(output, expected);
}
