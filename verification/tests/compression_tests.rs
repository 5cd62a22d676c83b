use std::io::Read;

use collapse::compression::{
    check_level, compress, compress_7z, compress_zip, sevenz_preset, zip_deflate_level, zip_entry_name_ok,
    Algorithm, CompressionError,
};

#[test]
fn algorithm_display() {
    assert_eq!(Algorithm::SevenZ.to_string(), "7z");
    assert_eq!(Algorithm::Zip.to_string(), "zip");
}

#[test]
fn algorithm_from_str() {
    assert_eq!("7z".parse::<Algorithm>().unwrap(), Algorithm::SevenZ);
    assert_eq!("zip".parse::<Algorithm>().unwrap(), Algorithm::Zip);
    assert!("invalid".parse::<Algorithm>().is_err());
}

#[test]
fn algorithm_extension() {
    assert_eq!(Algorithm::SevenZ.extension(), "7z");
    assert_eq!(Algorithm::Zip.extension(), "zip");
}

#[test]
fn algorithm_media_type() {
    assert_eq!(
        Algorithm::SevenZ.media_type(),
        "application/x-7z-compressed"
    );
    assert_eq!(Algorithm::Zip.media_type(), "application/zip");
}

#[test]
fn compress_invalid_level_zero() {
    let result = compress(b"", "f", Algorithm::Zip, 0);
    assert!(matches!(result, Err(CompressionError::InvalidLevel(0))));
}

#[test]
fn compress_invalid_level_six() {
    let result = compress(b"", "f", Algorithm::Zip, 6);
    assert!(matches!(result, Err(CompressionError::InvalidLevel(6))));
}

#[test]
fn algorithm_name_reads_back() {
    for a in [Algorithm::SevenZ, Algorithm::Zip] {
        assert_eq!(Algorithm::parse_name(&a.to_string()).unwrap(), a);
    }
}

#[test]
fn unknown_algorithm_message() {
    assert_eq!(Algorithm::parse_name("rar").unwrap_err(), "Unknown algorithm: rar");
    assert_eq!(Algorithm::parse_name("").unwrap_err(), "Unknown algorithm: ");
    assert!(Algorithm::parse_name("ZIP").is_err());
}

#[test]
fn deflate_levels_follow_the_table() {
    let expected = [1i64, 3, 5, 7, 9];
    for level in 1..=5u32 {
        assert_eq!(zip_deflate_level(level), expected[(level - 1) as usize]);
    }
}

#[test]
fn check_level_bounds() {
    assert!(check_level(1).is_ok());
    assert!(check_level(5).is_ok());
    assert!(matches!(check_level(0), Err(CompressionError::InvalidLevel(0))));
    assert!(matches!(check_level(6), Err(CompressionError::InvalidLevel(6))));
    assert!(matches!(check_level(u32::MAX), Err(CompressionError::InvalidLevel(u32::MAX))));
}

#[test]
fn error_messages() {
    assert_eq!(
        CompressionError::InvalidLevel(7).to_string(),
        "Invalid compression level: 7. Must be between 1 and 5."
    );
    assert_eq!(CompressionError::Failed("boom".into()).to_string(), "Compression failed: boom");
    assert_eq!(CompressionError::Io("gone".into()).to_string(), "IO error: gone");
}

const SAMPLE: &[u8] = b"Hello, Collapse! Hello, Collapse! Hello, Collapse! ";

fn read_entry(archive: Vec<u8>, name: &str) -> Vec<u8> {
    let mut ar = zip::ZipArchive::new(std::io::Cursor::new(archive)).unwrap();
    let mut entry = ar.by_name(name).unwrap();
    let mut buf = Vec::new();
    entry.read_to_end(&mut buf).unwrap();
    buf
}

#[test]
fn zip_archive_holds_the_data_under_its_name() {
    for level in 1..=5 {
        let bytes = compress_zip(SAMPLE, "my_original.txt", level).unwrap();
        assert_eq!(&bytes[0..4], b"PK\x03\x04");
        assert_eq!(read_entry(bytes, "my_original.txt"), SAMPLE);
    }
}

#[test]
fn compress_zip_roundtrip() {
    let bytes = compress(b"Hello, Collapse!", "hello.txt", Algorithm::Zip, 1).unwrap();
    assert_eq!(read_entry(bytes, "hello.txt"), b"Hello, Collapse!");
}

#[test]
fn zip_succeeds_on_empty_and_small_data() {
    for level in 1..=5 {
        assert!(compress(b"", "empty.txt", Algorithm::Zip, level).is_ok());
        assert!(compress_zip(&vec![7u8; 100_000], "big.bin", level).is_ok());
    }
}

#[test]
fn zip_output_is_not_the_input() {
    let bytes = compress(SAMPLE, "sample.txt", Algorithm::Zip, 3).unwrap();
    assert_ne!(bytes, SAMPLE.to_vec());
}

fn read_7z_entry(archive: Vec<u8>, name: &str) -> Vec<u8> {
    let mut reader =
        sevenz_rust2::ArchiveReader::new(std::io::Cursor::new(archive), sevenz_rust2::Password::empty()).unwrap();
    reader.read_file(name).unwrap()
}

#[test]
fn sevenz_archive_holds_the_data_under_its_name() {
    for level in 1..=5 {
        let bytes = compress(SAMPLE, "sample.txt", Algorithm::SevenZ, level).unwrap();
        assert_eq!(&bytes[0..6], b"7z\xbc\xaf\x27\x1c");
        assert_eq!(read_7z_entry(bytes, "sample.txt"), SAMPLE);
    }
    let bytes = compress_7z(b"binary data", "data.bin", 3).unwrap();
    assert_eq!(read_7z_entry(bytes, "data.bin"), b"binary data");
}

#[test]
fn sevenz_checks_the_level_first() {
    assert!(matches!(
        compress(SAMPLE, "s", Algorithm::SevenZ, 9),
        Err(CompressionError::InvalidLevel(9))
    ));
}

#[test]
fn presets_follow_the_table() {
    let expected = [1u32, 3, 5, 7, 9];
    for level in 1..=5u32 {
        assert_eq!(sevenz_preset(level), expected[(level - 1) as usize]);
    }
}

#[test]
fn zip_entry_name_limit() {
    assert!(zip_entry_name_ok("sample.txt"));
    assert!(zip_entry_name_ok(&"a".repeat(65535)));
    assert!(!zip_entry_name_ok(&"a".repeat(65536)));
    assert!(!zip_entry_name_ok(&"é".repeat(32768)));
}
