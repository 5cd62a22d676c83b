//! Compression algorithms, their names, and compressing one file's bytes
//! into an archive that holds it under a chosen name.

use vstd::prelude::*;
use crate::text::{decimal_digits, format_u64, str_equals};
use vstd::string::StringSliceAdditionalSpecFns;

verus! {

/// Supported compression algorithms.
#[derive(Debug, Clone, Copy, PartialEq, Eq, Structural)]
pub enum Algorithm {
    SevenZ,
    Zip,
}

/// The file extension of archives made with `a`; it is also the name by
/// which the algorithm is written and read.
pub open spec fn extension_spec(a: Algorithm) -> Seq<char> {
    match a {
        Algorithm::SevenZ => "7z"@,
        Algorithm::Zip => "zip"@,
    }
}

/// The MIME type of archives made with `a`.
pub open spec fn media_type_spec(a: Algorithm) -> Seq<char> {
    match a {
        Algorithm::SevenZ => "application/x-7z-compressed"@,
        Algorithm::Zip => "application/zip"@,
    }
}

/// What reading an algorithm's name gives: the algorithm, or the message
/// `Unknown algorithm: <name>`.
pub open spec fn parse_algorithm_spec(s: Seq<char>) -> Result<Algorithm, Seq<char>> {
    if s == "7z"@ {
        Ok(Algorithm::SevenZ)
    } else if s == "zip"@ {
        Ok(Algorithm::Zip)
    } else {
        Err("Unknown algorithm: "@ + s)
    }
}

impl Algorithm {
    /// File extension for archives produced by this algorithm.
    pub fn extension(&self) -> (r: &'static str)
        ensures
            r@ == extension_spec(*self),
    {
        match self {
            Algorithm::SevenZ => "7z",
            Algorithm::Zip => "zip",
        }
    }

    /// MIME type for archives produced by this algorithm.
    pub fn media_type(&self) -> (r: &'static str)
        ensures
            r@ == media_type_spec(*self),
    {
        match self {
            Algorithm::SevenZ => "application/x-7z-compressed",
            Algorithm::Zip => "application/zip",
        }
    }

    /// The algorithm's name as it is displayed: its extension.
    pub fn to_string(&self) -> (r: String)
        ensures
            r@ == extension_spec(*self),
    {
        self.extension().to_owned()
    }

    /// Reads an algorithm from its name (`7z` or `zip`).
    pub fn parse_name(s: &str) -> (r: Result<Algorithm, String>)
        ensures
            match r {
                Ok(a) => parse_algorithm_spec(s@) == Ok::<Algorithm, Seq<char>>(a),
                Err(m) => parse_algorithm_spec(s@) == Err::<Algorithm, Seq<char>>(m@),
            },
    {
        proof {
            reveal_strlit("7z");
            reveal_strlit("zip");
            reveal_strlit("Unknown algorithm: ");
        }
        if str_equals(s, "7z") {
            Ok(Algorithm::SevenZ)
        } else if str_equals(s, "zip") {
            Ok(Algorithm::Zip)
        } else {
            let mut m = "Unknown algorithm: ".to_owned();
            m.append(s);
            Err(m)
        }
    }
}

impl core::str::FromStr for Algorithm {
    type Err = String;

    fn from_str(s: &str) -> (r: Result<Algorithm, String>)
        ensures
            match r {
                Ok(a) => parse_algorithm_spec(s@) == Ok::<Algorithm, Seq<char>>(a),
                Err(m) => parse_algorithm_spec(s@) == Err::<Algorithm, Seq<char>>(m@),
            },
    {
        Algorithm::parse_name(s)
    }
}

/// Errors that can occur during compression.
#[derive(Debug)]
pub enum CompressionError {
    Io(String),
    Failed(String),
    InvalidLevel(u32),
}

/// The message of a compression error.
pub open spec fn compression_error_message(e: CompressionError) -> Seq<char> {
    match e {
        CompressionError::Io(m) => "IO error: "@ + m@,
        CompressionError::Failed(m) => "Compression failed: "@ + m@,
        CompressionError::InvalidLevel(n) => "Invalid compression level: "@ + decimal_digits(n as nat)
            + ". Must be between 1 and 5."@,
    }
}

impl CompressionError {
    /// The message that describes this error.
    pub fn to_string(&self) -> (r: String)
        ensures
            r@ == compression_error_message(*self),
    {
        match self {
            CompressionError::Io(m) => {
                let mut r = "IO error: ".to_owned();
                r.append(m.as_str());
                r
            },
            CompressionError::Failed(m) => {
                let mut r = "Compression failed: ".to_owned();
                r.append(m.as_str());
                r
            },
            CompressionError::InvalidLevel(n) => {
                let mut r = "Invalid compression level: ".to_owned();
                let digits = format_u64(*n as u64);
                r.append(digits.as_str());
                r.append(". Must be between 1 and 5.");
                r
            },
        }
    }
}

/// Levels accepted by the API: 1 (fastest) to 5 (smallest).
pub open spec fn level_in_range(level: u32) -> bool {
    1 <= level <= 5
}

/// Checks that a compression level lies between 1 and 5.
pub fn check_level(level: u32) -> (r: Result<(), CompressionError>)
    ensures
        level_in_range(level) ==> r is Ok,
        !level_in_range(level) ==> r == Err::<(), CompressionError>(CompressionError::InvalidLevel(level)),
{
    if 1 <= level && level <= 5 {
        Ok(())
    } else {
        Err(CompressionError::InvalidLevel(level))
    }
}

/// The Deflate level used for an API level: 1, 3, 5, 7, 9 for levels 1 to 5.
pub open spec fn deflate_level_spec(level: u32) -> int {
    2 * level - 1
}

/// Maps an API level (1–5) to the Deflate level (1–9).
pub fn zip_deflate_level(level: u32) -> (r: i64)
    requires
        level_in_range(level),
    ensures
        r == deflate_level_spec(level),
{
    2 * (level as i64) - 1
}

/// The most data (2 GiB) for which writing a ZIP archive is sure to succeed.
pub open spec fn zip_small_enough() -> nat {
    2147483648
}

/// The bytes of a ZIP archive that holds `data` as its one entry, named
/// `entry_name` and compressed with Deflate at `deflate_level`, as the `zip`
/// crate writes it; or the failure it reports (`true` when it came from
/// writing the data, `false` from opening or closing the entry).
pub uninterp spec fn deflated_zip_archive(data: Seq<u8>, entry_name: Seq<char>, deflate_level: int) -> Result<Seq<u8>, (bool, Seq<char>)>;

/// Writes a one-entry ZIP archive in memory with `zip::ZipWriter`
/// (`start_file` with Deflate at the given level, `write_all`, `finish`).
/// The contract claims that the outcome is the one `deflated_zip_archive`
/// names for these arguments (the crate is built without its `time` feature,
/// so the entry's timestamp is the fixed default and nothing else varies),
/// and that it succeeds for a Deflate level from 1 to 9 and at most 2 GiB of
/// data: writing to memory cannot fail, and the crate refuses only entries
/// whose sizes exceed 32 bits without its large-file option, which Deflate
/// (falling back to stored blocks of at most 5 bytes' overhead) stays far
/// below at that size.
#[verifier::external_body]
fn write_deflated_zip(data: &[u8], entry_name: &str, deflate_level: i64) -> (r: Result<Vec<u8>, (bool, String)>)
    requires
        zip_entry_name_fits(entry_name@),
    ensures
        1 <= deflate_level <= 9 && data@.len() <= zip_small_enough() ==> r is Ok,
        match r {
            Ok(bytes) => deflated_zip_archive(data@, entry_name@, deflate_level as int) == Ok::<Seq<u8>, (bool, Seq<char>)>(bytes@),
            Err((io, m)) => deflated_zip_archive(data@, entry_name@, deflate_level as int) == Err::<Seq<u8>, (bool, Seq<char>)>((io, m@)),
        },
{
    let mut writer = zip::ZipWriter::new(std::io::Cursor::new(Vec::new()));
    let options = zip::write::SimpleFileOptions::default()
        .compression_method(zip::CompressionMethod::Deflated)
        .compression_level(Some(deflate_level));
    writer.start_file(entry_name, options).map_err(|e| (false, e.to_string()))?;
    std::io::Write::write_all(&mut writer, data).map_err(|e| (true, e.to_string()))?;
    let cursor = writer.finish().map_err(|e| (false, e.to_string()))?;
    Ok(cursor.into_inner())
}

/// A compression error as a mathematical value.
pub enum CompressionFailure {
    Io(Seq<char>),
    Failed(Seq<char>),
    InvalidLevel(u32),
}

impl View for CompressionError {
    type V = CompressionFailure;

    open spec fn view(&self) -> CompressionFailure {
        match self {
            CompressionError::Io(m) => CompressionFailure::Io(m@),
            CompressionError::Failed(m) => CompressionFailure::Failed(m@),
            CompressionError::InvalidLevel(n) => CompressionFailure::InvalidLevel(*n),
        }
    }
}

/// A compression outcome as a mathematical value.
pub open spec fn outcome_view(r: Result<Vec<u8>, CompressionError>) -> Result<Seq<u8>, CompressionFailure> {
    match r {
        Ok(v) => Ok(v@),
        Err(e) => Err(e@),
    }
}

/// What compressing `data` as a ZIP archive gives, in the library's terms:
/// a write failure is an I/O error, any other failure a compression failure.
pub open spec fn zip_outcome(data: Seq<u8>, arcname: Seq<char>, level: u32) -> Result<Seq<u8>, CompressionFailure> {
    match deflated_zip_archive(data, arcname, deflate_level_spec(level)) {
        Ok(bytes) => Ok(bytes),
        Err((true, m)) => Err(CompressionFailure::Io(m)),
        Err((false, m)) => Err(CompressionFailure::Failed(m)),
    }
}

/// A ZIP entry name must fit in 65535 bytes of UTF-8 (its length is a
/// 16-bit field; the `zip` crate panics on a longer one).
pub open spec fn zip_entry_name_fits(name: Seq<char>) -> bool {
    vstd::utf8::encode_utf8(name).len() <= 65535
}

/// Whether `name` can name a ZIP entry.
pub fn zip_entry_name_ok(name: &str) -> (r: bool)
    ensures
        r == zip_entry_name_fits(name@),
{
    let bytes = name.as_bytes();
    assert(bytes@ == name.spec_bytes());
    bytes.len() <= 65535
}

/// Compresses `data` into a ZIP archive under `arcname`; the level (1–5)
/// selects Deflate levels 1, 3, 5, 7 or 9.
pub fn compress_zip(data: &[u8], arcname: &str, level: u32) -> (r: Result<Vec<u8>, CompressionError>)
    requires
        level_in_range(level),
        zip_entry_name_fits(arcname@),
    ensures
        outcome_view(r) == zip_outcome(data@, arcname@, level),
        data@.len() <= zip_small_enough() ==> r is Ok,
{
    let deflate_level = zip_deflate_level(level);
    match write_deflated_zip(data, arcname, deflate_level) {
        Ok(bytes) => Ok(bytes),
        Err((io, m)) => {
            if io {
                Err(CompressionError::Io(m))
            } else {
                Err(CompressionError::Failed(m))
            }
        },
    }
}

/// The LZMA2 preset used for an API level: 1, 3, 5, 7, 9 for levels 1 to 5.
pub open spec fn sevenz_preset_spec(level: u32) -> int {
    2 * level - 1
}

/// Maps an API level (1–5) to the LZMA2 preset (1–9).
pub fn sevenz_preset(level: u32) -> (r: u32)
    requires
        level_in_range(level),
    ensures
        r == sevenz_preset_spec(level),
{
    2 * level - 1
}

/// The bytes of a 7z archive that holds `data` as its one file entry, named
/// `entry_name` and compressed with LZMA2 at `preset`, as the `sevenz-rust2`
/// crate writes it; or the message of the failure it reports.
pub uninterp spec fn lzma2_7z_archive(data: Seq<u8>, entry_name: Seq<char>, preset: int) -> Result<Seq<u8>, Seq<char>>;

/// Writes a one-entry 7z archive in memory with `sevenz_rust2::ArchiveWriter`
/// (`new`, LZMA2 at the given preset as the content method,
/// `push_archive_entry` of `ArchiveEntry::new_file`, `finish`). The contract
/// claims only that the outcome is the one `lzma2_7z_archive` names for these
/// arguments: the entry carries no timestamps and is not encrypted, so
/// nothing else varies.
#[verifier::external_body]
fn write_lzma2_7z(data: &[u8], entry_name: &str, preset: u32) -> (r: Result<Vec<u8>, String>)
    ensures
        match r {
            Ok(bytes) => lzma2_7z_archive(data@, entry_name@, preset as int) == Ok::<Seq<u8>, Seq<char>>(bytes@),
            Err(m) => lzma2_7z_archive(data@, entry_name@, preset as int) == Err::<Seq<u8>, Seq<char>>(m@),
        },
{
    let cursor = std::io::Cursor::new(Vec::new());
    let mut writer = sevenz_rust2::ArchiveWriter::new(cursor).map_err(|e| e.to_string())?;
    writer.set_content_methods(vec![sevenz_rust2::encoder_options::Lzma2Options::from_level(preset).into()]);
    writer
        .push_archive_entry(sevenz_rust2::ArchiveEntry::new_file(entry_name), Some(data))
        .map_err(|e| e.to_string())?;
    let cursor = writer.finish().map_err(|e| e.to_string())?;
    Ok(cursor.into_inner())
}

/// What compressing `data` as a 7z archive gives, in the library's terms:
/// any failure is a compression failure.
pub open spec fn sevenz_outcome(data: Seq<u8>, arcname: Seq<char>, level: u32) -> Result<Seq<u8>, CompressionFailure> {
    match lzma2_7z_archive(data, arcname, sevenz_preset_spec(level)) {
        Ok(bytes) => Ok(bytes),
        Err(m) => Err(CompressionFailure::Failed(m)),
    }
}

/// Compresses `data` into a 7z (LZMA2) archive under `arcname`; the level
/// (1–5) selects LZMA2 presets 1, 3, 5, 7 or 9.
pub fn compress_7z(data: &[u8], arcname: &str, level: u32) -> (r: Result<Vec<u8>, CompressionError>)
    requires
        level_in_range(level),
    ensures
        outcome_view(r) == sevenz_outcome(data@, arcname@, level),
{
    let preset = sevenz_preset(level);
    match write_lzma2_7z(data, arcname, preset) {
        Ok(bytes) => Ok(bytes),
        Err(m) => Err(CompressionError::Failed(m)),
    }
}

/// What compressing gives: a level outside 1–5 is refused first; then the
/// algorithm decides.
pub open spec fn compress_outcome(data: Seq<u8>, arcname: Seq<char>, algorithm: Algorithm, level: u32) -> Result<Seq<u8>, CompressionFailure> {
    if !level_in_range(level) {
        Err(CompressionFailure::InvalidLevel(level))
    } else {
        match algorithm {
            Algorithm::Zip => zip_outcome(data, arcname, level),
            Algorithm::SevenZ => sevenz_outcome(data, arcname, level),
        }
    }
}

/// Compress `data` with the given algorithm and level (1–5); the archive
/// holds it under `arcname`.
pub fn compress(data: &[u8], arcname: &str, algorithm: Algorithm, level: u32) -> (r: Result<Vec<u8>, CompressionError>)
    requires
        level_in_range(level) && algorithm == Algorithm::Zip ==> zip_entry_name_fits(arcname@),
    ensures
        outcome_view(r) == compress_outcome(data@, arcname@, algorithm, level),
        level_in_range(level) && algorithm == Algorithm::Zip && data@.len() <= zip_small_enough() ==> r is Ok,
{
    if !(1 <= level && level <= 5) {
        return Err(CompressionError::InvalidLevel(level));
    }
    match algorithm {
        Algorithm::SevenZ => compress_7z(data, arcname, level),
        Algorithm::Zip => compress_zip(data, arcname, level),
    }
}

/// Higher API levels select strictly higher Deflate levels and LZMA2
/// presets, all between 1 and 9, and both algorithms use the same number.
pub proof fn lemma_deflate_levels_increase(a: u32, b: u32)
    requires
        level_in_range(a),
        level_in_range(b),
        a < b,
    ensures
        1 <= deflate_level_spec(a) < deflate_level_spec(b) <= 9,
        1 <= sevenz_preset_spec(a) < sevenz_preset_spec(b) <= 9,
        deflate_level_spec(a) == sevenz_preset_spec(a),
{
}

/// An algorithm's displayed name reads back as the same algorithm.
pub proof fn lemma_algorithm_name_roundtrip(a: Algorithm)
    ensures
        parse_algorithm_spec(extension_spec(a)) == Ok::<Algorithm, Seq<char>>(a),
{
    reveal_strlit("7z");
    reveal_strlit("zip");
    assert("7z"@ != "zip"@) by {
        assert("7z"@.len() != "zip"@.len());
    }
}

} // verus!
