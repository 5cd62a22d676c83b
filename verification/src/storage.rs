//! Where uploaded files and archives are kept: the paths the storage hands
//! out. Reading and writing the files is the caller's part.

use vstd::prelude::*;
use crate::compression::{Algorithm, extension_spec};
use crate::paths::{
    join_path, join_spec, lacks, lemma_joined_extension, lemma_path_extension_plain, path_extension,
    path_extension_of,
};

verus! {

/// A lower-case hexadecimal digit.
pub open spec fn is_lower_hex(c: char) -> bool {
    ('0' <= c && c <= '9') || ('a' <= c && c <= 'f')
}

/// The simple form of a UUID: 32 lower-case hexadecimal digits.
pub open spec fn is_simple_uuid(s: Seq<char>) -> bool {
    s.len() == 32 && forall|i: int| 0 <= i < s.len() ==> is_lower_hex(#[trigger] s[i])
}

/// A fresh random identifier: `uuid::Uuid::new_v4().simple().to_string()`.
/// The contract claims only the documented form of the simple encoding
/// (32 lower-case hexadecimal digits); which value comes out is chance.
#[verifier::external_body]
pub(crate) fn new_simple_uuid() -> (r: String)
    ensures
        is_simple_uuid(r@),
{
    uuid::Uuid::new_v4().simple().to_string()
}

/// The chunk size in which uploaded data is written: 1 MiB.
pub open spec fn chunk_size_spec() -> nat {
    1048576
}

/// The suffix an uploaded file keeps: a dot and the extension of its name,
/// or nothing.
pub open spec fn input_suffix(filename: Seq<char>) -> Seq<char> {
    match path_extension(filename) {
        Some(e) => seq!['.'] + e,
        None => Seq::<char>::empty(),
    }
}

proof fn lemma_uuid_plain(token: Seq<char>)
    requires
        is_simple_uuid(token),
    ensures
        token.len() > 0,
        lacks(token, '/'),
        lacks(token, '.'),
{
    assert forall|i: int| 0 <= i < token.len() implies #[trigger] token[i] != '/' && token[i] != '.' by {
        assert(is_lower_hex(token[i]));
    }
}

/// An upload is stored under a path with the same extension as its file
/// name (or none when the name has none), whatever the directory.
pub proof fn lemma_upload_keeps_extension(dir: Seq<char>, token: Seq<char>, filename: Seq<char>)
    requires
        is_simple_uuid(token),
    ensures
        path_extension(join_spec(dir, token + input_suffix(filename))) == path_extension(filename),
{
    lemma_uuid_plain(token);
    lemma_path_extension_plain(filename);
    lemma_joined_extension(dir, token, path_extension(filename));
}

/// An archive's path has the algorithm's extension.
pub proof fn lemma_archive_path_extension(dir: Seq<char>, job_id: Seq<char>, algorithm: Algorithm)
    requires
        is_simple_uuid(job_id),
    ensures
        path_extension(join_spec(dir, job_id + seq!['.'] + extension_spec(algorithm))) == Some(extension_spec(algorithm)),
{
    reveal_strlit("7z");
    reveal_strlit("zip");
    lemma_uuid_plain(job_id);
    let e = extension_spec(algorithm);
    assert(lacks(e, '/') && lacks(e, '.'));
    lemma_joined_extension(dir, job_id, Some(e));
    assert(job_id + seq!['.'] + e =~= job_id + (seq!['.'] + e));
}

/// Stores files on the local filesystem.
pub struct FilesystemStorage {
    input_dir: String,
    output_dir: String,
    chunk_size: usize,
}

impl FilesystemStorage {
    /// A storage that keeps uploads under `input_dir` and archives under
    /// `output_dir`.
    pub fn new(input_dir: String, output_dir: String) -> (r: Self)
        ensures
            r.input_dir() == input_dir,
            r.output_dir() == output_dir,
            r.chunk_size() == chunk_size_spec(),
    {
        FilesystemStorage { input_dir, output_dir, chunk_size: 1024 * 1024 }
    }

    /// The directory of uploaded files.
    pub closed spec fn input_dir(&self) -> String {
        self.input_dir
    }

    /// The directory of archives.
    pub closed spec fn output_dir(&self) -> String {
        self.output_dir
    }

    /// The size of the chunks in which data is written.
    pub closed spec fn chunk_size(&self) -> nat {
        self.chunk_size as nat
    }

    /// The directory of uploaded files.
    pub fn input_dir_path(&self) -> (r: &str)
        ensures
            r@ == self.input_dir()@,
    {
        self.input_dir.as_str()
    }

    /// The directory of archives.
    pub fn output_dir_path(&self) -> (r: &str)
        ensures
            r@ == self.output_dir()@,
    {
        self.output_dir.as_str()
    }

    /// The size of the chunks in which data is written.
    pub fn write_chunk_size(&self) -> (r: usize)
        ensures
            r == self.chunk_size(),
    {
        self.chunk_size
    }

    /// The path under which an upload named `filename` is kept, given the
    /// identifier `token`: `<input_dir>/<token><.ext>`.
    pub fn input_path_for(&self, token: &str, filename: &str) -> (r: String)
        ensures
            r@ == join_spec(self.input_dir()@, token@ + input_suffix(filename@)),
    {
        let mut name = token.to_owned();
        match path_extension_of(filename) {
            Some(e) => {
                name.append(".");
                name.append(e.as_str());
                proof {
                    reveal_strlit(".");
                    assert(name@ =~= token@ + input_suffix(filename@));
                }
            },
            None => {
                assert(name@ =~= token@ + input_suffix(filename@));
            },
        }
        join_path(self.input_dir.as_str(), name.as_str())
    }

    /// Generate a unique path for storing an uploaded file: a fresh UUID
    /// followed by the extension of `filename`, under the input directory.
    pub fn build_input_path(&self, filename: &str) -> (r: String)
        ensures
            exists|token: Seq<char>| is_simple_uuid(token)
                && r@ == join_spec(self.input_dir()@, token + input_suffix(filename@)),
    {
        let token = new_simple_uuid();
        self.input_path_for(token.as_str(), filename)
    }

    /// Generate the output path for a compressed archive:
    /// `<output_dir>/<job_id>.<extension>`.
    pub fn build_output_path(&self, job_id: &str, algorithm: Algorithm) -> (r: String)
        ensures
            r@ == join_spec(self.output_dir()@, job_id@ + seq!['.'] + extension_spec(algorithm)),
    {
        let mut name = job_id.to_owned();
        name.append(".");
        name.append(algorithm.extension());
        proof {
            reveal_strlit(".");
            assert(name@ =~= job_id@ + seq!['.'] + extension_spec(algorithm));
        }
        join_path(self.output_dir.as_str(), name.as_str())
    }
}

} // verus!
