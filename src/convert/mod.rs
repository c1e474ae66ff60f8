use vstd::prelude::*;

pub mod bulk;
pub mod bytes;
pub mod line_sep;
pub mod path_sep;
pub mod stream;
pub mod win_to_wsl;
pub mod windows_file_name_char;
pub mod wsl;
pub mod wsl_to_win;

verus! {

/// `std::io::Error`, carried as it is by the error types.
#[verifier::external_type_specification]
#[verifier::external_body]
pub struct ExIoError(std::io::Error);

/// Tells which bytes end a path in a list of paths.
pub trait InputPathSeparator {
    spec fn spec_matches(&self, c: u8) -> bool;

    fn matches(&self, c: u8) -> (r: bool)
        ensures
            r == self.spec_matches(c),
    ;
}

/// Writes what ends a path in a list of converted paths.
pub trait OutputPathSeparator {
    spec fn spec_sep(&self) -> Seq<u8>;

    fn write_to_buf(&self, buf: &mut Vec<u8>)
        ensures
            final(buf)@ == old(buf)@ + self.spec_sep(),
    ;
}

/// The separators of the paths read and of the paths written.
pub struct PathSeparators<InputSep: InputPathSeparator, OutputSep: OutputPathSeparator> {
    pub input: InputSep,
    pub output: OutputSep,
}

/// Converts single absolute paths from one namespace to the other.
pub trait Converter: Sized {
    type Error;

    /// Whether the converter is set up right.
    spec fn wf(&self) -> bool;

    /// The conversion of `path`.
    spec fn convert_spec(&self, path: Seq<u8>) -> Result<Seq<u8>, Self::Error>;

    /// Converts `path` onto the end of `buf`. On an error, what stands in `buf`
    /// after its old content is unspecified.
    fn convert_into_buf(&self, path: &[u8], buf: &mut Vec<u8>) -> (r: Result<(), Self::Error>)
        requires
            self.wf(),
        ensures
            match self.convert_spec(path@) {
                Ok(out) => r is Ok && final(buf)@ == old(buf)@ + out,
                Err(e) => r == Err::<(), Self::Error>(e),
            },
            crate::convert::bytes::extends(final(buf)@, old(buf)@),
    ;
}

/// A path of a list that could not be converted.
#[derive(Debug)]
pub struct OneConvertError<E> {
    /// Its position among the non-empty paths of the list.
    pub index: usize,
    /// The path as it was read.
    pub path: Vec<u8>,
    pub source: E,
}

/// What converting a list of paths gave.
#[derive(Debug)]
pub struct BulkConversion<E> {
    /// The converted paths, each followed by the output separator; a path
    /// that failed leaves the separator alone.
    pub paths: Vec<u8>,
    /// Where the input's last unterminated path starts.
    pub remainder_index: usize,
    pub errors: Vec<OneConvertError<E>>,
}

} // verus!
