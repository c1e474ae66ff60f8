use wslpath::convert::line_sep::LineSep;
use wslpath::convert::stream::{read_len, BufferSizeBlocks, ConversionIterator, ConvertFileError, FileKind, StreamPhase};
use wslpath::convert::win_to_wsl::{ConvertError, Converter, Options, Root};
use wslpath::convert::bulk::convert_all;
use wslpath::convert::{BulkConversion, PathSeparators};

fn plain() -> Converter {
    let options = Options {
        convert_root_loop: false,
        ..Options::default()
    };
    let root = Root::new(&options, Some(b"Ubuntu".to_vec()), Ok(None), Ok(vec![])).unwrap();
    Converter::new(options, root)
}

fn nul_to_lf() -> PathSeparators<LineSep, LineSep> {
    PathSeparators {
        input: LineSep::Null,
        output: LineSep::LF,
    }
}

#[test]
fn failed_path_leaves_an_empty_line() {
    let c = plain();
    let input = b"C:\\a\0C:b\0";
    let r = convert_all(&c, input, &nul_to_lf());
    assert_eq!(r.paths, b"/mnt/c/a\n\n");
    assert_eq!(r.remainder_index, input.len());
    assert_eq!(r.errors.len(), 1);
    assert_eq!(r.errors[0].index, 1);
    assert_eq!(r.errors[0].path, b"C:b");
    assert_eq!(r.errors[0].source, ConvertError::Parse);
}

#[test]
fn failure_after_partial_output_writes_nothing() {
    let c = plain();
    let r = convert_all(&c, b"C:\\a|b\0C:\\c\0", &nul_to_lf());
    assert_eq!(r.paths, b"\n/mnt/c/c\n");
    assert_eq!(r.errors.len(), 1);
    assert_eq!(r.errors[0].index, 0);
    assert_eq!(r.errors[0].path, b"C:\\a|b");
}

#[test]
fn unterminated_tail_is_left_over() {
    let c = plain();
    let input = b"C:\\a\0C:\\b";
    let r = convert_all(&c, input, &nul_to_lf());
    assert_eq!(r.paths, b"/mnt/c/a\n");
    assert_eq!(r.remainder_index, 5);
    assert_eq!(&input[r.remainder_index..], b"C:\\b");
    assert!(r.errors.is_empty());
}

#[test]
fn empty_and_separator_free_input() {
    let c = plain();
    let r = convert_all(&c, b"", &nul_to_lf());
    assert!(r.paths.is_empty());
    assert_eq!(r.remainder_index, 0);
    let r = convert_all(&c, b"C:\\a", &nul_to_lf());
    assert!(r.paths.is_empty());
    assert_eq!(r.remainder_index, 0);
    assert!(r.errors.is_empty());
}

#[test]
fn empty_paths_are_skipped() {
    let c = plain();
    let r = convert_all(&c, b"\0\0C:\\a\0\0relative\0", &nul_to_lf());
    assert_eq!(r.paths, b"/mnt/c/a\n\n");
    assert_eq!(r.errors.len(), 1);
    assert_eq!(r.errors[0].index, 1);
}

#[test]
fn crlf_separators() {
    let c = plain();
    let seps = PathSeparators {
        input: LineSep::CRLF,
        output: LineSep::CRLF,
    };
    let r = convert_all(&c, b"C:\\a\r\nC:\\b\r\n", &seps);
    assert_eq!(r.paths, b"/mnt/c/a\r\n/mnt/c/b\r\n");
    let seps = PathSeparators {
        input: LineSep::LF,
        output: LineSep::Null,
    };
    let r = convert_all(&c, b"C:\\a\nC:\\b\n", &seps);
    assert_eq!(r.paths, b"/mnt/c/a\0/mnt/c/b\0");
}

fn stream(c: &Converter, content: &[u8], block: usize) -> (Vec<u8>, Vec<(usize, Vec<u8>, ConvertError)>, usize) {
    let seps = nul_to_lf();
    let mut s = ConversionIterator::new(block);
    let mut out = Vec::new();
    let mut errors = Vec::new();
    let mut results = 0;
    for chunk in content.chunks(s.buf_len()) {
        let base = s.paths_handled();
        let r: BulkConversion<ConvertError> = s.next_block(c, &seps, chunk).unwrap();
        assert_eq!(r.remainder_index, 0);
        assert_eq!(s.paths_handled(), base + r.paths.iter().filter(|b| **b == b'\n').count());
        out.extend_from_slice(&r.paths);
        errors.extend(r.errors.into_iter().map(|e| (e.index + base, e.path, e.source)));
        results += 1;
    }
    assert!(s.next_block(c, &seps, &[]).is_none());
    assert_eq!(s.phase_now(), StreamPhase::Exhausted);
    (out, errors, results)
}

#[test]
fn streaming_matches_whole_buffer() {
    let c = plain();
    let mut content = Vec::new();
    for i in 0..40 {
        if i % 7 == 3 {
            content.extend_from_slice(format!("bad{}\0", i).as_bytes());
        } else {
            content.extend_from_slice(format!("C:\\dir{}\\file\0", i).as_bytes());
        }
    }
    let whole = convert_all(&c, &content, &nul_to_lf());
    let whole_errors: Vec<_> = whole.errors.into_iter().map(|e| (e.index, e.path, e.source)).collect();
    for block in [1, 2, 3, 5, 8, 13, 64, 1000] {
        let (out, errors, results) = stream(&c, &content, block);
        assert_eq!(out, whole.paths, "block {}", block);
        assert_eq!(errors, whole_errors, "block {}", block);
        assert_eq!(results, (content.len() + block - 1) / block);
    }
}

#[test]
fn stream_step_is_conversion_of_working_buffer() {
    let c = plain();
    let seps = nul_to_lf();
    let mut s = ConversionIterator::new(8);
    let r = s.next_block(&c, &seps, b"C:\\a\0C:").unwrap();
    assert_eq!(r.paths, b"/mnt/c/a\n");
    assert!(r.errors.is_empty());
    assert_eq!(s.paths_handled(), 1);
    let r = s.next_block(&c, &seps, b"b\0").unwrap();
    let whole = convert_all(&c, b"C:b\0", &seps);
    assert_eq!(r.paths, whole.paths);
    assert_eq!(r.errors.len(), 1);
    assert_eq!(r.errors[0].index, 0);
    assert_eq!(r.errors[0].index, whole.errors[0].index);
    assert_eq!(r.errors[0].path, b"C:b");
    assert_eq!(s.paths_handled(), 2);
}

#[test]
fn stream_failure_is_terminal() {
    let mut s = ConversionIterator::new(4);
    assert_eq!(s.phase_now(), StreamPhase::Open);
    s.fail();
    assert_eq!(s.phase_now(), StreamPhase::Failed);
}

#[test]
fn read_lengths() {
    let blocks = BufferSizeBlocks::default();
    assert_eq!(blocks.min, 16);
    assert_eq!(blocks.max, u64::MAX);
    assert!(matches!(read_len(FileKind::Directory, 10, 4096, &blocks), Err(ConvertFileError::IsADirectory)));
    assert_eq!(read_len(FileKind::Regular, 10, 4096, &blocks).unwrap(), 10);
    let two = BufferSizeBlocks { min: 0, max: 2 };
    assert_eq!(read_len(FileKind::Regular, 100_000, 4096, &two).unwrap(), 8192);
    assert_eq!(read_len(FileKind::Other, 100_000, 4096, &blocks).unwrap(), 16 * 4096);
    assert_eq!(read_len(FileKind::Other, 0, 4096, &two).unwrap(), 4096);
    assert_eq!(read_len(FileKind::Other, 0, u64::MAX, &blocks).unwrap(), u64::MAX);
}
