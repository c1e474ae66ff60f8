use vstd::prelude::*;

use crate::convert::bulk::{
    bulk_spec, complete_len, convert_list, error_records, lemma_bulk_concat, lemma_complete_ends, lemma_complete_len_concat,
    lemma_complete_prefix, lemma_bulk_base, shifted, ErrorRecord,
};
use crate::convert::bytes::append;
use crate::convert::{BulkConversion, Converter, InputPathSeparator, OutputPathSeparator, PathSeparators};

verus! {

/// Why a file could not be read as a list of paths.
#[derive(Debug)]
pub enum ConvertFileError {
    IOError(std::io::Error),
    IsADirectory,
}

/// Bounds, in file system blocks, on how much of a file is read at a time.
#[derive(Clone, Copy, Debug)]
pub struct BufferSizeBlocks {
    /// For a file whose length is not known, such as a pipe.
    pub min: u64,
    /// For a regular file.
    pub max: u64,
}

impl Default for BufferSizeBlocks {
    fn default() -> (r: Self)
        ensures
            r.min == 16 && r.max == u64::MAX,
    {
        BufferSizeBlocks { min: 16, max: u64::MAX }
    }
}

/// What kind of file a list of paths is read from.
#[derive(Clone, Copy, Debug, PartialEq, Eq, Structural)]
pub enum FileKind {
    Directory,
    /// A regular file or a symbolic link: its length is known.
    Regular,
    /// A pipe, a device or a socket.
    Other,
}

pub open spec fn saturating_product(a: u64, b: u64) -> u64 {
    if a * b > u64::MAX {
        u64::MAX
    } else {
        (a * b) as u64
    }
}

fn saturating_mul(a: u64, b: u64) -> (r: u64)
    ensures
        r == saturating_product(a, b),
{
    match a.checked_mul(b) {
        Some(p) => p,
        None => u64::MAX,
    }
}

/// How many bytes to read at a time from a file of kind `kind` and length
/// `len`, on a file system whose blocks have `block_size` bytes.
pub fn read_len(kind: FileKind, len: u64, block_size: u64, blocks: &BufferSizeBlocks) -> (r: Result<u64, ConvertFileError>)
    ensures
        kind == FileKind::Directory <==> r matches Err(ConvertFileError::IsADirectory),
        kind == FileKind::Regular ==> r == Ok::<u64, ConvertFileError>(
            if len <= saturating_product(blocks.max, block_size) { len } else { saturating_product(blocks.max, block_size) },
        ),
        kind == FileKind::Other ==> r == Ok::<u64, ConvertFileError>(
            saturating_product(if blocks.min >= 1 { blocks.min } else { 1 }, block_size),
        ),
{
    match kind {
        FileKind::Directory => Err(ConvertFileError::IsADirectory),
        FileKind::Regular => {
            let most = saturating_mul(blocks.max, block_size);
            Ok(if len <= most { len } else { most })
        },
        FileKind::Other => {
            let n = if blocks.min >= 1 { blocks.min } else { 1 };
            Ok(saturating_mul(n, block_size))
        },
    }
}

/// One read of a stream: the bytes pending from earlier reads and the block
/// just read, the working buffer, are converted as `convert_all` converts
/// them, as far as their last separator. The output, the errors (counted
/// from 0), how many paths there were, and what stays pending.
pub open spec fn stream_step<C: Converter, I: InputPathSeparator, O: OutputPathSeparator>(
    c: C,
    seps: PathSeparators<I, O>,
    pending: Seq<u8>,
    block: Seq<u8>,
) -> (Seq<u8>, Seq<ErrorRecord<C::Error>>, int, Seq<u8>) {
    let b = pending + block;
    let rem = complete_len(seps.input, b);
    let t = bulk_spec(c, seps, b.subrange(0, rem), 0);
    (t.0, t.1, t.2, b.subrange(rem, b.len() as int))
}

/// The reads of `blocks` one after the other, from an empty start: all the
/// output, all the errors with the indices of each read's errors moved on by
/// the paths of the reads before it, how many paths, and what stays pending.
pub open spec fn stream_spec<C: Converter, I: InputPathSeparator, O: OutputPathSeparator>(
    c: C,
    seps: PathSeparators<I, O>,
    blocks: Seq<Seq<u8>>,
) -> (Seq<u8>, Seq<ErrorRecord<C::Error>>, int, Seq<u8>)
    decreases blocks.len(),
{
    if blocks.len() == 0 {
        (Seq::empty(), Seq::empty(), 0, Seq::empty())
    } else {
        let prev = stream_spec(c, seps, blocks.drop_last());
        let st = stream_step(c, seps, prev.3, blocks.last());
        (prev.0 + st.0, prev.1 + shifted(st.1, prev.2), prev.2 + st.2, st.3)
    }
}

/// The blocks one after the other.
pub open spec fn concat(blocks: Seq<Seq<u8>>) -> Seq<u8>
    decreases blocks.len(),
{
    if blocks.len() == 0 {
        Seq::empty()
    } else {
        concat(blocks.drop_last()) + blocks.last()
    }
}

/// Converting a list of paths block by block, however it is cut into blocks,
/// gives what converting it in one piece gives: the same output, the same
/// errors once each read's indices are moved on by the paths of the reads
/// before it, and the same bytes left pending.
pub proof fn lemma_stream_matches_whole<C: Converter, I: InputPathSeparator, O: OutputPathSeparator>(
    c: C,
    seps: PathSeparators<I, O>,
    blocks: Seq<Seq<u8>>,
)
    ensures
        ({
            let whole = concat(blocks);
            let n = complete_len(seps.input, whole);
            let t = bulk_spec(c, seps, whole.subrange(0, n), 0);
            stream_spec(c, seps, blocks) == (t.0, t.1, t.2, whole.subrange(n, whole.len() as int))
        }),
    decreases blocks.len(),
{
    let input = seps.input;
    if blocks.len() == 0 {
        assert(concat(blocks).subrange(0, 0) =~= Seq::<u8>::empty());
        assert(concat(blocks).subrange(0, 0) =~= concat(blocks));
    } else {
        let earlier = blocks.drop_last();
        lemma_stream_matches_whole(c, seps, earlier);
        let f1 = concat(earlier);
        let c1 = complete_len(input, f1);
        lemma_complete_ends(input, f1);
        lemma_complete_prefix(input, f1);
        let p = f1.subrange(0, c1);
        let pend = f1.subrange(c1, f1.len() as int);
        let b = pend + blocks.last();
        let whole = concat(blocks);
        assert(whole =~= p + b);
        lemma_complete_len_concat(input, p, b);
        lemma_complete_ends(input, b);
        let cb = complete_len(input, b);
        let tp = bulk_spec(c, seps, p, 0);
        if cb > 0 {
            assert(whole.subrange(0, c1 + cb) =~= p + b.subrange(0, cb));
            assert(whole.subrange(c1 + cb, whole.len() as int) =~= b.subrange(cb, b.len() as int));
            lemma_bulk_concat(c, seps, p, b.subrange(0, cb), 0);
            lemma_bulk_base(c, seps, b.subrange(0, cb), 0, tp.2);
        } else {
            assert(whole.subrange(0, c1) =~= p);
            assert(whole.subrange(c1, whole.len() as int) =~= b);
            assert(b.subrange(0, 0) =~= Seq::<u8>::empty());
            assert(shifted(Seq::<ErrorRecord<C::Error>>::empty(), tp.2) =~= Seq::<ErrorRecord<C::Error>>::empty());
            assert(tp.0 + Seq::<u8>::empty() =~= tp.0);
            assert(tp.1 + Seq::<ErrorRecord<C::Error>>::empty() =~= tp.1);
            assert(b.subrange(0, b.len() as int) =~= b);
        }
    }
}

/// Where a stream of reads stands.
#[derive(Clone, Copy, Debug, PartialEq, Eq, Structural)]
pub enum StreamPhase {
    /// More reads may come.
    Open,
    /// A read gave no bytes: the file is done.
    Exhausted,
    /// A read failed: nothing more comes.
    Failed,
}

/// A list of paths read in blocks: the bytes after the last separator wait for
/// the next block.
pub struct ConversionIterator {
    file_buf_len: usize,
    buf: Vec<u8>,
    paths_done: usize,
    phase: StreamPhase,
}

impl ConversionIterator {
    /// The bytes read but not yet converted.
    pub closed spec fn pending(&self) -> Seq<u8> {
        self.buf@
    }

    /// How many non-empty paths were converted.
    pub closed spec fn paths_done(&self) -> int {
        self.paths_done as int
    }

    pub closed spec fn phase(&self) -> StreamPhase {
        self.phase
    }

    pub closed spec fn spec_buf_len(&self) -> usize {
        self.file_buf_len
    }

    /// A stream that reads `file_buf_len` bytes at a time.
    pub fn new(file_buf_len: usize) -> (r: Self)
        ensures
            r.pending() == Seq::<u8>::empty(),
            r.paths_done() == 0,
            r.phase() == StreamPhase::Open,
            r.spec_buf_len() == file_buf_len,
    {
        ConversionIterator { file_buf_len, buf: Vec::new(), paths_done: 0, phase: StreamPhase::Open }
    }

    /// How many bytes to read at a time.
    pub fn buf_len(&self) -> (r: usize)
        ensures
            r == self.spec_buf_len(),
    {
        self.file_buf_len
    }

    /// How many non-empty paths were converted so far.
    pub fn paths_handled(&self) -> (r: usize)
        ensures
            r == self.paths_done(),
    {
        self.paths_done
    }

    pub fn phase_now(&self) -> (r: StreamPhase)
        ensures
            r == self.phase(),
    {
        self.phase
    }

    /// Whether a block of `n` bytes can be taken without the count of paths
    /// and the pending bytes passing `usize::MAX`.
    pub fn can_take(&self, n: usize) -> (r: bool)
        ensures
            r == (self.paths_done() + self.pending().len() + n <= usize::MAX),
    {
        self.paths_done <= usize::MAX - self.buf.len() && n <= usize::MAX - self.paths_done - self.buf.len()
    }

    /// A read failed: the stream ends, and what it gave before stands.
    pub fn fail(&mut self)
        ensures
            final(self).phase() == StreamPhase::Failed,
            final(self).pending() == old(self).pending(),
            final(self).paths_done() == old(self).paths_done(),
            final(self).spec_buf_len() == old(self).spec_buf_len(),
    {
        self.phase = StreamPhase::Failed;
    }

    /// Takes the bytes of one read. An empty read ends the stream and gives
    /// nothing. Any other gives what `convert_all` gives over the working
    /// buffer, the pending bytes followed by the block, with its errors
    /// counted from 0; what follows its last separator stays pending, and the
    /// count of paths handled grows by the paths it converted.
    pub fn next_block<C: Converter, I: InputPathSeparator, O: OutputPathSeparator>(
        &mut self,
        c: &C,
        seps: &PathSeparators<I, O>,
        block: &[u8],
    ) -> (r: Option<BulkConversion<C::Error>>)
        requires
            c.wf(),
            old(self).phase() == StreamPhase::Open,
            old(self).paths_done() + old(self).pending().len() + block@.len() <= usize::MAX,
        ensures
            final(self).spec_buf_len() == old(self).spec_buf_len(),
            block@.len() == 0 ==> {
                &&& r is None
                &&& final(self).phase() == StreamPhase::Exhausted
                &&& final(self).pending() == old(self).pending()
                &&& final(self).paths_done() == old(self).paths_done()
            },
            block@.len() > 0 ==> {
                let st = stream_step(*c, *seps, old(self).pending(), block@);
                &&& r is Some
                &&& r->Some_0.paths@ == st.0
                &&& error_records(r->Some_0.errors@) == st.1
                &&& r->Some_0.remainder_index == 0
                &&& final(self).pending() == st.3
                &&& final(self).paths_done() == old(self).paths_done() + st.2
                &&& final(self).paths_done() + final(self).pending().len() <= old(self).paths_done()
                    + old(self).pending().len() + block@.len()
                &&& final(self).phase() == StreamPhase::Open
            },
    {
        if block.len() == 0 {
            self.phase = StreamPhase::Exhausted;
            return None;
        }
        append(&mut self.buf, block);
        proof {
            lemma_complete_ends(seps.input, self.buf@);
        }
        let (conv, count) = convert_list(c, self.buf.as_slice(), seps, 0);
        let tail = self.buf.split_off(conv.remainder_index);
        self.buf = tail;
        self.paths_done = self.paths_done + count;
        Some(BulkConversion { paths: conv.paths, remainder_index: 0, errors: conv.errors })
    }
}

} // verus!
