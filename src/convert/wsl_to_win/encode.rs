use vstd::prelude::*;

use crate::convert::win_to_wsl::decode::{decode_path, decode_seq, escape_value, is_escaped_byte, is_path_byte, path_bytes_before};
use crate::convert::windows_file_name_char::{IllegalWindowsFileNameCharError, WindowsFileNameCharType};

verus! {

/// The bytes that stand for `d` in the Windows namespace: an escaped byte
/// becomes the UTF-8 form of the code point `U+F000 + d`, any other byte stays.
pub open spec fn encode_byte(d: u8) -> Seq<u8> {
    if !is_escaped_byte(d) {
        seq![d]
    } else if d < 64 {
        seq![239u8, 128u8, (d + 128) as u8]
    } else {
        seq![239u8, 129u8, (d + 64) as u8]
    }
}

/// Every byte of `s` encoded, in order.
pub open spec fn encode_seq(s: Seq<u8>) -> Seq<u8>
    decreases s.len(),
{
    if s.len() == 0 {
        Seq::empty()
    } else {
        encode_seq(s.drop_last()) + encode_byte(s.last())
    }
}

/// Appends to `buf` the bytes that stand for `d` in the Windows namespace.
pub fn byte(d: u8, buf: &mut Vec<u8>)
    ensures
        final(buf)@ == old(buf)@ + encode_byte(d),
{
    let escaped = match WindowsFileNameCharType::from(d) {
        WindowsFileNameCharType::Slash | WindowsFileNameCharType::Legal => false,
        _ => true,
    };
    if !escaped {
        buf.push(d);
    } else if d < 64 {
        buf.push(239);
        buf.push(128);
        buf.push(d + 128);
    } else {
        proof {
            assert(d <= 0x7c);
        }
        buf.push(239);
        buf.push(129);
        buf.push(d + 64);
    }
    proof {
        assert(final(buf)@ =~= old(buf)@ + encode_byte(d));
    }
}

/// Encodes a path of the WSL namespace onto the end of `buf`, escaping each
/// byte that a Windows file name cannot hold.
pub fn path(p: &[u8], buf: &mut Vec<u8>)
    ensures
        final(buf)@ == old(buf)@ + encode_seq(p@),
{
    let mut i: usize = 0;
    while i < p.len()
        invariant
            i <= p@.len(),
            buf@ == old(buf)@ + encode_seq(p@.subrange(0, i as int)),
        decreases p@.len() - i,
    {
        let ghost before = buf@;
        byte(p[i], buf);
        proof {
            let t = p@.subrange(0, i as int + 1);
            assert(t.drop_last() =~= p@.subrange(0, i as int));
            assert(buf@ =~= old(buf)@ + encode_seq(t));
        }
        i = i + 1;
    }
    proof {
        assert(p@.subrange(0, p@.len() as int) =~= p@);
    }
}

/// An escaped byte comes back from its escape.
pub proof fn lemma_escape_round_trip(b: u8)
    requires
        is_escaped_byte(b),
    ensures
        decode_path(encode_byte(b)) == Ok::<Seq<u8>, IllegalWindowsFileNameCharError>(seq![b]),
{
    let e = encode_byte(b);
    assert(path_bytes_before(e, 3)) by {
        assert(is_path_byte(e[0]) && is_path_byte(e[1]) && is_path_byte(e[2]));
    }
    assert(escape_value(e[0], e[1], e[2]) == Some(b));
    assert(e.subrange(3, 3) =~= Seq::<u8>::empty());
    reveal_with_fuel(decode_seq, 2);
    assert(decode_seq(e) =~= seq![b]);
}

/// No two bytes are encoded alike.
pub proof fn lemma_encode_injective(b: u8, c: u8)
    ensures
        b != c ==> encode_byte(b) != encode_byte(c),
{
    if b != c && encode_byte(b) == encode_byte(c) {
        if encode_byte(b).len() == 3 {
            assert(encode_byte(b)[2] == encode_byte(c)[2]);
        } else {
            assert(encode_byte(b)[0] == encode_byte(c)[0]);
        }
    }
}

/// A byte that is not escaped passes through encoding and decoding alike.
pub proof fn lemma_legal_identity(b: u8)
    requires
        !is_escaped_byte(b),
    ensures
        encode_byte(b) == seq![b],
        encode_seq(seq![b]) == seq![b],
        decode_path(seq![b]) == Ok::<Seq<u8>, IllegalWindowsFileNameCharError>(seq![b]),
{
    assert(seq![b].drop_last() =~= Seq::<u8>::empty());
    reveal_with_fuel(encode_seq, 2);
    assert(encode_seq(seq![b]) =~= seq![b]);
    assert(is_path_byte(seq![b][0]));
    assert(path_bytes_before(seq![b], 1));
}

} // verus!
