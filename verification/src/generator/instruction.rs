//! The instruction stream the generator emits, and its byte encoding.
//! Every multi-byte operand is big-endian; a boolean constant is one
//! byte, 0 or 255; a string constant carries a 16-bit byte length.

use vstd::prelude::*;
use vstd::slice::slice_subrange;
use vstd::string::StringSliceAdditionalSpecFns;
use vstd::utf8::{encode_utf8, is_char_boundary, valid_utf8};
use super::opcode;
use super::simple_counter::AddrSize;

verus! {

/// One instruction: a bare opcode, an opcode with a 16-bit operand, or
/// a constant load.
#[derive(PartialEq, Debug)]
pub enum Instr {
    Simple(u8),
    Addressed(u8, AddrSize),
    IntConst(i32),
    RealConst(u64),
    BoolConst(bool),
    StrConst(String),
    Init(u16, u16, u16, u16),
}

/// The byte form of a string value.
pub open spec fn str_bytes(s: String) -> Seq<u8> {
    encode_utf8(s@)
}

/// The largest prefix length of `n` or less that ends at a character
/// boundary; never negative.
pub open spec fn trunc_boundary(b: Seq<u8>, n: int) -> int
    decreases n,
    when n >= 0
{
    if is_char_boundary(b, n) {
        n
    } else if n <= 0 {
        0
    } else {
        trunc_boundary(b, n - 1)
    }
}

/// The bytes of a string, cut to at most `max` bytes, never inside a
/// codepoint: the longest prefix of at most `max` bytes that ends at a
/// character boundary.
pub open spec fn truncated_bytes(b: Seq<u8>, max: int) -> Seq<u8> {
    let n = if b.len() <= max {
        b.len() as int
    } else {
        max
    };
    b.subrange(0, trunc_boundary(b, n))
}

/// The cut never exceeds the requested length.
pub proof fn lemma_trunc_boundary_bounds(b: Seq<u8>, n: int)
    requires
        n >= 0,
    ensures
        0 <= trunc_boundary(b, n) <= n,
    decreases n,
{
    if !is_char_boundary(b, n) && n > 0 {
        lemma_trunc_boundary_bounds(b, n - 1);
    }
}

/// A whole string that fits is kept whole; this holds of any valid
/// string, since its full length is a character boundary.
pub proof fn lemma_truncated_whole(b: Seq<u8>, max: int)
    requires
        valid_utf8(b),
        b.len() <= max,
    ensures
        truncated_bytes(b, max) == b,
{
    lemma_is_char_boundary_len(b);
    assert(trunc_boundary(b, b.len() as int) == b.len());
    assert(b.subrange(0, b.len() as int) =~= b);
}

/// The full length of a valid sequence is a character boundary.
pub proof fn lemma_is_char_boundary_len(b: Seq<u8>)
    requires
        valid_utf8(b),
    ensures
        is_char_boundary(b, b.len() as int),
{
    vstd::utf8::is_char_boundary_start_end_of_seq(b);
}

/// What the truncation keeps is itself valid.
pub proof fn lemma_truncated_valid(b: Seq<u8>, max: int)
    requires
        valid_utf8(b),
        max >= 0,
    ensures
        valid_utf8(truncated_bytes(b, max)),
        truncated_bytes(b, max).len() <= max,
        is_char_boundary(b, truncated_bytes(b, max).len() as int),
    decreases b.len(),
{
    let n = if b.len() <= max {
        b.len() as int
    } else {
        max
    };
    lemma_trunc_boundary_bounds(b, n);
    lemma_trunc_is_boundary(b, n);
    vstd::utf8::valid_utf8_split(b, trunc_boundary(b, n));
}

/// The cut point is a character boundary.
pub proof fn lemma_trunc_is_boundary(b: Seq<u8>, n: int)
    requires
        valid_utf8(b),
        n >= 0,
    ensures
        is_char_boundary(b, trunc_boundary(b, n)),
    decreases n,
{
    if is_char_boundary(b, n) {
    } else if n <= 0 {
        assert(is_char_boundary(b, 0));
    } else {
        lemma_trunc_is_boundary(b, n - 1);
    }
}

/// Cut a string to at most `byte_count` bytes, never splitting a
/// codepoint: scan back from the cut to the nearest boundary.
pub fn truncate_str_to_byte_len<'a>(string: &'a str, byte_count: usize) -> (r: &'a [u8])
    ensures
        r@ == truncated_bytes(string.spec_bytes(), byte_count as int),
{
    let ghost b = string.spec_bytes();
    let bytes = string.as_bytes();
    let blen = bytes.len();
    let mut output_len: usize = if blen > byte_count {
        byte_count
    } else {
        blen
    };
    let ghost m0 = output_len as int;
    loop
        invariant
            output_len as int <= m0,
            m0 <= b.len(),
            b == string.spec_bytes(),
            trunc_boundary(b, m0) == trunc_boundary(b, output_len as int),
        ensures
            output_len as int == trunc_boundary(b, m0),
            output_len as int <= b.len(),
        decreases output_len,
    {
        if string.is_char_boundary(output_len) {
            proof {
                assert(trunc_boundary(b, output_len as int) == output_len as int);
            }
            break;
        }
        if output_len == 0 {
            proof {
                assert(trunc_boundary(b, 0) == 0);
            }
            break;
        }
        output_len = output_len - 1;
    }
    slice_subrange(bytes, 0, output_len)
}

/// The two big-endian bytes of a 16-bit value.
pub open spec fn be16(x: u16) -> Seq<u8> {
    seq![(x >> 8) as u8, x as u8]
}

/// The four big-endian bytes of a 32-bit value.
pub open spec fn be32(x: u32) -> Seq<u8> {
    seq![(x >> 24) as u8, (x >> 16) as u8, (x >> 8) as u8, x as u8]
}

/// The eight big-endian bytes of a 64-bit value.
pub open spec fn be64(x: u64) -> Seq<u8> {
    seq![
        (x >> 56) as u8,
        (x >> 48) as u8,
        (x >> 40) as u8,
        (x >> 32) as u8,
        (x >> 24) as u8,
        (x >> 16) as u8,
        (x >> 8) as u8,
        x as u8,
    ]
}

/// The bytes of one instruction.
pub open spec fn instr_bytes(i: Instr) -> Seq<u8> {
    match i {
        Instr::Simple(op) => seq![op],
        Instr::Addressed(op, a) => seq![op] + be16(a),
        Instr::IntConst(v) => seq![opcode::LDIC] + be32(v as u32),
        Instr::RealConst(bits) => seq![opcode::LDRC] + be64(bits),
        Instr::BoolConst(b) => seq![
            opcode::LDBC,
            if b {
                255u8
            } else {
                0u8
            },
        ],
        Instr::StrConst(s) => {
            let payload = truncated_bytes(str_bytes(s), 0xffff);
            seq![opcode::LDSC] + be16(payload.len() as u16) + payload
        },
        Instr::Init(a, b, c, d) => seq![opcode::INIT] + be16(a) + be16(b) + be16(c) + be16(d),
    }
}

/// The bytes of a stream, in order.
pub open spec fn stream_bytes(s: Seq<Instr>) -> Seq<u8>
    decreases s.len(),
{
    if s.len() == 0 {
        Seq::empty()
    } else {
        instr_bytes(s[0]) + stream_bytes(s.drop_first())
    }
}

/// Serialization distributes over concatenation.
pub proof fn lemma_stream_bytes_concat(a: Seq<Instr>, b: Seq<Instr>)
    ensures
        stream_bytes(a + b) == stream_bytes(a) + stream_bytes(b),
    decreases a.len(),
{
    if a.len() == 0 {
        assert(a + b =~= b);
        assert(stream_bytes(a) + stream_bytes(b) =~= stream_bytes(b));
    } else {
        assert((a + b).drop_first() =~= a.drop_first() + b);
        lemma_stream_bytes_concat(a.drop_first(), b);
        assert(stream_bytes(a + b) =~= stream_bytes(a) + stream_bytes(b));
    }
}

/// Serialization of one more instruction appends its bytes.
pub proof fn lemma_stream_bytes_push(s: Seq<Instr>, i: Instr)
    ensures
        stream_bytes(s.push(i)) == stream_bytes(s) + instr_bytes(i),
{
    assert(s.push(i) =~= s + seq![i]);
    lemma_stream_bytes_concat(s, seq![i]);
    assert(seq![i].drop_first() =~= Seq::<Instr>::empty());
    assert(seq![i][0] == i);
    assert(stream_bytes(seq![i]) == instr_bytes(i) + stream_bytes(Seq::<Instr>::empty()));
    assert(stream_bytes(Seq::<Instr>::empty()) =~= Seq::<u8>::empty());
    assert(instr_bytes(i) + Seq::<u8>::empty() =~= instr_bytes(i));
}

/// Append the two big-endian bytes of `x`.
fn push_be16(buff: &mut Vec<u8>, x: u16)
    ensures
        final (buff)@ == old(buff)@ + be16(x),
{
    buff.push((x >> 8) as u8);
    buff.push(x as u8);
    proof {
        assert(buff@ =~= old(buff)@ + be16(x));
    }
}

/// Append the four big-endian bytes of `x`.
fn push_be32(buff: &mut Vec<u8>, x: u32)
    ensures
        final (buff)@ == old(buff)@ + be32(x),
{
    buff.push((x >> 24) as u8);
    buff.push((x >> 16) as u8);
    buff.push((x >> 8) as u8);
    buff.push(x as u8);
    proof {
        assert(buff@ =~= old(buff)@ + be32(x));
    }
}

/// Append the eight big-endian bytes of `x`.
fn push_be64(buff: &mut Vec<u8>, x: u64)
    ensures
        final (buff)@ == old(buff)@ + be64(x),
{
    buff.push((x >> 56) as u8);
    buff.push((x >> 48) as u8);
    buff.push((x >> 40) as u8);
    buff.push((x >> 32) as u8);
    buff.push((x >> 24) as u8);
    buff.push((x >> 16) as u8);
    buff.push((x >> 8) as u8);
    buff.push(x as u8);
    proof {
        assert(buff@ =~= old(buff)@ + be64(x));
    }
}

/// Append the bytes of one instruction.
fn push_instr(buff: &mut Vec<u8>, i: &Instr)
    ensures
        final (buff)@ == old(buff)@ + instr_bytes(*i),
{
    match i {
        Instr::Simple(op) => {
            buff.push(*op);
            proof {
                assert(buff@ =~= old(buff)@ + instr_bytes(*i));
            }
        },
        Instr::Addressed(op, a) => {
            buff.push(*op);
            push_be16(buff, *a);
            proof {
                assert(buff@ =~= old(buff)@ + instr_bytes(*i));
            }
        },
        Instr::IntConst(v) => {
            buff.push(opcode::LDIC);
            push_be32(buff, *v as u32);
            proof {
                assert(buff@ =~= old(buff)@ + instr_bytes(*i));
            }
        },
        Instr::RealConst(bits) => {
            buff.push(opcode::LDRC);
            push_be64(buff, *bits);
            proof {
                assert(buff@ =~= old(buff)@ + instr_bytes(*i));
            }
        },
        Instr::BoolConst(b) => {
            buff.push(opcode::LDBC);
            buff.push(if *b {
                255
            } else {
                0
            });
            proof {
                assert(buff@ =~= old(buff)@ + instr_bytes(*i));
            }
        },
        Instr::StrConst(s) => {
            let sstr = s.as_str();
            proof {
                vstd::utf8::encode_utf8_valid_utf8(s@);
                assert(sstr.spec_bytes() == str_bytes(*s));
                lemma_trunc_boundary_bounds(
                    str_bytes(*s),
                    if str_bytes(*s).len() <= 0xffff {
                        str_bytes(*s).len() as int
                    } else {
                        0xffff
                    },
                );
            }
            let bytes = truncate_str_to_byte_len(sstr, 0xffff);
            buff.push(opcode::LDSC);
            push_be16(buff, bytes.len() as u16);
            let ghost payload = truncated_bytes(str_bytes(*s), 0xffff);
            let m = bytes.len();
            for j in 0..m
                invariant
                    m == bytes@.len(),
                    bytes@ == payload,
                    buff@ == old(buff)@ + seq![opcode::LDSC] + be16(payload.len() as u16)
                        + payload.take(j as int),
            {
                buff.push(bytes[j]);
                proof {
                    assert(buff@ =~= old(buff)@ + seq![opcode::LDSC] + be16(payload.len() as u16)
                        + payload.take(j as int + 1));
                }
            }
            proof {
                assert(payload.take(m as int) =~= payload);
                assert(buff@ =~= old(buff)@ + instr_bytes(*i));
            }
        },
        Instr::Init(a, b, c, d) => {
            buff.push(opcode::INIT);
            push_be16(buff, *a);
            push_be16(buff, *b);
            push_be16(buff, *c);
            push_be16(buff, *d);
            proof {
                assert(buff@ =~= old(buff)@ + instr_bytes(*i));
            }
        },
    }
}

/// Serialize a whole stream to its flat byte form.
pub fn assemble(instrs: &Vec<Instr>) -> (r: Vec<u8>)
    ensures
        r@ == stream_bytes(instrs@),
{
    let mut buff: Vec<u8> = Vec::new();
    let n = instrs.len();
    proof {
        assert(buff@ =~= stream_bytes(instrs@.take(0)));
    }
    for i in 0..n
        invariant
            n == instrs@.len(),
            buff@ == stream_bytes(instrs@.take(i as int)),
    {
        push_instr(&mut buff, &instrs[i]);
        proof {
            assert(instrs@.take(i as int).push(instrs@[i as int]) =~= instrs@.take(i as int + 1));
            lemma_stream_bytes_push(instrs@.take(i as int), instrs@[i as int]);
        }
    }
    proof {
        assert(instrs@.take(n as int) =~= instrs@);
    }
    buff
}

} // verus!
