//! FINS frames: building requests and parsing responses.

use crate::core_model::tag_value::copy_bytes;
use crate::driver_common::words::{bytes_of, read_u32, u16_at, u32_at, write_u16};
use crate::driver_fins::errors::{DriverError, DriverErrorView};
use bytes::BufMut;
use vstd::prelude::*;
use vstd::string::*;

verus! {

/// The FINS command that reads a memory area.
pub const READ_COMMAND: [u8; 2] = [0x01, 0x01];

/// The FINS command that writes a memory area.
pub const WRITE_COMMAND: [u8; 2] = [0x01, 0x02];

/// A payload behind the FINS/TCP header: `FINS` and the length of the payload.
pub open spec fn wrapped(payload: Seq<u8>) -> Seq<u8> {
    seq![0x46u8, 0x49, 0x4E, 0x53] + u32_bytes((payload.len() % 0x1_0000_0000) as u32) + payload
}

/// A number as four bytes, the most significant one first.
pub open spec fn u32_bytes(n: u32) -> Seq<u8> {
    seq![
        (n / 0x100_0000) as u8,
        (n / 0x1_0000 % 0x100) as u8,
        (n / 0x100 % 0x100) as u8,
        (n % 0x100) as u8,
    ]
}

/// A FINS command frame: header with the service id, command code and parameters.
pub open spec fn framed(sid: u8, command: Seq<u8>, params: Seq<u8>) -> Seq<u8> {
    seq![0x80u8, 0, 2, 0, 0, 0, 0, 0, 0, sid, command[0], command[1]] + params
}

/// Where in a memory area a command starts: area, 24-bit word address and bit.
pub open spec fn memory_address(area: u8, address: u32, bit_offset: u8) -> Seq<u8> {
    seq![
        area,
        (address / 0x1_0000 % 0x100) as u8,
        (address / 0x100 % 0x100) as u8,
        (address % 0x100) as u8,
        bit_offset,
    ]
}

/// Parameters of a command that reads `word_count` words.
pub open spec fn memory_read(area: u8, address: u32, bit_offset: u8, word_count: u16) -> Seq<u8> {
    memory_address(area, address, bit_offset) + bytes_of(seq![word_count])
}

/// Parameters of a command that writes words.
pub open spec fn memory_write(area: u8, address: u32, bit_offset: u8, words: Seq<u16>) -> Seq<u8> {
    memory_address(area, address, bit_offset) + bytes_of(seq![(words.len() % 0x1_0000) as u16])
        + bytes_of(words)
}

/// A response: service id, end code and data.
#[verifier::ext_equal]
pub ghost struct ResponseView {
    pub sid: u8,
    pub end_code: u16,
    pub data: Seq<u8>,
}

/// The response in a frame; fewer than 14 bytes hold none.
pub open spec fn response_in(frame: Seq<u8>) -> Result<ResponseView, DriverErrorView> {
    if frame.len() < 14 {
        Err(DriverErrorView::Protocol("Frame too short"@))
    } else {
        Ok(
            ResponseView {
                sid: frame[9],
                end_code: u16_at(frame, 12),
                data: frame.skip(14),
            },
        )
    }
}

/// Put a payload behind the FINS/TCP header.
pub fn wrap_fins_tcp(payload: &[u8]) -> (r: Vec<u8>)
    requires
        payload@.len() + 8 <= isize::MAX,
    ensures
        r@ == wrapped(payload@),
{
    let mut buffer = new_buffer();
    let mut magic: Vec<u8> = Vec::new();
    magic.push(0x46);
    magic.push(0x49);
    magic.push(0x4E);
    magic.push(0x53);
    assert(magic@ =~= seq![0x46u8, 0x49, 0x4E, 0x53]);
    put_slice(&mut buffer, magic.as_slice());
    let length: u32 = (payload.len() as u64 % 0x1_0000_0000) as u32;
    put_u32(&mut buffer, length);
    put_slice(&mut buffer, payload);
    let r = buffer_to_vec(&buffer);
    assert(r@ =~= wrapped(payload@));
    r
}

/// A FINS command frame.
pub fn build_fins_frame(sid: u8, command: [u8; 2], params: &[u8]) -> (r: Vec<u8>)
    ensures
        r@ == framed(sid, command@, params@),
{
    let mut v: Vec<u8> = Vec::new();
    v.push(0x80);  // ICF
    v.push(0x00);  // RSV
    v.push(0x02);  // GCT
    v.push(0x00);  // addressing placeholders
    v.push(0x00);
    v.push(0x00);
    v.push(0x00);
    v.push(0x00);
    v.push(0x00);
    v.push(sid);
    v.push(command[0]);
    v.push(command[1]);
    v.extend_from_slice(params);
    assert(v@ =~= framed(sid, command@, params@));
    v
}

fn start_of_memory(area: u8, address: u32, bit_offset: u8) -> (r: Vec<u8>)
    ensures
        r@ == memory_address(area, address, bit_offset),
{
    let mut p: Vec<u8> = Vec::new();
    p.push(area);
    p.push((address / 0x1_0000 % 0x100) as u8);
    p.push((address / 0x100 % 0x100) as u8);
    p.push((address % 0x100) as u8);
    p.push(bit_offset);
    assert(p@ =~= memory_address(area, address, bit_offset));
    p
}

/// Parameters of a command that reads words.
pub fn build_memory_read(area: u8, address: u32, bit_offset: u8, word_count: u16) -> (r: Vec<u8>)
    ensures
        r@ == memory_read(area, address, bit_offset, word_count),
{
    let mut p = start_of_memory(area, address, bit_offset);
    write_u16(&mut p, word_count);
    p
}

/// Parameters of a command that writes words.
pub fn build_memory_write(area: u8, address: u32, bit_offset: u8, words: &[u16]) -> (r: Vec<u8>)
    ensures
        r@ == memory_write(area, address, bit_offset, words@),
{
    let mut p = start_of_memory(area, address, bit_offset);
    write_u16(&mut p, (words.len() % 0x1_0000) as u16);
    let ghost head = p@;
    let mut i: usize = 0;
    assert(head =~= head + bytes_of(words@.take(0)));
    while i < words.len()
        invariant
            i <= words@.len(),
            p@ == head + bytes_of(words@.take(i as int)),
        decreases words@.len() - i,
    {
        write_u16(&mut p, words[i]);
        proof {
            let w = words@.take(i as int);
            assert(words@.take(i + 1) =~= w.push(words@[i as int]));
            bytes_of_push(w, words@[i as int]);
            assert(p@ =~= head + bytes_of(words@.take(i + 1)));
        }
        i = i + 1;
    }
    assert(words@.take(i as int) =~= words@);
    p
}

proof fn bytes_of_push(w: Seq<u16>, x: u16)
    ensures
        bytes_of(w.push(x)) == bytes_of(w) + bytes_of(seq![x]),
{
    let a = bytes_of(w.push(x));
    let b = bytes_of(w) + bytes_of(seq![x]);
    let n = w.len() as int;
    assert forall|i: int| 0 <= i < a.len() implies #[trigger] a[i] == b[i] by {
        if i < 2 * n {
            assert(i / 2 < n);
        } else {
            assert(i / 2 == n);
            assert((i - 2 * n) / 2 == 0);
            assert((i - 2 * n) % 2 == i % 2);
        }
    }
    assert(a =~= b);
}

/// The response in a frame: service id, end code and data.
pub fn parse_fins_response(frame: &[u8]) -> (r: Result<(u8, u16, Vec<u8>), DriverError>)
    ensures
        match r {
            Ok(p) => response_in(frame@) == Ok::<ResponseView, DriverErrorView>(
                ResponseView { sid: p.0, end_code: p.1, data: p.2@ },
            ),
            Err(e) => response_in(frame@) == Err::<ResponseView, DriverErrorView>(e@),
        },
{
    if frame.len() < 14 {
        return Err(DriverError::protocol("Frame too short"));
    }
    let sid: u8 = frame[9];
    let end_code: u16 = frame[12] as u16 * 0x100 + frame[13] as u16;
    let data = copy_bytes(vstd::slice::slice_subrange(frame, 14, frame.len()));
    assert(data@ =~= frame@.skip(14));
    Ok((sid, end_code, data))
}

/// Length of the payload that a FINS/TCP header announces.
pub fn response_length(header: &[u8; 8]) -> (r: u32)
    ensures
        r == u32_at(header@, 4),
{
    let field = vstd::slice::slice_subrange(vstd::array::array_as_slice(header), 4, 8);
    assert(field@ =~= header@.subrange(4, 8));
    match read_u32(field) {
        Some(n) => n,
        None => 0,
    }
}

/// The header announces the length of the payload behind it.
pub proof fn header_announces_length(payload: Seq<u8>)
    requires
        payload.len() < 0x1_0000_0000,
    ensures
        u32_at(wrapped(payload), 4) == payload.len(),
        wrapped(payload).skip(8) == payload,
{
    let n = payload.len() as u32;
    let f = wrapped(payload);
    let b = u32_bytes(n);
    assert(f[4] == b[0] && f[5] == b[1] && f[6] == b[2] && f[7] == b[3]);
    let x = n as int;
    let h = x / 0x100;
    assert(x == h * 0x100 + x % 0x100);
    let g = h / 0x100;
    assert(h == g * 0x100 + h % 0x100);
    assert(g == x / 0x1_0000);
    let e = g / 0x100;
    assert(g == e * 0x100 + g % 0x100);
    assert(e == x / 0x100_0000);
    assert(f.skip(8) =~= payload);
}

// ---------------------------------------------------------------------------
// Calls into bytes
// ---------------------------------------------------------------------------

/// `bytes::BytesMut`, a growing buffer of bytes.
#[verifier::external_type_specification]
#[verifier::external_body]
pub struct ExBytesMut(bytes::BytesMut);

/// The bytes that a `bytes::BytesMut` holds.
pub uninterp spec fn buffer_bytes(b: bytes::BytesMut) -> Seq<u8>;

/// `bytes::BytesMut::new`: an empty buffer.
#[verifier::external_body]
fn new_buffer() -> (r: bytes::BytesMut)
    ensures
        buffer_bytes(r) == Seq::<u8>::empty(),
{
    bytes::BytesMut::new()
}

/// `bytes::BufMut::put_slice` on a buffer: the bytes are appended.
#[verifier::external_body]
fn put_slice(b: &mut bytes::BytesMut, s: &[u8])
    requires
        buffer_bytes(*old(b)).len() + s@.len() <= isize::MAX,
    ensures
        buffer_bytes(*final(b)) == buffer_bytes(*old(b)) + s@,
{
    b.put_slice(s);
}

/// `bytes::BufMut::put_u32` on a buffer: the four bytes of the number are appended, the most
/// significant one first.
#[verifier::external_body]
fn put_u32(b: &mut bytes::BytesMut, n: u32)
    requires
        buffer_bytes(*old(b)).len() + 4 <= isize::MAX,
    ensures
        buffer_bytes(*final(b)) == buffer_bytes(*old(b)) + u32_bytes(n),
{
    b.put_u32(n);
}

/// `to_vec` on the bytes that a buffer dereferences to: a vector of them.
#[verifier::external_body]
fn buffer_to_vec(b: &bytes::BytesMut) -> (r: Vec<u8>)
    ensures
        r@ == buffer_bytes(*b),
{
    b.to_vec()
}

/// The parameters of a command that reads have seven bytes: the area, the lower 24 bits of the
/// address, the bit, and the number of words.
pub proof fn read_parameters(area: u8, address: u32, bit_offset: u8, word_count: u16)
    ensures
        ({
            let p = memory_read(area, address, bit_offset, word_count);
            &&& p.len() == 7
            &&& p[0] == area
            &&& p[1] == address as int / 0x1_0000 % 0x100
            &&& p[2] == address as int / 0x100 % 0x100
            &&& p[3] == address as int % 0x100
            &&& p[4] == bit_offset
            &&& p[5] == word_count as int / 0x100
            &&& p[6] == word_count as int % 0x100
        }),
{
    let b = bytes_of(seq![word_count]);
    let p = memory_read(area, address, bit_offset, word_count);
    assert(p[5] == b[0] && p[6] == b[1]);
}

/// The parameters of a command that writes have the area, the lower 24 bits of the address, the
/// bit, the lower 16 bits of the number of words, and two bytes for each word, the upper half
/// first.
pub proof fn write_parameters(area: u8, address: u32, bit_offset: u8, words: Seq<u16>, k: int)
    ensures
        ({
            let p = memory_write(area, address, bit_offset, words);
            let n = words.len() as int;
            &&& p.len() == 7 + 2 * n
            &&& p[0] == area
            &&& p[1] == address as int / 0x1_0000 % 0x100
            &&& p[2] == address as int / 0x100 % 0x100
            &&& p[3] == address as int % 0x100
            &&& p[4] == bit_offset
            &&& p[5] == n / 0x100 % 0x100
            &&& p[6] == n % 0x100
            &&& 0 <= k < n ==> p[7 + 2 * k] == words[k] as int / 0x100 && p[8 + 2 * k]
                == words[k] as int % 0x100
        }),
{
    let n = words.len() as int;
    let p = memory_write(area, address, bit_offset, words);
    let count = (words.len() % 0x1_0000) as u16;
    let b = bytes_of(seq![count]);
    assert(p[5] == b[0] && p[6] == b[1]);
    assert(b[0] == count as int / 0x100 && b[1] == count as int % 0x100);
    assert(count as int / 0x100 == n / 0x100 % 0x100) by {
        let h = n / 0x100;
        assert(n == h * 0x100 + n % 0x100);
        let g = h / 0x100;
        assert(h == g * 0x100 + h % 0x100);
        assert(n % 0x1_0000 == (h % 0x100) * 0x100 + n % 0x100);
    }
    if 0 <= k < n {
        let w = bytes_of(words);
        assert(p[7 + 2 * k] == w[2 * k] && p[8 + 2 * k] == w[2 * k + 1]);
        assert((2 * k) / 2 == k && (2 * k) % 2 == 0);
        assert((2 * k + 1) / 2 == k && (2 * k + 1) % 2 == 1);
    }
}

/// A command frame has twelve bytes before its parameters: `80 00 02`, six zeros, the service id
/// and the two bytes of the command.
pub proof fn command_header(sid: u8, command: Seq<u8>, params: Seq<u8>)
    requires
        command.len() == 2,
    ensures
        ({
            let f = framed(sid, command, params);
            &&& f.len() == 12 + params.len()
            &&& f.take(3) == seq![0x80u8, 0, 2]
            &&& f.subrange(3, 9) == seq![0u8, 0, 0, 0, 0, 0]
            &&& f[9] == sid
            &&& f.subrange(10, 12) == command
            &&& f.skip(12) == params
        }),
{
    let f = framed(sid, command, params);
    assert(f.take(3) =~= seq![0x80u8, 0, 2]);
    assert(f.subrange(3, 9) =~= seq![0u8, 0, 0, 0, 0, 0]);
    assert(f.subrange(10, 12) =~= command);
    assert(f.skip(12) =~= params);
}

} // verus!
