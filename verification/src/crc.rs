//! CRC-8/CCITT: polynomial `x^8 + x^2 + x + 1` (0x07), initial value zero, no
//! reflection, no final XOR. It guards the responses sent to the host.

use vstd::prelude::*;

verus! {

/// The low eight bits of the generator polynomial.
pub const CRC8_POLYNOMIAL: u8 = 0x07;

/// The register after one bit was shifted out: the polynomial is subtracted
/// when the bit that leaves is set.
pub open spec fn crc8_shift(crc: u8) -> u8 {
    if crc & 0x80 != 0 {
        (crc << 1) ^ CRC8_POLYNOMIAL
    } else {
        crc << 1
    }
}

/// The register after `n` bits were shifted out.
pub open spec fn crc8_shifts(crc: u8, n: nat) -> u8
    decreases n,
{
    if n == 0 {
        crc
    } else {
        crc8_shift(crc8_shifts(crc, (n - 1) as nat))
    }
}

/// The register after one more byte of the message.
pub open spec fn crc8_update(crc: u8, byte: u8) -> u8 {
    crc8_shifts(crc ^ byte, 8)
}

/// The checksum of a message.
pub open spec fn crc8_ccitt_spec(data: Seq<u8>) -> u8
    decreases data.len(),
{
    if data.len() == 0 {
        0
    } else {
        crc8_update(crc8_ccitt_spec(data.drop_last()), data.last())
    }
}

/// Takes one more byte of a message into the register.
fn crc8_step(crc: u8, byte: u8) -> (next: u8)
    ensures
        next == crc8_update(crc, byte),
{
    let mut register: u8 = crc ^ byte;
    let mut bit: usize = 0;
    while bit < 8
        invariant
            0 <= bit <= 8,
            register == crc8_shifts(crc ^ byte, bit as nat),
        decreases 8 - bit,
    {
        if register & 0x80 != 0 {
            register = (register << 1) ^ CRC8_POLYNOMIAL;
        } else {
            register = register << 1;
        }
        bit = bit + 1;
    }
    register
}

/// Takes a run of bytes into the register.
fn crc8_extend(crc: u8, data: &[u8]) -> (next: u8)
    ensures
        next == crc8_extend_spec(crc, data@),
{
    let mut register: u8 = crc;
    let mut i: usize = 0;
    while i < data.len()
        invariant
            0 <= i <= data@.len(),
            register == crc8_extend_spec(crc, data@.subrange(0, i as int)),
        decreases data@.len() - i,
    {
        assert(data@.subrange(0, i + 1).drop_last() =~= data@.subrange(0, i as int));
        register = crc8_step(register, data[i]);
        i = i + 1;
    }
    assert(data@.subrange(0, i as int) =~= data@);
    register
}

/// The register after a run of bytes, starting from a given register.
pub open spec fn crc8_extend_spec(crc: u8, data: Seq<u8>) -> u8
    decreases data.len(),
{
    if data.len() == 0 {
        crc
    } else {
        crc8_update(crc8_extend_spec(crc, data.drop_last()), data.last())
    }
}

/// Reading a message in two parts gives the checksum of the whole.
pub proof fn lemma_crc8_extend(head: Seq<u8>, tail: Seq<u8>)
    ensures
        crc8_ccitt_spec(head + tail) == crc8_extend_spec(crc8_ccitt_spec(head), tail),
    decreases tail.len(),
{
    if tail.len() == 0 {
        assert(head + tail =~= head);
    } else {
        lemma_crc8_extend(head, tail.drop_last());
        assert((head + tail).drop_last() =~= head + tail.drop_last());
        assert((head + tail).last() == tail.last());
    }
}

/// The checksum of a message.
pub fn crc8_ccitt(data: &[u8]) -> (crc: u8)
    ensures
        crc == crc8_ccitt_spec(data@),
{
    proof {
        lemma_crc8_extend(Seq::empty(), data@);
        assert(Seq::<u8>::empty() + data@ =~= data@);
    }
    crc8_extend(0, data)
}

/// The checksum of a response: that of the opcode followed by the response
/// bytes.
pub fn crc8_ccitt_response(opcode: u8, response: &[u8]) -> (crc: u8)
    ensures
        crc == crc8_ccitt_spec(seq![opcode] + response@),
{
    proof {
        lemma_crc8_extend(seq![opcode], response@);
        assert(seq![opcode].drop_last() =~= Seq::<u8>::empty());
        assert(seq![opcode].last() == opcode);
        assert(crc8_ccitt_spec(Seq::<u8>::empty()) == 0);
        assert(crc8_ccitt_spec(seq![opcode]) == crc8_update(0, opcode));
    }
    crc8_extend(crc8_step(0, opcode), response)
}

proof fn lemma_shift_zero()
    by (bit_vector)
    ensures
        0u8 & 0x80 == 0,
        0u8 << 1 == 0,
        0u8 ^ 0u8 == 0,
{
}

/// The checksum of the empty message is zero, and so is that of a single
/// zero byte.
pub proof fn lemma_crc8_of_nothing()
    ensures
        crc8_ccitt_spec(Seq::empty()) == 0,
        crc8_ccitt_spec(seq![0u8]) == 0,
{
    lemma_shift_zero();
    reveal_with_fuel(crc8_shifts, 9);
    assert(crc8_shifts(0, 8) == 0);
    assert(seq![0u8].drop_last() =~= Seq::<u8>::empty());
    assert(seq![0u8].last() == 0u8);
}

} // verus!
