//! What holds of the calls of the namespace interface.
use vstd::arithmetic::power::{lemma_pow0, lemma_pow1, lemma_pow_adds, lemma_pow_positive, pow};
use vstd::prelude::*;
use vstd::utf8::encode_utf8;

use crate::error::SysError;
use crate::ns_ffi::{call_wo_fd, check, fd_payload, getns, mkns, native_bytes, setrens};
use crate::ns_ffi::{little_endian, little_endian_len, word_bytes, word_len};
use crate::ns_ffi::{register_request, register_request_from};
use crate::ns_ffi::{ByteOrder, FdCall, NsCall};

verus! {

/// The lower half of the results of a namespace call are values, as they are. In the upper half
/// what exceeds the middle, cut down to an `i32`, is the number of an error.
pub proof fn the_upper_half_of_results_are_errors(result: usize, r: Result<usize, SysError>)
    requires
        call_ensures(check, (result,), r),
    ensures
        result <= usize::MAX / 2 ==> r == Ok::<usize, SysError>(result),
        result > usize::MAX / 2 ==> r == Err::<usize, SysError>(
            SysError { errno: (result - usize::MAX / 2 - 1) as i32 },
        ),
{
}

/// A namespace is made with just the names that it is asked for, in their order.
pub proof fn a_namespace_holds_what_it_is_asked_for(names: &Vec<String>, r: NsCall)
    requires
        call_ensures(mkns, (names,), r),
    ensures
        r matches NsCall::MkNs { names: made, flags } && flags == 0 && made@.len() == names@.len()
            && forall|i: int|
            0 <= i < names@.len() ==> (#[trigger] made@[i])@ == names@[i]@,
{
}

/// Asking for the current namespace asks for nothing else, and entering namespaces enters the
/// two that are given, each in its place.
pub proof fn namespaces_are_entered_as_given(rns: usize, ens: usize, asked: NsCall, r: NsCall)
    requires
        call_ensures(getns, (), asked),
        call_ensures(setrens, (rns, ens), r),
    ensures
        asked is GetNs,
        r matches NsCall::SetRens { rns: first, ens: second } && first == rns && second == ens,
{
}

/// A payload reaches the scheme whole, marked as one that is written and that holds a
/// descriptor, with no metadata.
pub proof fn a_payload_is_handed_over_whole(fd: usize, payload: &Vec<u8>, r: FdCall)
    requires
        call_ensures(call_wo_fd, (fd, payload), r),
    ensures
        r.number == 0x2000_0000 + 0x0100_0000 + 0x0200_0000 + 0xCA11,
        r.fd == fd,
        r.payload@ == payload@,
        r.options == 0x200 + 0x800,
{
}

proof fn lemma_digit(n: nat, len: nat, j: int)
    requires
        0 <= j < len,
    ensures
        little_endian(n, len).len() == len,
        little_endian(n, len)[j] == (n as int / pow(256, j as nat)) % 256,
    decreases len,
{
    little_endian_len(n, len);
    lemma_pow0(256);
    lemma_pow1(256);
    if j > 0 {
        let k = (j - 1) as nat;
        lemma_digit(n / 256, (len - 1) as nat, j - 1);
        lemma_pow_adds(256, 1, k);
        lemma_pow_positive(256, k);
        vstd::arithmetic::div_mod::lemma_div_denominator(n as int, 256, pow(256, k));
        assert(little_endian(n, len)[j] == little_endian(n / 256, (len - 1) as nat)[j - 1]);
    }
}

/// The bytes of a number are its digits to the base 256, as many as a word has, with the lowest
/// first or last as the order says.
pub proof fn bytes_are_digits(n: usize, order: ByteOrder, r: Vec<u8>, j: int)
    requires
        call_ensures(native_bytes, (n, order), r),
        0 <= j < usize::BITS / 8,
    ensures
        r@.len() == usize::BITS / 8,
        order is Little ==> r@[j] == (n as int / pow(256, j as nat)) % 256,
        order is Big ==> r@[r@.len() - 1 - j] == (n as int / pow(256, j as nat)) % 256,
{
    lemma_digit(n as nat, word_len(), j);
}

/// What stands for the bytes of a number in contracts is the same digits.
pub proof fn word_bytes_are_digits(n: usize, order: ByteOrder, j: int)
    requires
        0 <= j < usize::BITS / 8,
    ensures
        word_bytes(n, order).len() == usize::BITS / 8,
        order is Little ==> word_bytes(n, order)[j] == (n as int / pow(256, j as nat)) % 256,
        order is Big ==> word_bytes(n, order)[usize::BITS / 8 - 1 - j] == (n as int / pow(
            256,
            j as nat,
        )) % 256,
{
    lemma_digit(n as nat, word_len(), j);
}

/// A descriptor that is handed over is that number, as the machine keeps it.
pub proof fn a_payload_is_its_descriptor(
    fd: usize,
    order: ByteOrder,
    bytes: Vec<u8>,
    r: Vec<u8>,
)
    requires
        call_ensures(native_bytes, (fd, order), bytes),
        call_ensures(fd_payload, (fd, order), r),
    ensures
        r@ == bytes@,
{
}

/// A request is what the namespace is asked for, and after that the name of the scheme, whole.
pub proof fn a_request_ends_with_the_name(kind: Vec<u8>, name: &String, r: Vec<u8>)
    requires
        call_ensures(register_request_from, (kind, name), r),
    ensures
        r@.len() == kind@.len() + encode_utf8(name@).len(),
        r@.take(kind@.len() as int) == kind@,
        r@.skip(kind@.len() as int) == encode_utf8(name@),
{
    assert(r@.take(kind@.len() as int) =~= kind@);
    assert(r@.skip(kind@.len() as int) =~= encode_utf8(name@));
}

/// A request to register a scheme is the number 2, as the machine keeps it, and the name.
pub proof fn a_register_request_is_of_the_second_kind(
    name: &String,
    order: ByteOrder,
    kind: Vec<u8>,
    r: Vec<u8>,
)
    requires
        call_ensures(native_bytes, (2usize, order), kind),
        call_ensures(register_request, (name, order), r),
    ensures
        r@ == kind@ + encode_utf8(name@),
{
}

} // verus!
