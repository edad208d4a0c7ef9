//! Calls into the system's namespace interface: what goes in, and what comes back.
use vstd::prelude::*;
use vstd::utf8::{encode_utf8, encode_utf8_decode_utf8};

use crate::error::SysError;

verus! {

/// Call flag: the payload goes from the caller to the scheme.
pub const CALL_WRITE: usize = 0x200;

/// Call flag: the payload holds a file descriptor.
pub const CALL_FD: usize = 0x800;

/// Number of the system call that hands a payload to a scheme.
pub const SYS_CALL: usize = 0x2300_CA11;

/// What a namespace is asked for when a scheme is to be registered on it.
pub const ISSUE_REGISTER: usize = 2;

/// A call of the namespace interface.
#[derive(Debug, PartialEq, Eq)]
pub enum NsCall {
    /// Ask for the current namespace.
    GetNs,
    /// Create a namespace that holds the schemes with these names.
    MkNs { names: Vec<String>, flags: u32 },
    /// Enter other namespaces.
    SetRens { rns: usize, ens: usize },
}

/// A system call on a file descriptor that hands over a payload, with no metadata.
#[derive(Debug, PartialEq, Eq)]
pub struct FdCall {
    pub number: usize,
    pub fd: usize,
    pub payload: Vec<u8>,
    /// The length of the metadata, joined with the call flags.
    pub options: usize,
}

/// The order in which a machine keeps the bytes of a number.
#[derive(Clone, Copy, Debug, PartialEq, Eq, Structural)]
pub enum ByteOrder {
    /// The lowest byte comes first.
    Little,
    /// The lowest byte comes last.
    Big,
}

/// The smallest result that stands for an error: one with the highest bit set.
pub open spec fn error_base() -> int {
    usize::MAX as int / 2 + 1
}

/// What the result of a namespace call stands for: with the highest bit set, the other bits,
/// cut down to an `i32`, are the number of an error.
pub open spec fn checked(result: usize) -> Result<usize, SysError> {
    if result >= error_base() {
        Err(SysError { errno: (result - error_base()) as i32 })
    } else {
        Ok(result)
    }
}

/// The `len` lowest bytes of `n`, the lowest first.
pub open spec fn little_endian(n: nat, len: nat) -> Seq<u8>
    decreases len,
{
    if len == 0 {
        Seq::empty()
    } else {
        seq![(n % 256) as u8] + little_endian(n / 256, (len - 1) as nat)
    }
}

/// The number of bytes of a `usize`.
pub open spec fn word_len() -> nat {
    (usize::BITS / 8) as nat
}

/// The bytes of `n` in memory, on a machine that keeps them in `order`.
pub open spec fn word_bytes(n: usize, order: ByteOrder) -> Seq<u8> {
    match order {
        ByteOrder::Little => little_endian(n as nat, word_len()),
        ByteOrder::Big => little_endian(n as nat, word_len()).reverse(),
    }
}

/// What asks a namespace to let a scheme called `name` be registered.
pub open spec fn request_bytes(name: Seq<char>, order: ByteOrder) -> Seq<u8> {
    word_bytes(ISSUE_REGISTER, order) + encode_utf8(name)
}

/// Error of `redox_syscall` for an error number: `syscall::Error::new` keeps the number that
/// it is given in the field `errno`, and that number is handed on.
#[verifier::external_body]
fn syscall_error(errno: i32) -> (r: SysError)
    ensures
        r.errno == errno,
{
    SysError { errno: syscall::Error::new(errno).errno }
}

/// There are as many little-endian bytes as were asked for.
pub proof fn little_endian_len(n: nat, len: nat)
    ensures
        little_endian(n, len).len() == len,
    decreases len,
{
    if len > 0 {
        little_endian_len(n / 256, (len - 1) as nat);
    }
}

/// 256 to the power of `len`.
pub open spec fn byte_strings(len: nat) -> nat
    decreases len,
{
    if len == 0 {
        1
    } else {
        256 * byte_strings((len - 1) as nat)
    }
}

/// Enough bytes of a number tell the number.
pub proof fn little_endian_is_injective(a: nat, b: nat, len: nat)
    requires
        a < byte_strings(len),
        b < byte_strings(len),
        little_endian(a, len) == little_endian(b, len),
    ensures
        a == b,
    decreases len,
{
    if len > 0 {
        let x = little_endian(a, len);
        let y = little_endian(b, len);
        let rest = (len - 1) as nat;
        assert(x[0] == (a % 256) as u8);
        assert(y[0] == (b % 256) as u8);
        assert(x.skip(1) =~= little_endian(a / 256, rest));
        assert(y.skip(1) =~= little_endian(b / 256, rest));
        little_endian_is_injective(a / 256, b / 256, rest);
    }
}

/// Of two numbers that differ, the bytes differ in either byte order.
pub proof fn bytes_tell_the_number(a: usize, b: usize, order: ByteOrder)
    requires
        a != b,
    ensures
        word_bytes(a, order) != word_bytes(b, order),
{
    let x = little_endian(a as nat, word_len());
    let y = little_endian(b as nat, word_len());
    assert(usize::MAX < byte_strings(word_len())) by {
        reveal_with_fuel(byte_strings, 9);
        assert(usize::BITS == 32 || usize::BITS == 64);
    }
    if x == y {
        little_endian_is_injective(a as nat, b as nat, word_len());
    }
    if x.reverse() == y.reverse() {
        assert(x =~= x.reverse().reverse());
        assert(y =~= y.reverse().reverse());
    }
}

/// Requests for schemes with different names differ.
pub proof fn requests_tell_the_scheme(a: Seq<char>, b: Seq<char>, order: ByteOrder)
    requires
        a != b,
    ensures
        request_bytes(a, order) != request_bytes(b, order),
{
    let x = request_bytes(a, order);
    let y = request_bytes(b, order);
    let kind = word_bytes(ISSUE_REGISTER, order);
    assert(x.skip(kind.len() as int) =~= encode_utf8(a));
    assert(y.skip(kind.len() as int) =~= encode_utf8(b));
    encode_utf8_decode_utf8(a);
    encode_utf8_decode_utf8(b);
}

/// Tells an error from a value in what a namespace call handed back.
pub fn check(result: usize) -> (r: Result<usize, SysError>)
    ensures
        r == checked(result),
{
    let error_bit: usize = 1usize << (usize::BITS - 1);
    proof {
        let top: usize = !0usize;
        let max: usize = usize::MAX;
        assert(max <= !0usize) by (bit_vector);
        assert(error_bit == top / 2 + 1) by (bit_vector)
            requires
                top == !0usize,
                error_bit == 1usize << ((usize::BITS - 1) as u32),
        ;
        assert(result & error_bit != 0 <==> result >= error_bit) by (bit_vector)
            requires
                error_bit == 1usize << ((usize::BITS - 1) as u32),
        ;
    }
    if result & error_bit != 0 {
        assert((result & !error_bit) as i32 == (result - error_bit) as i32) by (bit_vector)
            requires
                error_bit == 1usize << ((usize::BITS - 1) as u32),
                result >= error_bit,
        ;
        Err(syscall_error((result & !error_bit) as i32))
    } else {
        Ok(result)
    }
}

/// Creates a namespace that holds `scheme_names`, in their order, and nothing else.
pub fn mkns(scheme_names: &Vec<String>) -> (r: NsCall)
    ensures
        r matches NsCall::MkNs { names, flags } && names@ == scheme_names@ && flags == 0,
{
    let names: Vec<String> = scheme_names.clone();
    assert(names@ =~= scheme_names@);
    NsCall::MkNs { names, flags: 0 }
}

/// Asks for the current namespace.
pub fn getns() -> (r: NsCall)
    ensures
        r == NsCall::GetNs,
{
    NsCall::GetNs
}

/// Enters the namespaces `rns` and `ens`.
pub fn setrens(rns: usize, ens: usize) -> (r: NsCall)
    ensures
        r == (NsCall::SetRens { rns, ens }),
{
    NsCall::SetRens { rns, ens }
}

/// Hands `payload`, which holds a file descriptor, to the scheme behind `fd`.
pub fn call_wo_fd(fd: usize, payload: &Vec<u8>) -> (r: FdCall)
    ensures
        r.number == 0x2300_CA11,
        r.fd == fd,
        r.payload@ == payload@,
        r.options == 0xA00,
{
    let metadata_len: usize = 0;
    let flags: usize = CALL_WRITE | CALL_FD;
    assert(0x200usize | 0x800usize == 0xA00usize) by (bit_vector);
    assert(0usize | 0xA00usize == 0xA00usize) by (bit_vector);
    let data: Vec<u8> = payload.clone();
    assert(data@ =~= payload@);
    FdCall { number: SYS_CALL, fd, payload: data, options: metadata_len | flags }
}

/// The bytes of `n` in memory, on a machine that keeps them in `order`.
pub fn native_bytes(n: usize, order: ByteOrder) -> (r: Vec<u8>)
    ensures
        r@ == word_bytes(n, order),
{
    let len: usize = (usize::BITS / 8) as usize;
    let ghost all = little_endian(n as nat, len as nat);
    let mut low_first: Vec<u8> = Vec::new();
    let mut rest: usize = n;
    let mut i: usize = 0;
    while i < len
        invariant
            i <= len,
            low_first@.len() == i,
            low_first@ + little_endian(rest as nat, (len - i) as nat) == all,
        decreases len - i,
    {
        let ghost done = low_first@;
        low_first.push((rest % 256) as u8);
        assert(low_first@ + little_endian((rest / 256) as nat, (len - i - 1) as nat) =~= done
            + little_endian(rest as nat, (len - i) as nat));
        rest = rest / 256;
        i = i + 1;
    }
    assert(low_first@ =~= all);
    match order {
        ByteOrder::Little => low_first,
        ByteOrder::Big => {
            let mut high_first: Vec<u8> = Vec::new();
            let mut left: usize = len;
            while left > 0
                invariant
                    left <= len,
                    low_first@ == all,
                    all.len() == len,
                    high_first@ == all.skip(left as int).reverse(),
                decreases left,
            {
                left = left - 1;
                high_first.push(low_first[left]);
                assert(all.skip(left as int).reverse() =~= all.skip(left + 1).reverse().push(
                    all[left as int],
                ));
            }
            assert(all.skip(0) =~= all);
            high_first
        },
    }
}

/// A request to a namespace: what it is asked for, and the name of the scheme.
pub fn register_request_from(kind: Vec<u8>, name: &String) -> (r: Vec<u8>)
    ensures
        r@ == kind@ + encode_utf8(name@),
{
    let mut r: Vec<u8> = kind;
    let mut tail: Vec<u8> = name.as_str().as_bytes_vec();
    r.append(&mut tail);
    r
}

/// The request to let a scheme called `name` be registered on a namespace.
pub fn register_request(name: &String, order: ByteOrder) -> (r: Vec<u8>)
    ensures
        r@ == request_bytes(name@, order),
{
    register_request_from(native_bytes(ISSUE_REGISTER, order), name)
}

/// The payload that hands over the file descriptor `fd`.
pub fn fd_payload(fd: usize, order: ByteOrder) -> (r: Vec<u8>)
    ensures
        r@ == word_bytes(fd, order),
{
    native_bytes(fd, order)
}

} // verus!
