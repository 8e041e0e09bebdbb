//! Small conversions shared across the library: big-endian 32-bit
//! numbers, and the bridge between byte sequences and UTF-8 text.

use vstd::prelude::*;
use vstd::slice::{slice_index_get, slice_to_vec};
use vstd::utf8::{decode_utf8, encode_utf8, valid_utf8};

verus! {

/// The four big-endian bytes of a 32-bit number.
pub open spec fn spec_u32_to_be_bytes(number: u32) -> Seq<u8> {
    seq![
        (number / 0x1000000) as u8,
        ((number % 0x1000000) / 0x10000) as u8,
        ((number % 0x10000) / 0x100) as u8,
        (number % 0x100) as u8,
    ]
}

/// The number four big-endian bytes stand for.
pub open spec fn spec_be_bytes_to_u32(bytes: Seq<u8>) -> int {
    (bytes[0] as int) * 0x1000000 + (bytes[1] as int) * 0x10000 + (bytes[2] as int) * 0x100 + (
    bytes[3] as int)
}

/// Reading back the four big-endian bytes of a number yields the number.
pub proof fn lemma_u32_be_round_trip(number: u32)
    ensures
        spec_be_bytes_to_u32(spec_u32_to_be_bytes(number)) == number,
{
    let n = number as int;
    assert(n == (n / 0x1000000) * 0x1000000 + n % 0x1000000);
    assert(n % 0x1000000 == ((n % 0x1000000) / 0x10000) * 0x10000 + (n % 0x1000000) % 0x10000);
    assert((n % 0x1000000) % 0x10000 == n % 0x10000);
    assert(n % 0x10000 == ((n % 0x10000) / 0x100) * 0x100 + (n % 0x10000) % 0x100);
    assert((n % 0x10000) % 0x100 == n % 0x100);
}

/// The four big-endian bytes of a 32-bit number.
pub fn integer_to_bytes(integer: u32) -> (result: Vec<u8>)
    ensures
        result@ == spec_u32_to_be_bytes(integer),
{
    let mut result: Vec<u8> = Vec::new();
    result.push((integer / 0x1000000) as u8);
    result.push(((integer % 0x1000000) / 0x10000) as u8);
    result.push(((integer % 0x10000) / 0x100) as u8);
    result.push((integer % 0x100) as u8);
    proof {
        assert(result@ =~= spec_u32_to_be_bytes(integer));
    }
    result
}

/// The 32-bit number four big-endian bytes stand for.
pub fn bytes_to_integer(bytes: &[u8]) -> (result: u32)
    requires
        bytes@.len() == 4,
    ensures
        result == spec_be_bytes_to_u32(bytes@),
{
    let byte0 = *slice_index_get(bytes, 0);
    let byte1 = *slice_index_get(bytes, 1);
    let byte2 = *slice_index_get(bytes, 2);
    let byte3 = *slice_index_get(bytes, 3);
    (byte0 as u32) * 0x1000000 + (byte1 as u32) * 0x10000 + (byte2 as u32) * 0x100 + (byte3 as u32)
}

/// The UTF-8 bytes of a piece of text.
pub fn string_to_bytes(text: &str) -> (result: Vec<u8>)
    ensures
        result@ == encode_utf8(text@),
{
    slice_to_vec(text.as_bytes())
}

/// Relies on String::from_utf8: it succeeds exactly on valid UTF-8
/// input and decodes it; the decoding is a function of the bytes alone.
#[verifier::external_body]
pub fn bytes_to_string(data: &[u8]) -> (result: Option<String>)
    ensures
        result is Some <==> valid_utf8(data@),
        result matches Some(text) ==> text@ == decode_utf8(data@),
{
    match String::from_utf8(data.to_vec()) {
        Ok(text) => Some(text),
        Err(_) => None,
    }
}

/// Whether two byte slices hold the same bytes.
pub fn bytes_equal(left: &[u8], right: &[u8]) -> (result: bool)
    ensures
        result == (left@ == right@),
{
    if left.len() != right.len() {
        return false;
    }
    let mut k: usize = 0;
    while k < left.len()
        invariant
            k <= left@.len(),
            left@.len() == right@.len(),
            forall|j: int| 0 <= j < k ==> left@[j] == right@[j],
        decreases left@.len() - k,
    {
        if *slice_index_get(left, k) != *slice_index_get(right, k) {
            return false;
        }
        k = k + 1;
    }
    proof {
        assert(left@ =~= right@);
    }
    true
}

/// The character of one decimal digit.
pub open spec fn spec_decimal_digit(digit: int) -> char {
    if digit == 0 {
        '0'
    } else if digit == 1 {
        '1'
    } else if digit == 2 {
        '2'
    } else if digit == 3 {
        '3'
    } else if digit == 4 {
        '4'
    } else if digit == 5 {
        '5'
    } else if digit == 6 {
        '6'
    } else if digit == 7 {
        '7'
    } else if digit == 8 {
        '8'
    } else {
        '9'
    }
}

/// The character of one lowercase hexadecimal digit.
pub open spec fn spec_hex_digit(digit: int) -> char {
    if digit < 10 {
        spec_decimal_digit(digit)
    } else if digit == 10 {
        'a'
    } else if digit == 11 {
        'b'
    } else if digit == 12 {
        'c'
    } else if digit == 13 {
        'd'
    } else if digit == 14 {
        'e'
    } else {
        'f'
    }
}

/// The decimal text of a byte-sized number, without leading zeros.
pub open spec fn spec_u8_decimal(number: int) -> Seq<char> {
    if number < 10 {
        seq![spec_decimal_digit(number)]
    } else if number < 100 {
        seq![spec_decimal_digit(number / 10), spec_decimal_digit(number % 10)]
    } else {
        seq![
            spec_decimal_digit(number / 100),
            spec_decimal_digit((number / 10) % 10),
            spec_decimal_digit(number % 10),
        ]
    }
}

/// The lowercase hexadecimal text of a sixteen-bit number, without
/// leading zeros.
pub open spec fn spec_u16_hex(number: int) -> Seq<char> {
    if number < 0x10 {
        seq![spec_hex_digit(number)]
    } else if number < 0x100 {
        seq![spec_hex_digit(number / 0x10), spec_hex_digit(number % 0x10)]
    } else if number < 0x1000 {
        seq![
            spec_hex_digit(number / 0x100),
            spec_hex_digit((number / 0x10) % 0x10),
            spec_hex_digit(number % 0x10),
        ]
    } else {
        seq![
            spec_hex_digit(number / 0x1000),
            spec_hex_digit((number / 0x100) % 0x10),
            spec_hex_digit((number / 0x10) % 0x10),
            spec_hex_digit(number % 0x10),
        ]
    }
}

/// The dotted decimal text of a four-byte IPv4 address.
pub open spec fn spec_ipv4_text(bytes: Seq<u8>) -> Seq<char> {
    spec_u8_decimal(bytes[0] as int) + seq!['.'] + spec_u8_decimal(bytes[1] as int) + seq!['.']
        + spec_u8_decimal(bytes[2] as int) + seq!['.'] + spec_u8_decimal(bytes[3] as int)
}

/// One colon-separated group of a sixteen-byte IPv6 address.
pub open spec fn spec_ipv6_group(bytes: Seq<u8>, group: int) -> int {
    (bytes[2 * group] as int) * 256 + (bytes[2 * group + 1] as int)
}

/// The text of a sixteen-byte IPv6 address: eight colon-separated
/// hexadecimal groups, leading zeros trimmed, no zero compression.
pub open spec fn spec_ipv6_text(bytes: Seq<u8>) -> Seq<char> {
    spec_u16_hex(spec_ipv6_group(bytes, 0)) + seq![':'] + spec_u16_hex(spec_ipv6_group(bytes, 1))
        + seq![':'] + spec_u16_hex(spec_ipv6_group(bytes, 2)) + seq![':'] + spec_u16_hex(
        spec_ipv6_group(bytes, 3),
    ) + seq![':'] + spec_u16_hex(spec_ipv6_group(bytes, 4)) + seq![':'] + spec_u16_hex(
        spec_ipv6_group(bytes, 5),
    ) + seq![':'] + spec_u16_hex(spec_ipv6_group(bytes, 6)) + seq![':'] + spec_u16_hex(
        spec_ipv6_group(bytes, 7),
    )
}

/// The text of an IPv6 prefix: the address, a slash, the prefix length.
pub open spec fn spec_ipv6_prefix_text(prefix_length: u8, bytes: Seq<u8>) -> Seq<char> {
    spec_ipv6_text(bytes) + seq!['/'] + spec_u8_decimal(prefix_length as int)
}

/// Appends the character of one decimal digit.
fn push_decimal_digit(out: &mut String, digit: u8)
    requires
        digit < 10,
    ensures
        final(out)@ == old(out)@ + seq![spec_decimal_digit(digit as int)],
{
    proof {
        reveal_strlit("0");
        reveal_strlit("1");
        reveal_strlit("2");
        reveal_strlit("3");
        reveal_strlit("4");
        reveal_strlit("5");
        reveal_strlit("6");
        reveal_strlit("7");
        reveal_strlit("8");
        reveal_strlit("9");
        assert(("0")@ =~= seq!['0']);
        assert(("1")@ =~= seq!['1']);
        assert(("2")@ =~= seq!['2']);
        assert(("3")@ =~= seq!['3']);
        assert(("4")@ =~= seq!['4']);
        assert(("5")@ =~= seq!['5']);
        assert(("6")@ =~= seq!['6']);
        assert(("7")@ =~= seq!['7']);
        assert(("8")@ =~= seq!['8']);
        assert(("9")@ =~= seq!['9']);
    }
    if digit == 0 {
        out.append("0");
    } else if digit == 1 {
        out.append("1");
    } else if digit == 2 {
        out.append("2");
    } else if digit == 3 {
        out.append("3");
    } else if digit == 4 {
        out.append("4");
    } else if digit == 5 {
        out.append("5");
    } else if digit == 6 {
        out.append("6");
    } else if digit == 7 {
        out.append("7");
    } else if digit == 8 {
        out.append("8");
    } else {
        out.append("9");
    }
}

/// Appends the character of one lowercase hexadecimal digit.
fn push_hex_digit(out: &mut String, digit: u8)
    requires
        digit < 16,
    ensures
        final(out)@ == old(out)@ + seq![spec_hex_digit(digit as int)],
{
    if digit < 10 {
        push_decimal_digit(out, digit);
    } else {
        proof {
            reveal_strlit("a");
            reveal_strlit("b");
            reveal_strlit("c");
            reveal_strlit("d");
            reveal_strlit("e");
            reveal_strlit("f");
            assert(("a")@ =~= seq!['a']);
            assert(("b")@ =~= seq!['b']);
            assert(("c")@ =~= seq!['c']);
            assert(("d")@ =~= seq!['d']);
            assert(("e")@ =~= seq!['e']);
            assert(("f")@ =~= seq!['f']);
        }
        if digit == 10 {
            out.append("a");
        } else if digit == 11 {
            out.append("b");
        } else if digit == 12 {
            out.append("c");
        } else if digit == 13 {
            out.append("d");
        } else if digit == 14 {
            out.append("e");
        } else {
            out.append("f");
        }
    }
}

/// Appends the decimal text of a byte-sized number.
fn push_u8_decimal(out: &mut String, number: u8)
    ensures
        final(out)@ == old(out)@ + spec_u8_decimal(number as int),
{
    if number < 10 {
        push_decimal_digit(out, number);
    } else if number < 100 {
        push_decimal_digit(out, number / 10);
        push_decimal_digit(out, number % 10);
        proof {
            assert(out@ =~= old(out)@ + spec_u8_decimal(number as int));
        }
    } else {
        push_decimal_digit(out, number / 100);
        push_decimal_digit(out, (number / 10) % 10);
        push_decimal_digit(out, number % 10);
        proof {
            assert(out@ =~= old(out)@ + spec_u8_decimal(number as int));
        }
    }
}

/// Appends the lowercase hexadecimal text of a sixteen-bit number.
fn push_u16_hex(out: &mut String, number: u16)
    ensures
        final(out)@ == old(out)@ + spec_u16_hex(number as int),
{
    if number < 0x10 {
        push_hex_digit(out, number as u8);
    } else if number < 0x100 {
        push_hex_digit(out, (number / 0x10) as u8);
        push_hex_digit(out, (number % 0x10) as u8);
        proof {
            assert(out@ =~= old(out)@ + spec_u16_hex(number as int));
        }
    } else if number < 0x1000 {
        push_hex_digit(out, (number / 0x100) as u8);
        push_hex_digit(out, ((number / 0x10) % 0x10) as u8);
        push_hex_digit(out, (number % 0x10) as u8);
        proof {
            assert(out@ =~= old(out)@ + spec_u16_hex(number as int));
        }
    } else {
        push_hex_digit(out, (number / 0x1000) as u8);
        push_hex_digit(out, ((number / 0x100) % 0x10) as u8);
        push_hex_digit(out, ((number / 0x10) % 0x10) as u8);
        push_hex_digit(out, (number % 0x10) as u8);
        proof {
            assert(out@ =~= old(out)@ + spec_u16_hex(number as int));
        }
    }
}

/// The dotted decimal text of a four-byte IPv4 address.
pub fn bytes_to_ipv4_string(bytes: &[u8]) -> (result: String)
    requires
        bytes@.len() == 4,
    ensures
        result@ == spec_ipv4_text(bytes@),
{
    proof {
        reveal_strlit(".");
        assert((".")@ =~= seq!['.']);
    }
    let mut out = String::new();
    push_u8_decimal(&mut out, *slice_index_get(bytes, 0));
    out.append(".");
    push_u8_decimal(&mut out, *slice_index_get(bytes, 1));
    out.append(".");
    push_u8_decimal(&mut out, *slice_index_get(bytes, 2));
    out.append(".");
    push_u8_decimal(&mut out, *slice_index_get(bytes, 3));
    proof {
        assert(out@ =~= spec_ipv4_text(bytes@));
    }
    out
}

/// The text of a sixteen-byte IPv6 address: eight colon-separated
/// hexadecimal groups, leading zeros trimmed, no zero compression.
pub fn bytes_to_ipv6_string(bytes: &[u8]) -> (result: String)
    requires
        bytes@.len() == 16,
    ensures
        result@ == spec_ipv6_text(bytes@),
{
    proof {
        reveal_strlit(":");
        assert((":")@ =~= seq![':']);
    }
    let mut out = String::new();
    let mut group: usize = 0;
    while group < 8
        invariant
            group <= 8,
            bytes@.len() == 16,
            out@ == spec_ipv6_text_prefix(bytes@, group as int),
        decreases 8 - group,
    {
        proof {
            reveal_strlit(":");
            assert((":")@ =~= seq![':']);
        }
        if group > 0 {
            out.append(":");
        }
        let high = *slice_index_get(bytes, 2 * group);
        let low = *slice_index_get(bytes, 2 * group + 1);
        let value: u16 = (high as u16) * 256 + (low as u16);
        assert(value as int == spec_ipv6_group(bytes@, group as int));
        push_u16_hex(&mut out, value);
        proof {
            assert(out@ =~= spec_ipv6_text_prefix(bytes@, group as int + 1));
        }
        group = group + 1;
    }
    proof {
        reveal_with_fuel(spec_ipv6_text_prefix, 9);
        assert(spec_ipv6_text_prefix(bytes@, 8) =~= spec_ipv6_text(bytes@));
    }
    out
}

/// The first `groups` colon-separated groups of an IPv6 address text.
pub open spec fn spec_ipv6_text_prefix(bytes: Seq<u8>, groups: int) -> Seq<char>
    decreases groups,
{
    if groups <= 0 {
        Seq::empty()
    } else if groups == 1 {
        spec_u16_hex(spec_ipv6_group(bytes, 0))
    } else {
        spec_ipv6_text_prefix(bytes, groups - 1) + seq![':'] + spec_u16_hex(
            spec_ipv6_group(bytes, groups - 1),
        )
    }
}

/// The text of an IPv6 prefix: the address, a slash, the prefix length.
pub fn ipv6_prefix_to_string(prefix_length: u8, address: &[u8]) -> (result: String)
    requires
        address@.len() == 16,
    ensures
        result@ == spec_ipv6_prefix_text(prefix_length, address@),
{
    proof {
        reveal_strlit("/");
        assert(("/")@ =~= seq!['/']);
    }
    let mut out = bytes_to_ipv6_string(address);
    out.append("/");
    push_u8_decimal(&mut out, prefix_length);
    proof {
        assert(out@ =~= spec_ipv6_prefix_text(prefix_length, address@));
    }
    out
}

/// The decimal text of a sixteen-bit number, without leading zeros.
pub open spec fn spec_u16_decimal(number: int) -> Seq<char> {
    if number < 10 {
        seq![spec_decimal_digit(number)]
    } else if number < 100 {
        seq![spec_decimal_digit(number / 10), spec_decimal_digit(number % 10)]
    } else if number < 1000 {
        seq![
            spec_decimal_digit(number / 100),
            spec_decimal_digit((number / 10) % 10),
            spec_decimal_digit(number % 10),
        ]
    } else if number < 10000 {
        seq![
            spec_decimal_digit(number / 1000),
            spec_decimal_digit((number / 100) % 10),
            spec_decimal_digit((number / 10) % 10),
            spec_decimal_digit(number % 10),
        ]
    } else {
        seq![
            spec_decimal_digit(number / 10000),
            spec_decimal_digit((number / 1000) % 10),
            spec_decimal_digit((number / 100) % 10),
            spec_decimal_digit((number / 10) % 10),
            spec_decimal_digit(number % 10),
        ]
    }
}

/// Appends the decimal text of a sixteen-bit number.
pub fn push_u16_decimal(out: &mut String, number: u16)
    ensures
        final(out)@ == old(out)@ + spec_u16_decimal(number as int),
{
    if number < 100 {
        push_u8_decimal(out, number as u8);
        proof {
            assert(out@ =~= old(out)@ + spec_u16_decimal(number as int));
        }
    } else if number < 1000 {
        push_decimal_digit(out, (number / 100) as u8);
        push_decimal_digit(out, ((number / 10) % 10) as u8);
        push_decimal_digit(out, (number % 10) as u8);
        proof {
            assert(out@ =~= old(out)@ + spec_u16_decimal(number as int));
        }
    } else if number < 10000 {
        push_decimal_digit(out, (number / 1000) as u8);
        push_decimal_digit(out, ((number / 100) % 10) as u8);
        push_decimal_digit(out, ((number / 10) % 10) as u8);
        push_decimal_digit(out, (number % 10) as u8);
        proof {
            assert(out@ =~= old(out)@ + spec_u16_decimal(number as int));
        }
    } else {
        push_decimal_digit(out, (number / 10000) as u8);
        push_decimal_digit(out, ((number / 1000) % 10) as u8);
        push_decimal_digit(out, ((number / 100) % 10) as u8);
        push_decimal_digit(out, ((number / 10) % 10) as u8);
        push_decimal_digit(out, (number % 10) as u8);
        proof {
            assert(out@ =~= old(out)@ + spec_u16_decimal(number as int));
        }
    }
}

} // verus!
