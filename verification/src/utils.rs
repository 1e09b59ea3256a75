//! Rendering numbers and bytes as text: decimal and hexadecimal numbers,
//! byte pairs and packet dumps.
use vstd::prelude::*;
use crate::text::{push_char, push_chars, push_str, string_of};

verus! {

/// The character for a four-bit value in upper-case hexadecimal; `'0'` for
/// any value that does not fit in four bits.
pub open spec fn nibble_char(num: u8) -> char {
    if num > 15 {
        '0'
    } else if num > 9 {
        (num - 10 + 65) as char
    } else {
        (num + 48) as char
    }
}

/// Upper-case hexadecimal digit of a nibble.
pub fn hex_nibble(num: u8) -> (c: char)
    ensures
        c == nibble_char(num),
{
    if num > 0xF {
        return '0';
    }
    let nibble: u8 = if num > 0x9 { num + 7 } else { num };
    (0x30 + nibble) as char
}

/// The two upper-case hexadecimal digits of a byte.
pub open spec fn byte_hex(byte: u8) -> Seq<char> {
    seq![nibble_char(byte / 16), nibble_char(byte % 16)]
}

/// The two upper-case hexadecimal digits of a byte.
pub fn hexa(byte: u8) -> (s: String)
    ensures
        s@ == byte_hex(byte),
{
    assert((byte & 0xF0) >> 4 == byte / 16 && byte & 0x0F == byte % 16) by (bit_vector);
    let (nibble1, nibble2) = (hex_nibble((byte & 0xF0) >> 4), hex_nibble(byte & 0x0F));
    let mut strr = String::new();
    push_char(&mut strr, nibble1);
    push_char(&mut strr, nibble2);
    strr
}

/// Decimal digit for a value below ten.
pub open spec fn digit_char(d: nat) -> char {
    (d + 48) as char
}

/// The decimal numeral of `n`, without leading zeros.
pub open spec fn decimal(n: nat) -> Seq<char>
    decreases n,
{
    if n < 10 {
        seq![digit_char(n)]
    } else {
        decimal(n / 10).push(digit_char(n % 10))
    }
}

/// The decimal numeral of `n`.
pub fn decimal_chars(n: u64) -> (v: Vec<char>)
    ensures
        v@ == decimal(n as nat),
    decreases n,
{
    let d: u8 = (n % 10) as u8;
    let c = (48 + d) as char;
    if n < 10 {
        let mut v = Vec::new();
        v.push(c);
        v
    } else {
        let mut v = decimal_chars(n / 10);
        v.push(c);
        v
    }
}

/// The upper-case hexadecimal numeral of `n`, without leading zeros.
pub open spec fn hex_upper(n: nat) -> Seq<char>
    decreases n,
{
    if n < 16 {
        seq![nibble_char(n as u8)]
    } else {
        hex_upper(n / 16).push(nibble_char((n % 16) as u8))
    }
}

/// The upper-case hexadecimal numeral of `n`.
pub fn hex_chars(n: usize) -> (v: Vec<char>)
    ensures
        v@ == hex_upper(n as nat),
    decreases n,
{
    let c = hex_nibble((n % 16) as u8);
    if n < 16 {
        let mut v = Vec::new();
        v.push(c);
        v
    } else {
        let mut v = hex_chars(n / 16);
        v.push(c);
        v
    }
}

/// How a byte shows in the text column of a dump: itself if it is a
/// visible ASCII character, `.` otherwise.
pub open spec fn printable(b: u8) -> char {
    if 0x20 < b && b < 0x7f {
        b as char
    } else {
        '.'
    }
}

/// The text column for `data[lo..hi]`.
pub open spec fn text_column(data: Seq<u8>, lo: int, hi: int) -> Seq<char> {
    Seq::new((hi - lo) as nat, |k: int| printable(data[lo + k]))
}

/// `count` placeholder cells `00 `.
pub open spec fn zero_cells(count: nat) -> Seq<char>
    decreases count,
{
    if count == 0 {
        Seq::empty()
    } else {
        zero_cells((count - 1) as nat) + seq!['0', '0', ' ']
    }
}

/// What a dump shows for byte `i`: its two hex digits and a space; after a
/// byte at a multiple of 16 that is not the first nor the last, the text
/// of the sixteen bytes before it and a new line headed by its offset in
/// hex; after the last byte, placeholder cells up to the end of its row
/// and the text of its row's bytes before it.
pub open spec fn dump_entry(data: Seq<u8>, i: int) -> Seq<char> {
    let n = data.len();
    byte_hex(data[i]) + seq![' '] + if i % 16 == 0 && i > 0 && i != n - 1 {
        text_column(data, i - 16, i) + seq!['\n'] + hex_upper(i as nat) + seq![':', ' ']
    } else if i == n - 1 {
        (if i % 16 != 0 { zero_cells((16 - i % 16) as nat) } else { Seq::empty() })
            + text_column(data, i - i % 16, i)
    } else {
        Seq::empty()
    }
}

/// The dump of the first `k` bytes of `data`.
pub open spec fn dump_prefix(data: Seq<u8>, k: int) -> Seq<char>
    decreases k,
{
    if k <= 0 {
        seq!['0', ':', ' ']
    } else {
        dump_prefix(data, k - 1) + dump_entry(data, k - 1)
    }
}

/// The dump of `data`.
pub open spec fn dump_of(data: Seq<u8>) -> Seq<char> {
    dump_prefix(data, data.len() as int)
}

/// Appends the text column for `data[lo..hi]`.
fn push_text_column(content: &mut String, data: &[u8], lo: usize, hi: usize)
    requires
        lo <= hi <= data@.len(),
    ensures
        final(content)@ == old(content)@ + text_column(data@, lo as int, hi as int),
{
    let ghost start = content@;
    let mut k = lo;
    while k < hi
        invariant
            lo <= k <= hi <= data@.len(),
            content@ == start + text_column(data@, lo as int, k as int),
        decreases hi - k,
    {
        let ch = data[k];
        let c = if ch > 0x20 && ch < 0x7f { ch as char } else { '.' };
        push_char(content, c);
        assert(text_column(data@, lo as int, k + 1) =~= text_column(data@, lo as int, k as int).push(c));
        k = k + 1;
    }
}

/// Appends `count` placeholder cells.
fn push_zero_cells(content: &mut String, count: usize)
    ensures
        final(content)@ == old(content)@ + zero_cells(count as nat),
{
    let ghost start = content@;
    let mut k: usize = 0;
    while k < count
        invariant
            k <= count,
            content@ == start + zero_cells(k as nat),
        decreases count - k,
    {
        push_char(content, '0');
        push_char(content, '0');
        push_char(content, ' ');
        k = k + 1;
    }
}

/// A dump of a packet: rows of sixteen bytes in hex with their text.
pub fn hexdump(data: Vec<u8>) -> (content: String)
    ensures
        content@ == dump_of(data@),
{
    let n = data.len();
    let mut len: usize = 0;
    let mut content = string_of(&['0', ':', ' ']);
    while len < n
        invariant
            len <= n == data@.len(),
            content@ == dump_prefix(data@, len as int),
        decreases n - len,
    {
        let ghost before = content@;
        let hex_byte = hexa(data[len]);
        push_str(&mut content, hex_byte.as_str());
        push_char(&mut content, ' ');
        let ghost with_hex = content@;
        if len % 16 == 0 && len > 0 && n - len - 1 != 0 {
            push_text_column(&mut content, data.as_slice(), len - 16, len);
            push_char(&mut content, '\n');
            let offset = hex_chars(len);
            push_chars(&mut content, offset.as_slice());
            push_char(&mut content, ':');
            push_char(&mut content, ' ');
        } else if len == n - 1 {
            if len % 16 != 0 {
                push_zero_cells(&mut content, 16 - len % 16);
            }
            push_text_column(&mut content, data.as_slice(), len - len % 16, len);
        }
        assert(content@ =~= before + dump_entry(data@, len as int));
        len = len + 1;
    }
    content
}


/// A decimal numeral is made of ASCII digits; from ten on it has at least
/// two.
pub proof fn lemma_decimal_digits(n: nat)
    ensures
        decimal(n).len() >= 1,
        n >= 10 ==> decimal(n).len() >= 2,
        forall|k: int| 0 <= k < decimal(n).len() ==> '0' <= #[trigger] decimal(n)[k] <= '9',
    decreases n,
{
    if n >= 10 {
        lemma_decimal_digits(n / 10);
    }
}

} // verus!
