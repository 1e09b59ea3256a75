//! Telling IP addresses from host names.
use vstd::prelude::*;
use crate::text::chars_of;

verus! {

/// The low byte of a character's code point (what `c as u8` keeps).
pub open spec fn low_byte(c: char) -> u8 {
    (c as u32 % 256) as u8
}

/// Whether a character may continue a dotted address: a dot, or a
/// character whose low byte is an ASCII digit.
pub open spec fn address_char(c: char) -> bool {
    c == '.' || (0x30 <= low_byte(c) && low_byte(c) <= 0x39)
}

/// How many characters at the start of `s` may belong to a dotted address.
pub open spec fn address_run(s: Seq<char>) -> nat
    decreases s.len(),
{
    if s.len() == 0 || !address_char(s[0]) {
        0
    } else {
        1 + address_run(s.drop_first())
    }
}

/// How many dots `s` holds.
pub open spec fn dot_count(s: Seq<char>) -> nat
    decreases s.len(),
{
    if s.len() == 0 {
        0
    } else {
        dot_count(s.drop_last()) + if s.last() == '.' { 1nat } else { 0nat }
    }
}

/// Whether a host is taken for an IP address: the run of dots and digits
/// it starts with holds at least three dots.
pub open spec fn is_ip(s: Seq<char>) -> bool {
    dot_count(s.take(address_run(s) as int)) >= 3
}

/// The run of address characters is exactly as long as the scan found.
pub proof fn lemma_address_run(s: Seq<char>, i: int)
    requires
        0 <= i <= s.len(),
        forall|k: int| 0 <= k < i ==> address_char(#[trigger] s[k]),
    ensures
        address_run(s) >= i,
        i == s.len() || !address_char(s[i]) ==> address_run(s) == i,
    decreases i,
{
    if i > 0 {
        lemma_address_run(s.drop_first(), i - 1);
    }
}

/// The run of address characters lies within the text.
pub proof fn lemma_address_run_bound(s: Seq<char>)
    ensures
        address_run(s) <= s.len(),
    decreases s.len(),
{
    if s.len() > 0 {
        lemma_address_run_bound(s.drop_first());
    }
}

/// Counting dots over a longer prefix never gives fewer.
pub proof fn lemma_dot_count_monotone(s: Seq<char>, a: int, b: int)
    requires
        0 <= a <= b <= s.len(),
    ensures
        dot_count(s.take(a)) <= dot_count(s.take(b)),
    decreases b - a,
{
    if a < b {
        lemma_dot_count_monotone(s, a, b - 1);
        assert(s.take(b).drop_last() =~= s.take(b - 1));
    }
}

/// Whether a host is taken for an IP address rather than a domain name.
#[allow(non_snake_case)]
pub fn isIp(content: String) -> (r: bool)
    ensures
        r == is_ip(content@),
{
    let chars = chars_of(content.as_str());
    let ghost s = content@;
    let mut dots: u32 = 0;
    let mut i: usize = 0;
    assert(s.take(0) =~= Seq::<char>::empty());
    while i < chars.len()
        invariant
            i <= chars@.len(),
            chars@ == s,
            s == content@,
            forall|k: int| 0 <= k < i ==> address_char(#[trigger] s[k]),
            dots == dot_count(s.take(i as int)),
            dots < 3,
        decreases chars.len() - i,
    {
        let ch = chars[i];
        assert(s.take(i + 1).drop_last() =~= s.take(i as int));
        if ch == '.' {
            dots = dots + 1;
        } else if ((ch as u32 % 256) as u8) < 0x30 || ((ch as u32 % 256) as u8) > 0x39 {
            assert(!address_char(s[i as int]));
            proof {
                lemma_address_run(s, i as int);
            }
            return false;
        }
        if dots == 3 {
            proof {
                lemma_address_run(s, i + 1);
                lemma_address_run_bound(s);
                lemma_dot_count_monotone(s, i + 1, address_run(s) as int);
            }
            return true;
        }
        i = i + 1;
    }
    proof {
        lemma_address_run(s, i as int);
        assert(s.take(i as int) =~= s.take(address_run(s) as int));
    }
    false
}

} // verus!
