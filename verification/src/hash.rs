use vstd::prelude::*;

verus! {

/// The offset basis of 64-bit FNV-1a.
pub const FNV_OFFSET_BASIS: u64 = 0xcbf2_9ce4_8422_2325;

/// The prime of 64-bit FNV-1a.
pub const FNV_PRIME: u64 = 0x0000_0100_0000_01b3;

/// One FNV-1a round: xor the byte in, then multiply by the prime modulo 2^64.
pub open spec fn fnv_step(h: u64, b: u8) -> u64 {
    vstd::wrapping::u64_specs::wrapping_mul(h ^ (b as u64), FNV_PRIME)
}

/// Feed the four little-endian bytes of a character's code point into the hash.
pub open spec fn fnv_char(h: u64, c: char) -> u64 {
    let x = c as u32;
    fnv_step(
        fnv_step(
            fnv_step(fnv_step(h, (x & 0xff) as u8), ((x >> 8) & 0xff) as u8),
            ((x >> 16) & 0xff) as u8,
        ),
        ((x >> 24) & 0xff) as u8,
    )
}

/// Hash a character sequence from left to right.
pub open spec fn fnv_chars(h: u64, s: Seq<char>) -> u64
    decreases s.len(),
{
    if s.len() == 0 {
        h
    } else {
        fnv_chars(fnv_char(h, s[0]), s.subrange(1, s.len() as int))
    }
}

/// Hash one optional text field: a marker byte tells absent from present, and
/// a terminator closes a present value, so field boundaries cannot shift.
pub open spec fn fnv_field(h: u64, f: Option<Seq<char>>) -> u64 {
    match f {
        None => fnv_step(h, 0),
        Some(s) => fnv_step(fnv_chars(fnv_step(h, 1), s), 0xff),
    }
}

/// The content hash of a raw feed item: 64-bit FNV-1a over its title, its tag
/// string and its description, exactly as they came from the feed, in that
/// order. This fingerprint is the sole deduplication key downstream.
pub open spec fn content_hash_of(
    title: Option<Seq<char>>,
    tags: Option<Seq<char>>,
    description: Option<Seq<char>>,
) -> u64 {
    fnv_field(fnv_field(fnv_field(FNV_OFFSET_BASIS, title), tags), description)
}

/// The view of an optional owned string as an optional character sequence.
pub open spec fn opt_str_view(f: Option<String>) -> Option<Seq<char>> {
    match f {
        None => None,
        Some(s) => Some(s@),
    }
}

fn fnv_step_exec(h: u64, b: u8) -> (r: u64)
    ensures
        r == fnv_step(h, b),
{
    (h ^ (b as u64)).wrapping_mul(FNV_PRIME)
}

fn fnv_char_exec(h: u64, c: char) -> (r: u64)
    ensures
        r == fnv_char(h, c),
{
    let x = c as u32;
    proof {
        assert((x & 0xff) < 256 && ((x >> 8) & 0xff) < 256 && ((x >> 16) & 0xff) < 256 && ((x
            >> 24) & 0xff) < 256) by (bit_vector);
    }
    let h1 = fnv_step_exec(h, (x & 0xff) as u8);
    let h2 = fnv_step_exec(h1, ((x >> 8) & 0xff) as u8);
    let h3 = fnv_step_exec(h2, ((x >> 16) & 0xff) as u8);
    fnv_step_exec(h3, ((x >> 24) & 0xff) as u8)
}

/// Hash every character of `s` into `h0`, left to right.
pub fn fnv_str(h0: u64, s: &str) -> (r: u64)
    ensures
        r == fnv_chars(h0, s@),
{
    let n = s.unicode_len();
    proof {
        assert(s@.subrange(0, n as int) =~= s@);
    }
    let mut h = h0;
    let mut i: usize = 0;
    while i < n
        invariant
            n == s@.len(),
            i <= n,
            fnv_chars(h, s@.subrange(i as int, n as int)) == fnv_chars(h0, s@),
        decreases n - i,
    {
        let c = s.get_char(i);
        proof {
            assert(s@.subrange(i as int, n as int).subrange(1, (n - i) as int) =~= s@.subrange(
                i as int + 1,
                n as int,
            ));
        }
        h = fnv_char_exec(h, c);
        i = i + 1;
    }
    proof {
        assert(s@.subrange(n as int, n as int) =~= Seq::<char>::empty());
    }
    h
}

fn fnv_field_exec(h: u64, f: &Option<String>) -> (r: u64)
    ensures
        r == fnv_field(h, opt_str_view(*f)),
{
    match f {
        None => fnv_step_exec(h, 0),
        Some(s) => {
            let h1 = fnv_step_exec(h, 1);
            let h2 = fnv_str(h1, s.as_str());
            fnv_step_exec(h2, 0xff)
        },
    }
}

/// Compute the content hash of a raw item's three text fields.
pub fn content_hash(title: &Option<String>, tags: &Option<String>, description: &Option<String>) -> (r:
    u64)
    ensures
        r == content_hash_of(opt_str_view(*title), opt_str_view(*tags), opt_str_view(*description)),
{
    let h1 = fnv_field_exec(FNV_OFFSET_BASIS, title);
    let h2 = fnv_field_exec(h1, tags);
    fnv_field_exec(h2, description)
}

} // verus!
