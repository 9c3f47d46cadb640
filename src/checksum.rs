//! The boot checksum of a vector table: the eighth word of the table section
//! is chosen so that the first eight little-endian words sum to zero modulo
//! 2^32.
use vstd::prelude::*;
use crate::clock::period;

verus! {

/// Words summed by the boot ROM, the checksum word included.
pub const CHECKED_WORDS: usize = 8;

/// Bytes covered by the check: the checked words.
pub const CHECKED_BYTES: usize = 32;

/// Byte offset of the checksum word from the start of the table.
pub const CHECKSUM_OFFSET: usize = 28;

/// The little-endian 32-bit word at byte `at` of `s`.
pub open spec fn word_at(s: Seq<u8>, at: int) -> int {
    s[at] + 0x100 * s[at + 1] + 0x1_0000 * s[at + 2] + 0x100_0000 * s[at + 3]
}

/// Sum of the first `n` words from byte `start`, as an unbounded integer.
pub open spec fn words_sum(s: Seq<u8>, start: int, n: nat) -> int
    decreases n,
{
    if n == 0 {
        0
    } else {
        words_sum(s, start, (n - 1) as nat) + word_at(s, start + 4 * (n - 1))
    }
}

/// The checksum that a table at byte `start` needs: the two's complement of
/// the sum of its first seven words.
pub open spec fn checksum_of(s: Seq<u8>, start: int) -> u32 {
    ((period() - words_sum(s, start, 7) % period()) % period()) as u32
}

/// The four little-endian bytes of `v`.
pub open spec fn le_bytes(v: u32) -> Seq<u8> {
    seq![
        (v % 0x100) as u8,
        (v / 0x100 % 0x100) as u8,
        (v / 0x1_0000 % 0x100) as u8,
        (v / 0x100_0000 % 0x100) as u8,
    ]
}

/// `s` with the checksum word of the table at byte `start` written in.
pub open spec fn patched(s: Seq<u8>, start: int) -> Seq<u8> {
    s.subrange(0, start + 28) + le_bytes(checksum_of(s, start)) + s.subrange(start + 32, s.len() as int)
}

/// The little-endian word in bytes `at .. at + 4` of `data`.
pub fn read_word(data: &Vec<u8>, at: usize) -> (r: u32)
    requires
        at + 4 <= data@.len(),
    ensures
        r == word_at(data@, at as int),
{
    // the length is a usize: it bounds the indices below
    let _len = data.len();
    let b0 = data[at] as u32;
    let b1 = data[at + 1] as u32;
    let b2 = data[at + 2] as u32;
    let b3 = data[at + 3] as u32;
    let r = b0 | (b1 << 8) | (b2 << 16) | (b3 << 24);
    assert(r == b0 + 0x100 * b1 + 0x1_0000 * b2 + 0x100_0000 * b3) by (bit_vector)
        requires
            b0 < 0x100,
            b1 < 0x100,
            b2 < 0x100,
            b3 < 0x100,
            r == b0 | (b1 << 8) | (b2 << 16) | (b3 << 24),
    ;
    r
}

/// Write `v` little-endian into bytes `at .. at + 4` of `data`.
pub fn write_word(data: &mut Vec<u8>, at: usize, v: u32)
    requires
        at + 4 <= old(data)@.len(),
    ensures
        final(data)@ == old(data)@.subrange(0, at as int) + le_bytes(v) + old(data)@.subrange(
            at + 4,
            old(data)@.len() as int,
        ),
{
    // the length is a usize: it bounds the indices below
    let _len = data.len();
    assert(v & 0xff < 0x100 && (v >> 8) & 0xff < 0x100 && (v >> 16) & 0xff < 0x100 && (v >> 24)
        & 0xff < 0x100) by (bit_vector);
    let b0 = (v & 0xff) as u8;
    let b1 = ((v >> 8) & 0xff) as u8;
    let b2 = ((v >> 16) & 0xff) as u8;
    let b3 = ((v >> 24) & 0xff) as u8;
    assert(v & 0xff == v % 0x100 && (v >> 8) & 0xff == v / 0x100 % 0x100 && (v >> 16) & 0xff
        == v / 0x1_0000 % 0x100 && (v >> 24) & 0xff == v / 0x100_0000 % 0x100) by (bit_vector);
    data.set(at, b0);
    data.set(at + 1, b1);
    data.set(at + 2, b2);
    data.set(at + 3, b3);
    assert(final(data)@ =~= old(data)@.subrange(0, at as int) + le_bytes(v) + old(data)@.subrange(
        at + 4,
        old(data)@.len() as int,
    ));
}

/// The checksum that the table at byte `start` of `data` needs.
pub fn checksum(data: &Vec<u8>, start: usize) -> (r: u32)
    requires
        start + CHECKSUM_OFFSET <= data@.len(),
    ensures
        r == checksum_of(data@, start as int),
{
    let n = data.len();
    let mut sum: u32 = 0;
    let mut k: usize = 0;
    while k < 7
        invariant
            k <= 7,
            start + CHECKSUM_OFFSET <= n,
            n == data@.len(),
            sum == words_sum(data@, start as int, k as nat) % period(),
        decreases 7 - k,
    {
        let w = read_word(data, start + 4 * k);
        proof {
            let s = words_sum(data@, start as int, k as nat);
            vstd::arithmetic::div_mod::lemma_add_mod_noop(s, w as int, period());
            vstd::arithmetic::div_mod::lemma_small_mod(w as nat, period() as nat);
            if sum + w >= period() {
                vstd::arithmetic::div_mod::lemma_mod_self_0(period());
                vstd::arithmetic::div_mod::lemma_sub_mod_noop(sum + w, period(), period());
                vstd::arithmetic::div_mod::lemma_small_mod((sum + w - period()) as nat, period() as nat);
            } else {
                vstd::arithmetic::div_mod::lemma_small_mod((sum + w) as nat, period() as nat);
            }
        }
        sum = sum.wrapping_add(w);
        k = k + 1;
    }
    assert(!sum == 0xffff_ffff - sum) by (bit_vector);
    proof {
        if sum == 0 {
            vstd::arithmetic::div_mod::lemma_mod_self_0(period());
        } else {
            vstd::arithmetic::div_mod::lemma_small_mod((period() - sum) as nat, period() as nat);
        }
    }
    (!sum).wrapping_add(1)
}

/// Write the boot checksum into the table at byte `start` of `data`, in
/// place, and return it. Nothing else in `data` changes.
pub fn update(data: &mut Vec<u8>, start: usize) -> (r: u32)
    requires
        start + CHECKED_BYTES <= old(data)@.len(),
    ensures
        r == checksum_of(old(data)@, start as int),
        final(data)@ == patched(old(data)@, start as int),
{
    // the length is a usize: it bounds the offset below
    let _len = data.len();
    let c = checksum(data, start);
    write_word(data, start + CHECKSUM_OFFSET, c);
    c
}

/// Why a table could not be patched.
#[derive(Clone, Copy, Debug, PartialEq, Eq, Structural)]
pub enum PatchError {
    /// The image has no vector-table section.
    MissingSection,
    /// The section's extent runs past the end of the image.
    SectionOutOfBounds,
    /// The section is shorter than the checked words.
    SectionTooSmall,
}

/// Patch the vector-table section of `image`, found at `section` as
/// (file offset, size) or absent. On success the checksum is written in place
/// and returned; on failure `image` is left as it was.
pub fn patch_image(image: &mut Vec<u8>, section: Option<(u64, u64)>) -> (r: Result<u32, PatchError>)
    ensures
        r == (match section {
            None => Err(PatchError::MissingSection),
            Some((offset, size)) => if offset + size > old(image)@.len() {
                Err(PatchError::SectionOutOfBounds)
            } else if size < CHECKED_BYTES {
                Err(PatchError::SectionTooSmall)
            } else {
                Ok(checksum_of(old(image)@, offset as int))
            },
        }),
        r is Ok ==> (section matches Some((offset, _)) && final(image)@ == patched(
            old(image)@,
            offset as int,
        )),
        r is Err ==> final(image)@ == old(image)@,
{
    let n = image.len();
    match section {
        None => Err(PatchError::MissingSection),
        Some((offset, size)) => {
            if offset > n as u64 || size > n as u64 - offset {
                Err(PatchError::SectionOutOfBounds)
            } else if size < CHECKED_BYTES as u64 {
                Err(PatchError::SectionTooSmall)
            } else {
                Ok(update(image, offset as usize))
            }
        },
    }
}

/// Words depend only on their own bytes: images that agree on the `4 * n`
/// bytes from `start` have the same sum of `n` words there.
pub proof fn lemma_words_sum_frame(s1: Seq<u8>, s2: Seq<u8>, start: int, n: nat)
    requires
        0 <= start,
        start + 4 * n <= s1.len(),
        start + 4 * n <= s2.len(),
        forall|i: int| start <= i < start + 4 * n ==> s1[i] == s2[i],
    ensures
        words_sum(s1, start, n) == words_sum(s2, start, n),
    decreases n,
{
    if n > 0 {
        lemma_words_sum_frame(s1, s2, start, (n - 1) as nat);
        let at = start + 4 * (n - 1);
        assert(s1[at] == s2[at] && s1[at + 1] == s2[at + 1] && s1[at + 2] == s2[at + 2] && s1[at
            + 3] == s2[at + 3]);
    }
}

/// Reading back the little-endian bytes of `v` gives `v`.
pub proof fn lemma_le_bytes_word(v: u32)
    ensures
        word_at(le_bytes(v), 0) == v,
{
    let a = v / 0x100;
    vstd::arithmetic::div_mod::lemma_fundamental_div_mod(v as int, 0x100);
    vstd::arithmetic::div_mod::lemma_fundamental_div_mod(a as int, 0x100);
    vstd::arithmetic::div_mod::lemma_div_denominator(v as int, 0x100, 0x100);
    vstd::arithmetic::div_mod::lemma_fundamental_div_mod((v / 0x1_0000) as int, 0x100);
    vstd::arithmetic::div_mod::lemma_div_denominator(v as int, 0x1_0000, 0x100);
    vstd::arithmetic::div_mod::lemma_small_mod((v / 0x100_0000) as nat, 0x100);
}

/// Patching changes only the checksum word, which the checksum does not
/// depend on.
proof fn lemma_patched_keeps_prefix(s: Seq<u8>, start: int)
    requires
        0 <= start,
        start + 32 <= s.len(),
    ensures
        patched(s, start).len() == s.len(),
        forall|i: int| 0 <= i < start + 28 ==> patched(s, start)[i] == s[i],
        words_sum(patched(s, start), start, 7) == words_sum(s, start, 7),
        checksum_of(patched(s, start), start) == checksum_of(s, start),
{
    lemma_words_sum_frame(patched(s, start), s, start, 7);
}

/// After patching, the eight checked words sum to zero modulo 2^32.
pub proof fn lemma_patched_sum_is_zero(s: Seq<u8>, start: int)
    requires
        0 <= start,
        start + 32 <= s.len(),
    ensures
        words_sum(patched(s, start), start, 8) % period() == 0,
{
    let t = patched(s, start);
    let c = checksum_of(s, start);
    lemma_patched_keeps_prefix(s, start);
    lemma_le_bytes_word(c);
    assert(word_at(t, start + 28) == word_at(le_bytes(c), 0));
    let w = words_sum(s, start, 7);
    let p = period();
    vstd::arithmetic::div_mod::lemma_fundamental_div_mod(w, p);
    if w % p == 0 {
        vstd::arithmetic::div_mod::lemma_mod_self_0(p);
        assert(c == 0);
    } else {
        vstd::arithmetic::div_mod::lemma_small_mod((p - w % p) as nat, p as nat);
        assert(c == p - w % p);
        assert(w + c == p * (w / p + 1)) by (nonlinear_arith)
            requires
                w == p * (w / p) + w % p,
                c == p - w % p,
        ;
        vstd::arithmetic::div_mod::lemma_mod_multiples_basic(w / p + 1, p);
    }
}

/// Patching is idempotent: patching an already patched table writes the same
/// checksum again and leaves every byte as it was.
pub proof fn lemma_patch_idempotent(s: Seq<u8>, start: int)
    requires
        0 <= start,
        start + 32 <= s.len(),
    ensures
        patched(patched(s, start), start) == patched(s, start),
{
    lemma_patched_keeps_prefix(s, start);
    assert(patched(patched(s, start), start) =~= patched(s, start));
}

} // verus!
