use vstd::prelude::*;

verus! {

/// The 16-bit big-endian word at `i` (a last odd byte is padded with zero).
pub open spec fn word_at(s: Seq<u8>, i: int) -> int {
    s[i] as int * 256 + if i + 1 < s.len() {
        s[i + 1] as int
    } else {
        0
    }
}

/// Plain sum of the words of `s` from `i` on.
pub open spec fn sum_words(s: Seq<u8>, i: int) -> int
    decreases s.len() + 1 - i,
{
    if i >= s.len() || i < 0 {
        0
    } else {
        word_at(s, i) + sum_words(s, i + 2)
    }
}

/// The ones'-complement sum of a total: folding the carries back in gives 0
/// for 0, and otherwise the value in 1..=0xffff congruent to it modulo 0xffff.
pub open spec fn ones_sum(total: int) -> int {
    if total == 0 {
        0
    } else if total % 65535 == 0 {
        65535
    } else {
        total % 65535
    }
}

/// The internet checksum of `s`: the complement of its ones'-complement word sum.
pub open spec fn checksum_spec(s: Seq<u8>) -> int {
    65535 - ones_sum(sum_words(s, 0))
}

proof fn lemma_mod_step(d: int, w: int)
    requires
        d >= 0,
        w >= 0,
    ensures
        ((d % 65535) + w) % 65535 == (d + w) % 65535,
{
    assert(((d % 65535) + w) % 65535 == (d + w) % 65535) by (nonlinear_arith)
        requires
            d >= 0,
            w >= 0,
    ;
}

/// The internet checksum of `s[start..end]`.
pub fn checksum(s: &Vec<u8>, start: usize, end: usize) -> (r: u16)
    requires
        start <= end <= s@.len(),
    ensures
        r as int == checksum_spec(s@.subrange(start as int, end as int)),
{
    let ghost t = s@.subrange(start as int, end as int);
    let n: usize = end - start;
    let mut i: usize = 0;
    let mut acc: u32 = 0;
    let mut nz: bool = false;
    let ghost mut done: int = 0;
    while i < n
        invariant
            start <= end <= s@.len(),
            n == end - start,
            t == s@.subrange(start as int, end as int),
            i <= n,
            done >= 0,
            sum_words(t, 0) == done + sum_words(t, i as int),
            acc as int == done % 65535,
            nz == (done != 0),
        decreases n - i,
    {
        let hi: u32 = s[start + i] as u32;
        let lo: u32 = if i + 1 < n {
            s[start + i + 1] as u32
        } else {
            0
        };
        let w: u32 = hi * 256 + lo;
        assert(t.len() == n);
        assert(w as int == word_at(t, i as int));
        assert(sum_words(t, i as int) == word_at(t, i as int) + sum_words(t, i + 2));
        assert(i + 1 >= n ==> sum_words(t, i + 2) == 0 && sum_words(t, n as int) == 0);
        proof {
            lemma_mod_step(done, w as int);
            done = done + w;
        }
        acc = (acc + w) % 65535;
        if w != 0 {
            nz = true;
        }
        if i + 1 < n {
            i = i + 2;
        } else {
            i = n;
        }
    }
    let ones: u32 = if !nz {
        0
    } else if acc == 0 {
        65535
    } else {
        acc
    };
    (65535 - ones) as u16
}

/// Writing the word at even offset `k` changes the sum of words by the difference.
proof fn lemma_sum_words_update(s: Seq<u8>, i: int, k: int, hi: u8, lo: u8)
    requires
        0 <= i,
        i % 2 == 0,
        0 <= k,
        k % 2 == 0,
        k + 1 < s.len(),
    ensures
        sum_words(s.update(k, hi).update(k + 1, lo), i) == sum_words(s, i) + if i <= k {
            hi as int * 256 + lo as int - word_at(s, k)
        } else {
            0
        },
    decreases s.len() + 1 - i,
{
    let n = s.update(k, hi).update(k + 1, lo);
    if i < s.len() {
        lemma_sum_words_update(s, i + 2, k, hi, lo);
        if i != k {
            assert(n[i] == s[i]);
            assert(i + 1 < s.len() ==> n[i + 1] == s[i + 1]);
            assert(word_at(n, i) == word_at(s, i));
        }
    }
}

/// A frame whose 16-bit field at even offset `k` holds the internet checksum
/// of the frame with that field zeroed passes the receiver's check: the
/// ones'-complement sum of all its words is 0xffff.
pub proof fn law_checksum_field_verifies(s: Seq<u8>, k: int)
    requires
        0 <= k,
        k % 2 == 0,
        k + 1 < s.len(),
        s[k] as int * 256 + s[k + 1] as int == checksum_spec(s.update(k, 0).update(k + 1, 0)),
    ensures
        ones_sum(sum_words(s, 0)) == 65535,
{
    let z = s.update(k, 0).update(k + 1, 0);
    lemma_sum_words_update(z, 0, k, s[k], s[k + 1]);
    assert(z.update(k, s[k]).update(k + 1, s[k + 1]) =~= s);
    assert(word_at(z, k) == 0);
    lemma_sum_words_nonneg(z, 0);
    let total = sum_words(z, 0);
    let sum = sum_words(s, 0);
    assert(sum == total + 65535 - ones_sum(total));
    if total == 0 {
    } else {
        assert(sum % 65535 == 0 && sum > 0) by (nonlinear_arith)
            requires
                total > 0,
                sum == total + 65535 - ones_sum(total),
                ones_sum(total) == if total % 65535 == 0 {
                    65535
                } else {
                    total % 65535
                },
        ;
    }
}

proof fn lemma_sum_words_nonneg(s: Seq<u8>, i: int)
    ensures
        sum_words(s, i) >= 0,
    decreases s.len() + 1 - i,
{
    if i < s.len() && i >= 0 {
        lemma_sum_words_nonneg(s, i + 2);
    }
}

} // verus!
