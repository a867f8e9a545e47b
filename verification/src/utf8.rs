//! UTF-8 validity of byte sequences.
//!
//! The response stream is a growing file of UTF-8 text, and the gateway must
//! only hand out a chunk when the bytes past the delivered offset form whole
//! characters: a multi-byte character that straddles the read boundary makes
//! the suffix temporarily undecodable, and the poll is retried instead.

use vstd::prelude::*;

verus! {

/// A UTF-8 continuation byte, `0b10xxxxxx`.
pub open spec fn is_cont(b: u8) -> bool {
    0x80 <= b && b <= 0xBF
}

/// Length of the well-formed UTF-8 scalar sequence starting at `i`, or 0 if
/// the bytes at `i` do not start one (bad leading byte, bad continuation,
/// overlong or out-of-range encoding, or truncation by the end of `s`).
pub open spec fn scalar_len_at(s: Seq<u8>, i: int) -> int
    recommends
        0 <= i < s.len(),
{
    let b0 = s[i];
    if b0 < 0x80 {
        1
    } else if 0xC2 <= b0 && b0 <= 0xDF {
        if i + 2 <= s.len() && is_cont(s[i + 1]) {
            2
        } else {
            0
        }
    } else if b0 == 0xE0 {
        if i + 3 <= s.len() && 0xA0 <= s[i + 1] && s[i + 1] <= 0xBF && is_cont(s[i + 2]) {
            3
        } else {
            0
        }
    } else if b0 == 0xED {
        if i + 3 <= s.len() && 0x80 <= s[i + 1] && s[i + 1] <= 0x9F && is_cont(s[i + 2]) {
            3
        } else {
            0
        }
    } else if 0xE1 <= b0 && b0 <= 0xEF {
        if i + 3 <= s.len() && is_cont(s[i + 1]) && is_cont(s[i + 2]) {
            3
        } else {
            0
        }
    } else if b0 == 0xF0 {
        if i + 4 <= s.len() && 0x90 <= s[i + 1] && s[i + 1] <= 0xBF && is_cont(s[i + 2])
            && is_cont(s[i + 3]) {
            4
        } else {
            0
        }
    } else if 0xF1 <= b0 && b0 <= 0xF3 {
        if i + 4 <= s.len() && is_cont(s[i + 1]) && is_cont(s[i + 2]) && is_cont(s[i + 3]) {
            4
        } else {
            0
        }
    } else if b0 == 0xF4 {
        if i + 4 <= s.len() && 0x80 <= s[i + 1] && s[i + 1] <= 0x8F && is_cont(s[i + 2])
            && is_cont(s[i + 3]) {
            4
        } else {
            0
        }
    } else {
        0
    }
}

/// The bytes of `s` from position `i` on are a sequence of well-formed UTF-8
/// scalar sequences.
pub open spec fn utf8_valid_from(s: Seq<u8>, i: int) -> bool
    recommends
        0 <= i <= s.len(),
    decreases s.len() - i,
    when 0 <= i <= s.len()
{
    if i == s.len() {
        true
    } else {
        let k = scalar_len_at(s, i);
        k > 0 && utf8_valid_from(s, i + k)
    }
}

/// `s` is well-formed UTF-8.
pub open spec fn is_utf8(s: Seq<u8>) -> bool {
    utf8_valid_from(s, 0)
}

/// Validity from a position only looks at the bytes from that position on.
pub proof fn lemma_valid_from_shift(s: Seq<u8>, i: int, j: int)
    requires
        0 <= i,
        0 <= j,
        i + j <= s.len(),
    ensures
        utf8_valid_from(s.skip(i), j) == utf8_valid_from(s, i + j),
    decreases s.len() - i - j,
{
    let t = s.skip(i);
    assert(t.len() == s.len() - i);
    if j == t.len() {
    } else {
        assert(forall|m: int| 0 <= m < t.len() ==> t[m] == s[i + m]);
        let k = scalar_len_at(s, i + j);
        assert(scalar_len_at(t, j) == k);
        if k > 0 {
            lemma_valid_from_shift(s, i, j + k);
        }
    }
}

/// Splitting off a well-formed prefix preserves and reflects validity: when
/// `x` is UTF-8, `x + y` is UTF-8 exactly when `y` is.
pub proof fn lemma_utf8_concat(x: Seq<u8>, y: Seq<u8>)
    requires
        is_utf8(x),
    ensures
        is_utf8(x + y) == is_utf8(y),
    decreases x.len(),
{
    let s = x + y;
    if x.len() == 0 {
        assert(s =~= y);
    } else {
        let k = scalar_len_at(x, 0);
        assert(k > 0 && utf8_valid_from(x, k));
        assert(forall|m: int| 0 <= m < x.len() ==> s[m] == x[m]);
        assert(scalar_len_at(s, 0) == k);
        lemma_valid_from_shift(x, k, 0);
        assert(is_utf8(x.skip(k)));
        assert(x.skip(k) + y =~= s.skip(k));
        lemma_utf8_concat(x.skip(k), y);
        lemma_valid_from_shift(s, k, 0);
        assert(utf8_valid_from(s, 0) == (scalar_len_at(s, 0) > 0 && utf8_valid_from(s, k)));
    }
}

/// Decides whether the bytes of `b` from position `from` on are well-formed
/// UTF-8.
pub fn utf8_tail_valid(b: &Vec<u8>, from: usize) -> (r: bool)
    requires
        from <= b.len(),
    ensures
        r == utf8_valid_from(b@, from as int),
{
    let n = b.len();
    let mut i = from;
    while i < n
        invariant
            from <= i <= n,
            n == b.len(),
            utf8_valid_from(b@, from as int) == utf8_valid_from(b@, i as int),
        decreases n - i,
    {
        let rem = n - i;
        let b0 = b[i];
        let k: usize = if b0 < 0x80 {
            1
        } else if 0xC2 <= b0 && b0 <= 0xDF {
            if rem >= 2 && is_cont_byte(b[i + 1]) {
                2
            } else {
                0
            }
        } else if b0 == 0xE0 {
            if rem >= 3 && 0xA0 <= b[i + 1] && b[i + 1] <= 0xBF && is_cont_byte(b[i + 2]) {
                3
            } else {
                0
            }
        } else if b0 == 0xED {
            if rem >= 3 && 0x80 <= b[i + 1] && b[i + 1] <= 0x9F && is_cont_byte(b[i + 2]) {
                3
            } else {
                0
            }
        } else if 0xE1 <= b0 && b0 <= 0xEF {
            if rem >= 3 && is_cont_byte(b[i + 1]) && is_cont_byte(b[i + 2]) {
                3
            } else {
                0
            }
        } else if b0 == 0xF0 {
            if rem >= 4 && 0x90 <= b[i + 1] && b[i + 1] <= 0xBF && is_cont_byte(b[i + 2])
                && is_cont_byte(b[i + 3]) {
                4
            } else {
                0
            }
        } else if 0xF1 <= b0 && b0 <= 0xF3 {
            if rem >= 4 && is_cont_byte(b[i + 1]) && is_cont_byte(b[i + 2]) && is_cont_byte(
                b[i + 3],
            ) {
                4
            } else {
                0
            }
        } else if b0 == 0xF4 {
            if rem >= 4 && 0x80 <= b[i + 1] && b[i + 1] <= 0x8F && is_cont_byte(b[i + 2])
                && is_cont_byte(b[i + 3]) {
                4
            } else {
                0
            }
        } else {
            0
        };
        proof {
            assert(k == scalar_len_at(b@, i as int));
        }
        if k == 0 {
            return false;
        }
        i = i + k;
    }
    true
}

/// Whether `b` is a UTF-8 continuation byte.
fn is_cont_byte(b: u8) -> (r: bool)
    ensures
        r == is_cont(b),
{
    0x80 <= b && b <= 0xBF
}

} // verus!
