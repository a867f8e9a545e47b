//! The request record: the JSON object `{"system_prompt": ..., "user_prompt":
//! ...}` that `begin` writes once into the slot store for the worker to
//! consume. String contents are escaped the standard JSON way: quote and
//! backslash get a backslash, the named control characters get their short
//! escapes, the remaining control characters get `\u00` and two lowercase hex
//! digits, and every other character stands for itself.

use vstd::prelude::*;

verus! {

/// The character for a single lowercase hexadecimal digit.
pub open spec fn hex_digit_char(d: nat) -> char
    recommends
        d < 16,
{
    if d < 10 {
        crate::decimal::digit_char(d)
    } else if d == 10 {
        'a'
    } else if d == 11 {
        'b'
    } else if d == 12 {
        'c'
    } else if d == 13 {
        'd'
    } else if d == 14 {
        'e'
    } else {
        'f'
    }
}

/// The JSON escape of one character.
pub open spec fn esc_char(c: char) -> Seq<char> {
    if c == '"' {
        seq!['\\', '"']
    } else if c == '\\' {
        seq!['\\', '\\']
    } else if c == '\u{8}' {
        seq!['\\', 'b']
    } else if c == '\t' {
        seq!['\\', 't']
    } else if c == '\n' {
        seq!['\\', 'n']
    } else if c == '\u{c}' {
        seq!['\\', 'f']
    } else if c == '\r' {
        seq!['\\', 'r']
    } else if (c as u32) < 0x20 {
        seq!['\\', 'u', '0', '0', hex_digit_char((c as u32 / 16) as nat), hex_digit_char(
            (c as u32 % 16) as nat,
        )]
    } else {
        seq![c]
    }
}

/// The JSON escape of a whole string.
pub open spec fn escaped(s: Seq<char>) -> Seq<char>
    decreases s.len(),
{
    if s.len() == 0 {
        Seq::empty()
    } else {
        escaped(s.drop_last()) + esc_char(s.last())
    }
}

/// The full request record for one submission.
pub open spec fn json_request(sys: Seq<char>, user: Seq<char>) -> Seq<char> {
    "{\"system_prompt\":\""@ + escaped(sys) + "\",\"user_prompt\":\""@ + escaped(user) + "\"}"@
}

/// A character the serializer escapes.
pub open spec fn is_special(c: char) -> bool {
    c == '"' || c == '\\' || (c as u32) < 0x20
}

/// The escape of a character is never empty, never begins with a quote,
/// and begins with a backslash exactly for the escaped characters.
proof fn lemma_esc_char_head(c: char)
    ensures
        esc_char(c).len() > 0,
        esc_char(c)[0] != '"',
        esc_char(c)[0] == '\\' <==> is_special(c),
        is_special(c) ==> esc_char(c).len() >= 2,
{
}

/// Escapes decompose at the front as well as at the back.
proof fn lemma_escaped_cons(s: Seq<char>)
    requires
        s.len() > 0,
    ensures
        escaped(s) == esc_char(s[0]) + escaped(s.drop_first()),
    decreases s.len(),
{
    if s.len() == 1 {
        assert(s.drop_last() =~= Seq::<char>::empty());
        assert(s.drop_first() =~= Seq::<char>::empty());
        assert(escaped(s) =~= esc_char(s[0]) + escaped(s.drop_first()));
    } else {
        let d = s.drop_last();
        lemma_escaped_cons(d);
        assert(d.drop_first() =~= s.drop_first().drop_last());
        assert(s.drop_first().last() == s.last());
        assert((esc_char(s[0]) + escaped(s.drop_first().drop_last())) + esc_char(s.last())
            =~= esc_char(s[0]) + escaped(s.drop_first()));
        assert(escaped(s) =~= esc_char(s[0]) + escaped(s.drop_first()));
    }
}

/// The escapes form a prefix code: a sequence that starts with one escape
/// starts with only that one, so the first escaped character and the rest
/// are both determined.
proof fn lemma_esc_char_prefix(x: char, y: char, tx: Seq<char>, ty: Seq<char>)
    requires
        esc_char(x) + tx == esc_char(y) + ty,
    ensures
        x == y,
        tx == ty,
{
    let ex = esc_char(x);
    let ey = esc_char(y);
    let e = ex + tx;
    lemma_esc_char_head(x);
    lemma_esc_char_head(y);
    if !is_special(x) && !is_special(y) {
        assert(x == e[0] && y == e[0]);
    } else if is_special(x) != is_special(y) {
        assert(ex[0] == e[0] && ey[0] == e[0]);
        assert(false);
    } else {
        // Both escaped; the second character tells the eight escape forms
        // apart, and within the numeric form the hex digits are one-to-one.
        assert(ex[1] == e[1] && ey[1] == e[1]);
        if ex[1] == 'u' {
            let vx = x as u32;
            let vy = y as u32;
            assert(vx < 0x20 && vy < 0x20);
            assert(ex[4] == e[4] && ey[4] == e[4] && ex[5] == e[5] && ey[5] == e[5]);
            assert(hex_digit_char((vx / 16) as nat) == hex_digit_char((vy / 16) as nat));
            assert(hex_digit_char((vx % 16) as nat) == hex_digit_char((vy % 16) as nat));
            assert(vx / 16 == vy / 16);
            assert(vx % 16 == vy % 16);
            assert(vx == vy);
            assert(x == y);
        } else {
            assert(x == y);
        }
    }
    assert(ex.len() == ey.len());
    assert(tx =~= e.skip(ex.len() as int));
    assert(ty =~= (ey + ty).skip(ey.len() as int));
    assert(tx == ty);
}

/// Escaped contents followed by a closing quote parse back uniquely: both
/// the decoded string and whatever follows the quote are determined.
proof fn lemma_escaped_quote_decode(a: Seq<char>, b: Seq<char>, ra: Seq<char>, rb: Seq<char>)
    requires
        escaped(a) + seq!['"'] + ra == escaped(b) + seq!['"'] + rb,
    ensures
        a == b,
        ra == rb,
    decreases a.len(),
{
    let e = escaped(a) + seq!['"'] + ra;
    if a.len() == 0 && b.len() == 0 {
        assert(e[0] == '"');
        assert(ra =~= e.skip(1));
        assert(rb =~= (escaped(b) + seq!['"'] + rb).skip(1));
        assert(ra == rb);
    } else if a.len() == 0 {
        lemma_escaped_cons(b);
        lemma_esc_char_head(b[0]);
        assert(e[0] == '"');
        assert(e[0] == esc_char(b[0])[0]);
        assert(false);
    } else if b.len() == 0 {
        lemma_escaped_cons(a);
        lemma_esc_char_head(a[0]);
        assert(e[0] == '"');
        assert(e[0] == esc_char(a[0])[0]);
        assert(false);
    } else {
        lemma_escaped_cons(a);
        lemma_escaped_cons(b);
        let ta = escaped(a.drop_first()) + seq!['"'] + ra;
        let tb = escaped(b.drop_first()) + seq!['"'] + rb;
        assert(esc_char(a[0]) + ta =~= e);
        assert(esc_char(b[0]) + tb =~= e);
        lemma_esc_char_prefix(a[0], b[0], ta, tb);
        lemma_escaped_quote_decode(a.drop_first(), b.drop_first(), ra, rb);
        assert(a =~= seq![a[0]] + a.drop_first());
        assert(b =~= seq![b[0]] + b.drop_first());
    }
}

/// The request record carries exactly the submitted prompts: two
/// submissions with the same record are the same submission, so nothing of
/// the prompts is lost or conflated by serialization.
pub proof fn lemma_request_record_determines_prompts(
    s1: Seq<char>,
    u1: Seq<char>,
    s2: Seq<char>,
    u2: Seq<char>,
)
    requires
        json_request(s1, u1) == json_request(s2, u2),
    ensures
        s1 == s2,
        u1 == u2,
{
    reveal_strlit("{\"system_prompt\":\"");
    reveal_strlit("\",\"user_prompt\":\"");
    reveal_strlit("\"}");
    let head = "{\"system_prompt\":\""@;
    let mid = "\",\"user_prompt\":\""@;
    let tail = "\"}"@;
    assert(head.len() == 18 && mid.len() == 17 && tail.len() == 2);
    let r1 = json_request(s1, u1);
    let r2 = json_request(s2, u2);
    // Strip the fixed head.
    let p1 = escaped(s1) + mid + escaped(u1) + tail;
    let p2 = escaped(s2) + mid + escaped(u2) + tail;
    assert(p1 =~= r1.skip(18));
    assert(p2 =~= r2.skip(18));
    // The middle literal opens with the quote that closes the first
    // prompt's contents.
    assert(mid =~= seq!['"'] + mid.skip(1));
    let q1 = mid.skip(1) + escaped(u1) + tail;
    let q2 = mid.skip(1) + escaped(u2) + tail;
    assert(escaped(s1) + seq!['"'] + q1 =~= p1);
    assert(escaped(s2) + seq!['"'] + q2 =~= p2);
    lemma_escaped_quote_decode(s1, s2, q1, q2);
    // Strip the rest of the middle literal.
    let w1 = escaped(u1) + tail;
    let w2 = escaped(u2) + tail;
    assert(w1 =~= q1.skip(16));
    assert(w2 =~= q2.skip(16));
    // The tail literal opens with the quote that closes the second
    // prompt's contents.
    assert(tail =~= seq!['"'] + tail.skip(1));
    assert(escaped(u1) + seq!['"'] + tail.skip(1) =~= w1);
    assert(escaped(u2) + seq!['"'] + tail.skip(1) =~= w2);
    lemma_escaped_quote_decode(u1, u2, tail.skip(1), tail.skip(1));
}

/// A one-character string slice holding the lowercase hex digit `d`.
fn hex_digit_str(d: u32) -> (r: &'static str)
    requires
        d < 16,
    ensures
        r@ == seq![hex_digit_char(d as nat)],
{
    proof {
        reveal_strlit("a");
        reveal_strlit("b");
        reveal_strlit("c");
        reveal_strlit("d");
        reveal_strlit("e");
        reveal_strlit("f");
    }
    if d < 10 {
        crate::decimal::digit_str_u32(d)
    } else {
        let r: &'static str = match d {
            10 => "a",
            11 => "b",
            12 => "c",
            13 => "d",
            14 => "e",
            _ => "f",
        };
        proof {
            assert(r@ =~= seq![hex_digit_char(d as nat)]);
        }
        r
    }
}

/// Appends the JSON escape of `s` to `out`.
fn append_escaped(out: &mut String, s: &str)
    ensures
        final(out)@ == old(out)@ + escaped(s@),
{
    let n = s.unicode_len();
    let mut i: usize = 0;
    while i < n
        invariant
            i <= n,
            n == s@.len(),
            out@ == old(out)@ + escaped(s@.take(i as int)),
        decreases n - i,
    {
        proof {
            reveal_strlit("\\\"");
            reveal_strlit("\\\\");
            reveal_strlit("\\b");
            reveal_strlit("\\t");
            reveal_strlit("\\n");
            reveal_strlit("\\f");
            reveal_strlit("\\r");
            reveal_strlit("\\u00");
        }
        let c = s.get_char(i);
        if c == '"' {
            out.append("\\\"");
            proof {
                assert("\\\""@ =~= esc_char(c));
            }
        } else if c == '\\' {
            out.append("\\\\");
            proof {
                assert("\\\\"@ =~= esc_char(c));
            }
        } else if c == '\u{8}' {
            out.append("\\b");
            proof {
                assert("\\b"@ =~= esc_char(c));
            }
        } else if c == '\t' {
            out.append("\\t");
            proof {
                assert("\\t"@ =~= esc_char(c));
            }
        } else if c == '\n' {
            out.append("\\n");
            proof {
                assert("\\n"@ =~= esc_char(c));
            }
        } else if c == '\u{c}' {
            out.append("\\f");
            proof {
                assert("\\f"@ =~= esc_char(c));
            }
        } else if c == '\r' {
            out.append("\\r");
            proof {
                assert("\\r"@ =~= esc_char(c));
            }
        } else if (c as u32) < 0x20 {
            out.append("\\u00");
            out.append(hex_digit_str((c as u32) / 16));
            out.append(hex_digit_str((c as u32) % 16));
            proof {
                assert("\\u00"@ + seq![hex_digit_char((c as u32 / 16) as nat)] + seq![
                    hex_digit_char((c as u32 % 16) as nat),
                ] =~= esc_char(c));
            }
        } else {
            let piece = s.substring_char(i, i + 1);
            out.append(piece);
            proof {
                assert(s@.subrange(i as int, i + 1) =~= seq![c]);
                assert(seq![c] =~= esc_char(c));
            }
        }
        proof {
            let t = s@.take(i + 1);
            assert(t.drop_last() =~= s@.take(i as int));
            assert(t.last() == c);
            assert(escaped(t) == escaped(s@.take(i as int)) + esc_char(c));
            assert(out@ =~= old(out)@ + escaped(s@.take(i + 1)));
        }
        i = i + 1;
    }
    proof {
        assert(s@.take(n as int) =~= s@);
    }
}

/// Serializes one submission into the request record that is written, once,
/// as the slot's `.json` file.
pub fn request_record(system_prompt: &str, user_prompt: &str) -> (r: String)
    ensures
        r@ == json_request(system_prompt@, user_prompt@),
{
    let mut out = String::new();
    out.append("{\"system_prompt\":\"");
    append_escaped(&mut out, system_prompt);
    out.append("\",\"user_prompt\":\"");
    append_escaped(&mut out, user_prompt);
    out.append("\"}");
    proof {
        assert(out@ =~= json_request(system_prompt@, user_prompt@));
    }
    out
}

} // verus!
