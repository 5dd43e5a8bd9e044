//! Small verified helpers on strings: character-for-character equality and
//! conversion of a string slice into a vector of its characters.

use vstd::prelude::*;

verus! {

/// True exactly when the two strings hold the same characters.
pub fn str_eq(a: &str, b: &str) -> (r: bool)
    ensures
        r == (a@ == b@),
{
    let alen = a.unicode_len();
    let blen = b.unicode_len();
    if alen != blen {
        return false;
    }
    let mut i: usize = 0;
    while i < alen
        invariant
            i <= alen,
            alen == a@.len(),
            alen == b@.len(),
            forall|k: int| 0 <= k < i ==> a@[k] == b@[k],
        decreases alen - i,
    {
        let ca = a.get_char(i);
        let cb = b.get_char(i);
        if ca != cb {
            return false;
        }
        i += 1;
    }
    proof {
        assert(a@ =~= b@);
    }
    true
}

/// The characters of a string, one vector element per character.
pub fn str_to_chars(s: &str) -> (r: Vec<char>)
    ensures
        r@ == s@,
{
    let n = s.unicode_len();
    let mut v: Vec<char> = Vec::new();
    let mut i: usize = 0;
    while i < n
        invariant
            i <= n,
            n == s@.len(),
            v@.len() == i,
            forall|k: int| 0 <= k < i ==> v@[k] == s@[k],
        decreases n - i,
    {
        v.push(s.get_char(i));
        i += 1;
    }
    proof {
        assert(v@ =~= s@);
    }
    v
}

/// A hexadecimal digit.
pub open spec fn is_hex_digit(c: char) -> bool {
    ||| ('0' as u32) <= (c as u32) <= ('9' as u32)
    ||| ('a' as u32) <= (c as u32) <= ('f' as u32)
    ||| ('A' as u32) <= (c as u32) <= ('F' as u32)
}

/// The numeric value of one hexadecimal digit; zero for any other character.
pub open spec fn hex_digit_val(c: char) -> int {
    if ('0' as u32) <= (c as u32) <= ('9' as u32) {
        c as u32 - '0' as u32
    } else if ('a' as u32) <= (c as u32) <= ('f' as u32) {
        c as u32 - 'a' as u32 + 10
    } else if ('A' as u32) <= (c as u32) <= ('F' as u32) {
        c as u32 - 'A' as u32 + 10
    } else {
        0
    }
}

/// The first position at or after `i` holding a space, or the end.
pub open spec fn spec_scan_to_space(s: Seq<char>, i: int) -> int
    decreases s.len() - i,
{
    if 0 <= i < s.len() && s[i] != ' ' {
        spec_scan_to_space(s, i + 1)
    } else {
        i
    }
}

/// The value of the hexadecimal digit run `s[i..j)`, most significant first.
pub open spec fn spec_hex_value(s: Seq<char>, i: int, j: int) -> int
    decreases j - i,
{
    if i >= j {
        0
    } else {
        spec_hex_value(s, i, j - 1) * 16 + hex_digit_val(s[j - 1])
    }
}

/// A well-formed hexadecimal group: nonempty and all hexadecimal digits.
pub open spec fn spec_hex_group_ok(s: Seq<char>, i: int, j: int) -> bool {
    j > i && (forall|k: int| i <= k < j ==> 0 <= k < s.len() && is_hex_digit(s[k]))
}

/// Parses space-separated hexadecimal byte groups from position `i` on:
/// every group must be a nonempty run of hexadecimal digits whose value
/// fits one byte, and an empty or malformed group fails the whole parse.
pub open spec fn spec_parse_hex_from(s: Seq<char>, i: int) -> Option<Seq<u8>>
    decreases s.len() - i,
{
    let e0 = spec_scan_to_space(s, i);
    let e = if e0 < i {
        i
    } else if e0 > s.len() {
        s.len() as int
    } else {
        e0
    };
    if !spec_hex_group_ok(s, i, e) || spec_hex_value(s, i, e) > 255 {
        None
    } else {
        let b = spec_hex_value(s, i, e) as u8;
        if e >= s.len() {
            Some(seq![b])
        } else {
            match spec_parse_hex_from(s, e + 1) {
                None => None,
                Some(r) => Some(seq![b] + r),
            }
        }
    }
}

/// What a whole hexadecimal string parses to.
pub open spec fn spec_parse_hex(s: Seq<char>) -> Option<Seq<u8>> {
    spec_parse_hex_from(s, 0)
}

proof fn lemma_hex_value_nonneg(s: Seq<char>, i: int, j: int)
    ensures
        spec_hex_value(s, i, j) >= 0,
    decreases j - i,
{
    if i < j {
        lemma_hex_value_nonneg(s, i, j - 1);
    }
}

proof fn lemma_hex_value_mono(s: Seq<char>, i: int, j1: int, j2: int)
    requires
        j1 <= j2,
    ensures
        spec_hex_value(s, i, j2) >= spec_hex_value(s, i, j1),
    decreases j2 - j1,
{
    if j1 < j2 {
        lemma_hex_value_mono(s, i, j1, j2 - 1);
        lemma_hex_value_nonneg(s, i, j2 - 1);
    }
}

fn is_hex_digit_c(c: char) -> (r: bool)
    ensures
        r == is_hex_digit(c),
{
    let u = c as u32;
    (48 <= u && u <= 57) || (97 <= u && u <= 102) || (65 <= u && u <= 70)
}

fn hex_digit_val_c(c: char) -> (r: u32)
    ensures
        r == hex_digit_val(c),
        r <= 15,
{
    let u = c as u32;
    if 48 <= u && u <= 57 {
        u - 48
    } else if 97 <= u && u <= 102 {
        u - 97 + 10
    } else if 65 <= u && u <= 70 {
        u - 65 + 10
    } else {
        0
    }
}

fn scan_to_space(chars: &Vec<char>, i: usize) -> (r: usize)
    requires
        i <= chars@.len(),
    ensures
        r == spec_scan_to_space(chars@, i as int),
        i <= r <= chars@.len(),
    decreases chars@.len() - i,
{
    if i < chars.len() && chars[i] != ' ' {
        scan_to_space(chars, i + 1)
    } else {
        i
    }
}

/// Parses a string of space-separated hexadecimal byte groups, without any
/// `0x` prefix (for a load command: `00 01 03 E8`).  `None` when a group is
/// empty, holds a non-digit, or does not fit one byte.
pub fn parse_hex(i: &str) -> (r: Option<Vec<u8>>)
    ensures
        match (r, spec_parse_hex(i@)) {
            (Some(v), Some(sv)) => v@ == sv,
            (None, None) => true,
            _ => false,
        },
{
    let chars = str_to_chars(i);
    let n = chars.len();
    let mut out: Vec<u8> = Vec::new();
    let mut pos: usize = 0;
    loop
        invariant
            pos <= n,
            n == i@.len(),
            chars@ == i@,
            ({
                match spec_parse_hex_from(i@, pos as int) {
                    None => spec_parse_hex(i@) is None,
                    Some(rest) => spec_parse_hex(i@) == Some(out@ + rest),
                }
            }),
        decreases n - pos,
    {
        let e = scan_to_space(&chars, pos);
        let mut acc: u64 = 0;
        let mut k = pos;
        let mut bad = e == pos;
        while k < e
            invariant
                pos <= k <= e <= n,
                n == chars@.len(),
                acc <= 255,
                !bad ==> acc == spec_hex_value(chars@, pos as int, k as int),
                !bad ==> forall|m: int| pos <= m < k ==> is_hex_digit(chars@[m]),
                !bad ==> e != pos,
                bad ==> !spec_hex_group_ok(chars@, pos as int, e as int) || spec_hex_value(
                    chars@,
                    pos as int,
                    e as int,
                ) > 255,
                bad || e != pos,
            decreases e - k,
        {
            if !bad {
                let c = chars[k];
                if !is_hex_digit_c(c) {
                    bad = true;
                } else {
                    let next: u64 = acc * 16 + hex_digit_val_c(c) as u64;
                    assert(next == spec_hex_value(chars@, pos as int, k as int + 1));
                    if next > 255 {
                        proof {
                            lemma_hex_value_mono(chars@, pos as int, k as int + 1, e as int);
                        }
                        bad = true;
                    } else {
                        acc = next;
                    }
                }
            }
            k += 1;
        }
        if bad {
            return None;
        }
        assert(spec_hex_group_ok(chars@, pos as int, e as int));
        let b: u8 = acc as u8;
        let ghost out0 = out@;
        out.push(b);
        if e >= n {
            proof {
                assert(out0 + seq![b] =~= out@);
            }
            return Some(out);
        }
        proof {
            if spec_parse_hex_from(i@, e as int + 1) is Some {
                let rest2 = spec_parse_hex_from(i@, e as int + 1)->0;
                assert(out0 + (seq![b] + rest2) =~= out@ + rest2);
            }
        }
        pos = e + 1;
    }
}

} // verus!
