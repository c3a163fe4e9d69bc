//! Base-62 codec: a bijection between non-negative integers and compact
//! alphanumeric short codes over the alphabet `0-9A-Za-z`.

use vstd::prelude::*;

verus! {

/// The alphabet symbol for a digit value: `0-9` for 0..10, `A-Z` for 10..36,
/// `a-z` for 36..62.
pub open spec fn digit_char(d: int) -> char {
    if 0 <= d < 10 {
        ((('0' as int) + d) as u8) as char
    } else if 10 <= d < 36 {
        ((('A' as int) + (d - 10)) as u8) as char
    } else if 36 <= d < 62 {
        ((('a' as int) + (d - 36)) as u8) as char
    } else {
        '0'
    }
}

/// The digit value of a character, or -1 when it is outside the alphabet.
pub open spec fn digit_val(c: char) -> int {
    let n = c as int;
    if ('0' as int) <= n <= ('9' as int) {
        n - ('0' as int)
    } else if ('A' as int) <= n <= ('Z' as int) {
        n - ('A' as int) + 10
    } else if ('a' as int) <= n <= ('z' as int) {
        n - ('a' as int) + 36
    } else {
        -1
    }
}

/// The canonical base-62 spelling of `n`, most significant digit first;
/// zero is spelled with the single first alphabet symbol.
pub open spec fn encode62(n: nat) -> Seq<char>
    decreases n,
{
    if n < 62 {
        seq![digit_char(n as int)]
    } else {
        encode62(n / 62) + seq![digit_char((n % 62) as int)]
    }
}

/// Whether every character of `s` belongs to the 62-symbol alphabet.
pub open spec fn all_digits(s: Seq<char>) -> bool {
    forall|i: int| 0 <= i < s.len() ==> digit_val(s[i]) >= 0
}

/// Horner's-rule value of a digit string, most significant digit first.
pub open spec fn decode62(s: Seq<char>) -> int
    decreases s.len(),
{
    if s.len() == 0 {
        0
    } else {
        decode62(s.drop_last()) * 62 + digit_val(s.last())
    }
}

/// Relies on String::push: appends one character to the string.
#[verifier::external_body]
fn push_char(s: &mut String, c: char)
    ensures
        final(s)@ == old(s)@.push(c),
{
    s.push(c);
}

/// The alphabet symbol for one digit value.
fn digit_char_x(d: u8) -> (c: char)
    requires
        d < 62,
    ensures
        c == digit_char(d as int),
{
    let b: u8 = if d < 10 {
        48 + d
    } else if d < 36 {
        65 + (d - 10)
    } else {
        97 + (d - 36)
    };
    b as char
}

/// The digit value of a character, when it belongs to the alphabet.
fn digit_val_x(c: char) -> (v: Option<u8>)
    ensures
        v is Some <==> digit_val(c) >= 0,
        v is Some ==> v->0 == digit_val(c),
{
    let n = c as u32;
    if ('0' as u32) <= n && n <= ('9' as u32) {
        Some((n - ('0' as u32)) as u8)
    } else if ('A' as u32) <= n && n <= ('Z' as u32) {
        Some((n - ('A' as u32) + 10) as u8)
    } else if ('a' as u32) <= n && n <= ('z' as u32) {
        Some((n - ('a' as u32) + 36) as u8)
    } else {
        None
    }
}

/// Converts a non-negative integer to its canonical base-62 string.
pub fn encode_base62(data: usize) -> (res: String)
    ensures
        res@ == encode62(data as nat),
{
    let mut digits: Vec<char> = Vec::new();
    let mut num: usize = data;
    if num == 0 {
        digits.push(digit_char_x(0));
    }
    while num > 0
        invariant
            num == 0 ==> digits@.len() > 0,
            num > 0 ==> encode62(data as nat) == encode62(num as nat) + digits@.reverse(),
            num == 0 ==> encode62(data as nat) == digits@.reverse(),
        decreases num,
    {
        proof {
            assert(digits@.push(digit_char(num as int % 62)).reverse() =~= seq![
                digit_char(num as int % 62),
            ] + digits@.reverse());
        }
        let d: u8 = (num % 62) as u8;
        digits.push(digit_char_x(d));
        num = num / 62;
        proof {
            if num > 0 {
                assert(encode62(data as nat) == encode62(num as nat) + digits@.reverse());
            }
        }
    }
    let mut res = String::new();
    let mut i: usize = digits.len();
    while i > 0
        invariant
            i <= digits@.len(),
            res@ == digits@.reverse().take(digits@.len() - i),
        decreases i,
    {
        i = i - 1;
        let c = digits[i];
        push_char(&mut res, c);
        proof {
            assert(res@ =~= digits@.reverse().take(digits@.len() - i));
        }
    }
    proof {
        assert(res@ =~= digits@.reverse());
    }
    res
}

/// The canonical decimal spelling of `n`, most significant digit first.
pub open spec fn encode10(n: nat) -> Seq<char>
    decreases n,
{
    if n < 10 {
        seq![digit_char(n as int)]
    } else {
        encode10(n / 10) + seq![digit_char((n % 10) as int)]
    }
}

/// Converts a non-negative integer to its decimal string.
pub fn format_usize(data: usize) -> (res: String)
    ensures
        res@ == encode10(data as nat),
{
    let mut digits: Vec<char> = Vec::new();
    let mut num: usize = data;
    if num == 0 {
        digits.push(digit_char_x(0));
    }
    while num > 0
        invariant
            num == 0 ==> digits@.len() > 0,
            num > 0 ==> encode10(data as nat) == encode10(num as nat) + digits@.reverse(),
            num == 0 ==> encode10(data as nat) == digits@.reverse(),
        decreases num,
    {
        proof {
            assert(digits@.push(digit_char(num as int % 10)).reverse() =~= seq![
                digit_char(num as int % 10),
            ] + digits@.reverse());
        }
        let d: u8 = (num % 10) as u8;
        digits.push(digit_char_x(d));
        num = num / 10;
        proof {
            if num > 0 {
                assert(encode10(data as nat) == encode10(num as nat) + digits@.reverse());
            }
        }
    }
    let mut res = String::new();
    let mut i: usize = digits.len();
    while i > 0
        invariant
            i <= digits@.len(),
            res@ == digits@.reverse().take(digits@.len() - i),
        decreases i,
    {
        i = i - 1;
        let c = digits[i];
        push_char(&mut res, c);
        proof {
            assert(res@ =~= digits@.reverse().take(digits@.len() - i));
        }
    }
    proof {
        assert(res@ =~= digits@.reverse());
    }
    res
}

/// The index of the last character of `s` outside the alphabet, or -1.
pub open spec fn last_invalid(s: Seq<char>) -> int
    decreases s.len(),
{
    if s.len() == 0 {
        -1
    } else if digit_val(s.last()) < 0 {
        s.len() - 1
    } else {
        last_invalid(s.drop_last())
    }
}

proof fn lemma_last_invalid(s: Seq<char>)
    ensures
        all_digits(s) ==> last_invalid(s) == -1,
        !all_digits(s) ==> 0 <= last_invalid(s) < s.len() && digit_val(s[last_invalid(s)]) < 0,
    decreases s.len(),
{
    if s.len() > 0 {
        lemma_last_invalid(s.drop_last());
        if digit_val(s.last()) >= 0 {
            assert(forall|i: int|
                0 <= i < s.len() - 1 ==> s.drop_last()[i] == s[i]);
            if all_digits(s.drop_last()) {
                assert(all_digits(s));
            } else {
                assert(!all_digits(s));
            }
        }
    }
}

/// A digit string has a non-negative value.
pub proof fn lemma_decode62_nonneg(s: Seq<char>)
    requires
        all_digits(s),
    ensures
        decode62(s) >= 0,
    decreases s.len(),
{
    if s.len() > 0 {
        assert(all_digits(s.drop_last())) by {
            assert(forall|i: int|
                0 <= i < s.len() - 1 ==> s.drop_last()[i] == s[i]);
        }
        lemma_decode62_nonneg(s.drop_last());
        assert(decode62(s.drop_last()) * 62 >= 0) by (nonlinear_arith)
            requires
                decode62(s.drop_last()) >= 0,
        ;
    }
}

/// Parses a base-62 string back to an integer; a character outside the
/// alphabet is rejected with an error naming that character (the rightmost
/// such character when there are several), and a value beyond the machine
/// word is rejected as an overflow.
pub fn decode_base62(data: &str) -> (res: Result<usize, crate::errors::AppError>)
    ensures
        all_digits(data@) && decode62(data@) <= usize::MAX ==> res == Ok::<usize,
            crate::errors::AppError,
        >((decode62(data@)) as usize),
        all_digits(data@) && decode62(data@) > usize::MAX ==> res == Err::<usize,
            crate::errors::AppError,
        >(crate::errors::AppError { kind: crate::errors::ErrorKind::CodeOverflow }),
        !all_digits(data@) ==> res == Err::<usize, crate::errors::AppError>(
            crate::errors::AppError {
                kind: crate::errors::ErrorKind::InvalidCode(data@[last_invalid(data@)]),
            },
        ),
{
    let mut acc: usize = 0;
    let mut overflow: bool = false;
    let mut bad: Option<char> = None;
    for c in it: data.chars()
        invariant
            it.seq() == data@,
            0 <= it.index() <= data@.len(),
            bad is None <==> all_digits(data@.take(it.index() as int)),
            bad is Some ==> bad->0 == data@.take(it.index() as int)[last_invalid(
                data@.take(it.index() as int),
            )],
            all_digits(data@.take(it.index() as int)) && !overflow ==> acc == decode62(
                data@.take(it.index() as int),
            ),
            all_digits(data@.take(it.index() as int)) ==> (overflow <==> decode62(
                data@.take(it.index() as int),
            ) > usize::MAX),
    {
        let ghost pre = data@.take(it.index() as int);
        let ghost pre2 = data@.take(it.index() as int + 1);
        proof {
            assert(pre2.drop_last() =~= pre);
            assert(pre2.last() == c);
            lemma_last_invalid(pre);
            lemma_last_invalid(pre2);
        }
        match digit_val_x(c) {
            None => {
                bad = Some(c);
                proof {
                    assert(digit_val(pre2.last()) < 0);
                    assert(last_invalid(pre2) == pre2.len() - 1);
                }
            },
            Some(v) => {
                proof {
                    if !all_digits(pre2) {
                        assert(last_invalid(pre2) == last_invalid(pre));
                        assert(pre2[last_invalid(pre2)] == pre[last_invalid(pre)]);
                    } else {
                        assert(all_digits(pre)) by {
                            assert(forall|i: int| 0 <= i < pre.len() ==> pre[i] == pre2[i]);
                        }
                        lemma_decode62_nonneg(pre);
                        assert(decode62(pre2) == decode62(pre) * 62 + digit_val(c));
                    }
                }
                if !overflow {
                    let step = acc.checked_mul(62);
                    match step {
                        Some(m) => {
                            match m.checked_add(v as usize) {
                                Some(s2) => {
                                    acc = s2;
                                },
                                None => {
                                    overflow = true;
                                },
                            }
                        },
                        None => {
                            overflow = true;
                        },
                    }
                } else {
                    proof {
                        if all_digits(pre2) {
                            assert(decode62(pre) * 62 + digit_val(c) > usize::MAX)
                                by (nonlinear_arith)
                                requires
                                    decode62(pre) > usize::MAX,
                                    digit_val(c) >= 0,
                            ;
                        }
                    }
                }
            },
        }
    }
    proof {
        assert(data@.take(data@.len() as int) =~= data@);
    }
    match bad {
        Some(c) => Err(crate::errors::AppError::invalid_code(c)),
        None => {
            if overflow {
                Err(crate::errors::AppError {
                    kind: crate::errors::ErrorKind::CodeOverflow,
                })
            } else {
                Ok(acc)
            }
        },
    }
}

proof fn lemma_digit_char_val(d: int)
    requires
        0 <= d < 62,
    ensures
        digit_val(digit_char(d)) == d,
{
}

proof fn lemma_digit_val_char(c: char)
    requires
        digit_val(c) >= 0,
    ensures
        0 <= digit_val(c) < 62,
        digit_char(digit_val(c)) == c,
{
}

/// The canonical spelling uses only alphabet characters, spells at least one
/// digit, and never starts with a redundant zero digit.
pub proof fn lemma_encode62_wf(n: nat)
    ensures
        all_digits(encode62(n)),
        encode62(n).len() >= 1,
        n >= 62 ==> encode62(n).len() >= 2,
        encode62(n).len() > 1 ==> digit_val(encode62(n)[0]) >= 1,
    decreases n,
{
    if n < 62 {
        lemma_digit_char_val(n as int);
    } else {
        lemma_encode62_wf(n / 62);
        lemma_digit_char_val((n % 62) as int);
        let s = encode62(n / 62);
        let w = encode62(n);
        assert(w == s + seq![digit_char((n % 62) as int)]);
        assert(forall|i: int| 0 <= i < s.len() ==> w[i] == s[i]);
        assert(w[w.len() - 1] == digit_char((n % 62) as int));
        if n / 62 < 62 {
            assert(n / 62 >= 1);
            lemma_digit_char_val((n / 62) as int);
            assert(w[0] == digit_char((n / 62) as int));
        } else {
            assert(s.len() >= 2);
            assert(w[0] == s[0]);
        }
    }
}

/// Round trip one way: decoding the canonical spelling of `n` gives `n` back.
pub proof fn lemma_decode_encode(n: nat)
    ensures
        decode62(encode62(n)) == n,
    decreases n,
{
    if n < 62 {
        lemma_digit_char_val(n as int);
        let w = encode62(n);
        assert(w.len() == 1);
        assert(w.last() == digit_char(n as int));
        assert(w.drop_last() =~= Seq::<char>::empty());
        assert(decode62(Seq::<char>::empty()) == 0);
        assert(decode62(w) == 0 * 62 + digit_val(digit_char(n as int)));
    } else {
        lemma_decode_encode(n / 62);
        lemma_digit_char_val((n % 62) as int);
        let s = encode62(n / 62);
        let w = encode62(n);
        assert(w.drop_last() =~= s);
        assert(w.last() == digit_char((n % 62) as int));
        assert(decode62(w) == decode62(s) * 62 + (n % 62));
        vstd::arithmetic::div_mod::lemma_fundamental_div_mod(n as int, 62);
    }
}

/// A digit string that starts with a non-zero digit has a positive value,
/// and at least 62 when it has two or more digits.
proof fn lemma_decode62_first(s: Seq<char>)
    requires
        all_digits(s),
        s.len() >= 1,
        digit_val(s[0]) >= 1,
    ensures
        decode62(s) >= 1,
        s.len() >= 2 ==> decode62(s) >= 62,
    decreases s.len(),
{
    assert(digit_val(s.last()) >= 0);
    if s.len() == 1 {
        assert(s.drop_last() =~= Seq::<char>::empty());
        assert(decode62(Seq::<char>::empty()) == 0);
        assert(s.last() == s[0]);
        assert(decode62(s) == 0 * 62 + digit_val(s[0]));
    } else {
        let p = s.drop_last();
        assert(all_digits(p)) by {
            assert(forall|i: int| 0 <= i < p.len() ==> p[i] == s[i]);
        }
        assert(p[0] == s[0]);
        lemma_decode62_first(p);
        assert(decode62(p) * 62 >= 62) by (nonlinear_arith)
            requires
                decode62(p) >= 1,
        ;
        assert(decode62(s) == decode62(p) * 62 + digit_val(s.last()));
    }
}

/// Round trip the other way: a canonical digit string (no redundant leading
/// zero digit) is the spelling of its own value.
pub proof fn lemma_encode_decode(s: Seq<char>)
    requires
        all_digits(s),
        s.len() >= 1,
        s.len() > 1 ==> digit_val(s[0]) >= 1,
    ensures
        decode62(s) >= 0,
        encode62(decode62(s) as nat) == s,
    decreases s.len(),
{
    lemma_decode62_nonneg(s);
    if s.len() == 1 {
        lemma_digit_val_char(s[0]);
        assert(s.drop_last() =~= Seq::<char>::empty());
        assert(decode62(Seq::<char>::empty()) == 0);
        assert(s.last() == s[0]);
        assert(decode62(s) == 0 * 62 + digit_val(s[0]));
        assert(encode62(decode62(s) as nat) =~= s);
    } else {
        let p = s.drop_last();
        let v = digit_val(s.last());
        assert(all_digits(p)) by {
            assert(forall|i: int| 0 <= i < p.len() ==> p[i] == s[i]);
        }
        assert(p[0] == s[0]);
        lemma_decode62_first(p);
        lemma_digit_val_char(s.last());
        lemma_encode_decode(p);
        let m = decode62(p);
        let n = decode62(s);
        assert(n == m * 62 + v);
        assert(n >= 62) by (nonlinear_arith)
            requires
                m >= 1,
                v >= 0,
                n == m * 62 + v,
        ;
        vstd::arithmetic::div_mod::lemma_fundamental_div_mod_converse(n, 62, m, v);
        assert(encode62(n as nat) == encode62((n / 62) as nat) + seq![
            digit_char((n % 62) as int),
        ]);
        assert(encode62(n as nat) =~= s);
    }
}

} // verus!
