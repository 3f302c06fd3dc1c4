//! Decimal and hexadecimal renderings.

use vstd::prelude::*;
use vstd::string::StringExecFns;

verus! {

/// The lower-case hexadecimal digit of `d`.
pub open spec fn digit(d: int) -> char {
    if d == 0 {
        '0'
    } else if d == 1 {
        '1'
    } else if d == 2 {
        '2'
    } else if d == 3 {
        '3'
    } else if d == 4 {
        '4'
    } else if d == 5 {
        '5'
    } else if d == 6 {
        '6'
    } else if d == 7 {
        '7'
    } else if d == 8 {
        '8'
    } else if d == 9 {
        '9'
    } else if d == 10 {
        'a'
    } else if d == 11 {
        'b'
    } else if d == 12 {
        'c'
    } else if d == 13 {
        'd'
    } else if d == 14 {
        'e'
    } else {
        'f'
    }
}

/// `n` in decimal, without leading zeros.
pub open spec fn decimal(n: int) -> Seq<char>
    decreases n,
{
    if n < 10 {
        seq![digit(n)]
    } else {
        decimal(n / 10).push(digit(n % 10))
    }
}

/// `n` as four hexadecimal digits.
pub open spec fn hex4(n: int) -> Seq<char> {
    seq![digit(n / 4096 % 16), digit(n / 256 % 16), digit(n / 16 % 16), digit(n % 16)]
}

fn digit_text(d: u32) -> (r: &'static str)
    requires
        d < 16,
    ensures
        r@ == seq![digit(d as int)],
{
    proof {
        reveal_strlit("0");
        reveal_strlit("1");
        reveal_strlit("2");
        reveal_strlit("3");
        reveal_strlit("4");
        reveal_strlit("5");
        reveal_strlit("6");
        reveal_strlit("7");
        reveal_strlit("8");
        reveal_strlit("9");
        reveal_strlit("a");
        reveal_strlit("b");
        reveal_strlit("c");
        reveal_strlit("d");
        reveal_strlit("e");
        reveal_strlit("f");
    }
    let r = match d {
        0 => "0",
        1 => "1",
        2 => "2",
        3 => "3",
        4 => "4",
        5 => "5",
        6 => "6",
        7 => "7",
        8 => "8",
        9 => "9",
        10 => "a",
        11 => "b",
        12 => "c",
        13 => "d",
        14 => "e",
        _ => "f",
    };
    assert(r@ =~= seq![digit(d as int)]);
    r
}

/// Appends `n` in decimal.
pub fn push_decimal(text: &mut String, n: u32)
    ensures
        final(text)@ == old(text)@ + decimal(n as int),
    decreases n,
{
    if n >= 10 {
        push_decimal(text, n / 10);
    }
    let ghost before = text@;
    text.append(digit_text(n % 10));
    proof {
        if n >= 10 {
            assert(before + seq![digit((n % 10) as int)] =~= old(text)@ + decimal(n as int));
        }
    }
}

/// Appends `n` as four hexadecimal digits.
pub fn push_hex4(text: &mut String, n: u16)
    ensures
        final(text)@ == old(text)@ + hex4(n as int),
{
    let m: u32 = n as u32;
    text.append(digit_text(m / 4096 % 16));
    text.append(digit_text(m / 256 % 16));
    text.append(digit_text(m / 16 % 16));
    text.append(digit_text(m % 16));
    assert(text@ =~= old(text)@ + hex4(n as int));
}

/// Whether `c` is a decimal digit.
pub open spec fn is_digit(c: char) -> bool {
    exists|d: int| 0 <= d < 10 && c == #[trigger] digit(d)
}

/// The characters of `s` from `i` to `j` are a whole run of digits that spells `v`.
pub open spec fn spells(s: Seq<char>, i: int, j: int, v: u8) -> bool {
    &&& 0 <= i <= j <= s.len()
    &&& s.subrange(i, j) == decimal(v as int)
    &&& j == s.len() || !is_digit(s[j])
}

/// The digits of an octet.
pub proof fn lemma_octet_digits(v: u8)
    ensures
        v < 10 ==> decimal(v as int) == seq![digit(v as int)],
        10 <= v < 100 ==> decimal(v as int) == seq![digit(v as int / 10), digit(v as int % 10)],
        100 <= v ==> decimal(v as int) == seq![
            digit(v as int / 100),
            digit(v as int / 10 % 10),
            digit(v as int % 10),
        ],
{
    reveal_with_fuel(decimal, 4);
    if 10 <= v < 100 {
        assert(decimal(v as int) =~= seq![digit(v as int / 10), digit(v as int % 10)]);
    }
    if 100 <= v {
        assert(decimal(v as int) =~= seq![
            digit(v as int / 100),
            digit(v as int / 10 % 10),
            digit(v as int % 10),
        ]);
    }
}

/// Each digit has its own character.
pub proof fn lemma_digits_differ(d: int, e: int)
    requires
        0 <= d < 10,
        0 <= e < 10,
        digit(d) == digit(e),
    ensures
        d == e,
{
}

/// What a run of digits spells, and where it ends, is fixed by where it starts.
pub proof fn lemma_spells_unique(s: Seq<char>, i: int, j: int, v: u8, k: int, w: u8)
    requires
        spells(s, i, j, v),
        spells(s, i, k, w),
    ensures
        j == k,
        v == w,
{
    lemma_octet_digits(v);
    lemma_octet_digits(w);
    let a = s.subrange(i, j);
    let b = s.subrange(i, k);
    assert(a.len() == j - i);
    assert(b.len() == k - i);
    assert forall|n: int| 0 <= n < a.len() implies is_digit(#[trigger] s[i + n]) by {
        assert(a[n] == s[i + n]);
        assert(decimal(v as int)[n] == a[n]);
        if v < 10 {
            assert(a[n] == digit(v as int));
        } else if v < 100 {
            assert(a[n] == digit(v as int / 10) || a[n] == digit(v as int % 10));
        } else {
            assert(a[n] == digit(v as int / 100) || a[n] == digit(v as int / 10 % 10) || a[n]
                == digit(v as int % 10));
        }
    }
    assert forall|n: int| 0 <= n < b.len() implies is_digit(#[trigger] s[i + n]) by {
        assert(b[n] == s[i + n]);
        assert(decimal(w as int)[n] == b[n]);
        if w < 10 {
            assert(b[n] == digit(w as int));
        } else if w < 100 {
            assert(b[n] == digit(w as int / 10) || b[n] == digit(w as int % 10));
        } else {
            assert(b[n] == digit(w as int / 100) || b[n] == digit(w as int / 10 % 10) || b[n]
                == digit(w as int % 10));
        }
    }
    if j < k {
        assert(is_digit(s[i + (j - i)]));
    } else if k < j {
        assert(is_digit(s[i + (k - i)]));
    }
    assert(a == b);
    assert(decimal(v as int)[0] == decimal(w as int)[0]);
    if a.len() == 1 {
        lemma_digits_differ(v as int, w as int);
    } else if a.len() == 2 {
        assert(decimal(v as int)[1] == decimal(w as int)[1]);
        lemma_digits_differ(v as int / 10, w as int / 10);
        lemma_digits_differ(v as int % 10, w as int % 10);
    } else {
        assert(decimal(v as int)[1] == decimal(w as int)[1]);
        assert(decimal(v as int)[2] == decimal(w as int)[2]);
        lemma_digits_differ(v as int / 100, w as int / 100);
        lemma_digits_differ(v as int / 10 % 10, w as int / 10 % 10);
        lemma_digits_differ(v as int % 10, w as int % 10);
    }
}

fn digit_value(c: char) -> (r: Option<u32>)
    ensures
        match r {
            Some(d) => d < 10 && c == digit(d as int) && is_digit(c),
            None => !is_digit(c),
        },
{
    let r = match c {
        '0' => Some(0u32),
        '1' => Some(1u32),
        '2' => Some(2u32),
        '3' => Some(3u32),
        '4' => Some(4u32),
        '5' => Some(5u32),
        '6' => Some(6u32),
        '7' => Some(7u32),
        '8' => Some(8u32),
        '9' => Some(9u32),
        _ => None,
    };
    proof {
        if let Some(d) = r {
            assert(c == digit(d as int));
        } else {
            assert forall|d: int| 0 <= d < 10 implies c != #[trigger] digit(d) by {}
        }
    }
    r
}

/// Reads the octet that starts at position `i`: its value and the position behind it.
pub fn read_octet(chars: &Vec<char>, i: usize) -> (r: Option<(u8, usize)>)
    requires
        i <= chars@.len(),
    ensures
        match r {
            Some((v, j)) => spells(chars@, i as int, j as int, v),
            None => forall|j: int, v: u8| !#[trigger] spells(chars@, i as int, j, v),
        },
{
    let n: usize = chars.len();
    let ghost s = chars@;
    proof {
        assert forall|j: int, v: u8| #[trigger] spells(s, i as int, j, v) implies i < s.len()
            && s.subrange(i as int, j).len() == j - i && (forall|m: int|
            0 <= m < j - i ==> #[trigger] decimal(v as int)[m] == s[i + m]) && (decimal(
            v as int,
        ).len() == j - i) by {
            lemma_octet_digits(v);
            let t = s.subrange(i as int, j);
            assert(decimal(v as int).len() == j - i);
            assert(decimal(v as int).len() >= 1);
            assert forall|m: int| 0 <= m < j - i implies #[trigger] decimal(v as int)[m] == s[i
                + m] by {
                assert(t[m] == s[i + m]);
            }
        }
        assert forall|v: u8|
            (v < 10 ==> #[trigger] decimal(v as int) == seq![digit(v as int)]) && (10 <= v < 100
                ==> decimal(v as int) == seq![digit(v as int / 10), digit(v as int % 10)]) && (100
                <= v ==> decimal(v as int) == seq![
                digit(v as int / 100),
                digit(v as int / 10 % 10),
                digit(v as int % 10),
            ]) by {
            lemma_octet_digits(v);
        }
    }
    if i >= n {
        return None;
    }
    let d1: u32 = match digit_value(chars[i]) {
        Some(d) => d,
        None => {
            assert forall|j: int, v: u8| !#[trigger] spells(s, i as int, j, v) by {
                if spells(s, i as int, j, v) {
                    assert(decimal(v as int)[0] == s[i + 0]);
                    if v < 10 {
                        assert(is_digit(digit(v as int)));
                    } else if v < 100 {
                        assert(is_digit(digit(v as int / 10)));
                    } else {
                        assert(is_digit(digit(v as int / 100)));
                    }
                }
            }
            return None;
        },
    };
    let second: Option<u32> = if i + 1 < n {
        digit_value(chars[i + 1])
    } else {
        None
    };
    let d2: u32 = match second {
        Some(d) => d,
        None => {
            assert(s.subrange(i as int, i + 1) =~= seq![digit(d1 as int)]);
            return Some((d1 as u8, i + 1));
        },
    };
    if d1 == 0 {
        assert forall|j: int, v: u8| !#[trigger] spells(s, i as int, j, v) by {
            if spells(s, i as int, j, v) {
                assert(decimal(v as int)[0] == s[i + 0]);
                if v < 10 {
                    assert(j == i + 1);
                } else if v < 100 {
                    lemma_digits_differ(v as int / 10, 0);
                } else {
                    lemma_digits_differ(v as int / 100, 0);
                }
            }
        }
        return None;
    }
    let third: Option<u32> = if i + 2 < n {
        digit_value(chars[i + 2])
    } else {
        None
    };
    let d3: u32 = match third {
        Some(d) => d,
        None => {
            let v: u8 = (d1 * 10 + d2) as u8;
            assert(v as int / 10 == d1 && v as int % 10 == d2);
            assert(s.subrange(i as int, i + 2) =~= seq![digit(d1 as int), digit(d2 as int)]);
            return Some((v, i + 2));
        },
    };
    let value: u32 = d1 * 100 + d2 * 10 + d3;
    let more: bool = if i + 3 < n {
        digit_value(chars[i + 3]).is_some()
    } else {
        false
    };
    if value > 255 || more {
        assert forall|j: int, v: u8| !#[trigger] spells(s, i as int, j, v) by {
            if spells(s, i as int, j, v) {
                assert(decimal(v as int)[0] == s[i + 0]);
                if v < 10 {
                    assert(j == i + 1);
                } else if v < 100 {
                    assert(j == i + 2);
                } else {
                    assert(j == i + 3);
                    assert(decimal(v as int)[1] == s[i + 1]);
                    assert(decimal(v as int)[2] == s[i + 2]);
                    lemma_digits_differ(v as int / 100, d1 as int);
                    lemma_digits_differ(v as int / 10 % 10, d2 as int);
                    lemma_digits_differ(v as int % 10, d3 as int);
                }
            }
        }
        return None;
    }
    let v: u8 = value as u8;
    assert(v as int / 100 == d1 && v as int / 10 % 10 == d2 && v as int % 10 == d3);
    assert(s.subrange(i as int, i + 3) =~= seq![
        digit(d1 as int),
        digit(d2 as int),
        digit(d3 as int),
    ]);
    Some((v, i + 3))
}

} // verus!
