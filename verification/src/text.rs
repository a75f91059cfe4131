//! Small string helpers the graph build uses: stripping the well-known
//! filename suffix, decimal rendering, and decimal parsing of stored ids.

use vstd::prelude::*;

verus! {

/// The filename suffix stripped from metadata keys.
pub open spec fn md_suffix() -> Seq<char> {
    seq!['.', 'm', 'd']
}

/// A key with the suffix removed, or the key itself when it does not end in
/// the suffix.
pub open spec fn spec_strip_md(s: Seq<char>) -> Seq<char> {
    if s.len() >= 3 && s.subrange(s.len() - 3, s.len() as int) == md_suffix() {
        s.subrange(0, s.len() - 3)
    } else {
        s
    }
}

/// Executable form of [`spec_strip_md`].
pub fn strip_md_suffix(s: &String) -> (r: String)
    ensures
        r@ == spec_strip_md(s@),
{
    let n = s.as_str().unicode_len();
    if n >= 3 {
        let c1 = s.as_str().get_char(n - 3);
        let c2 = s.as_str().get_char(n - 2);
        let c3 = s.as_str().get_char(n - 1);
        if c1 == '.' && c2 == 'm' && c3 == 'd' {
            proof {
                assert(s@.subrange(s@.len() - 3, s@.len() as int) =~= md_suffix());
            }
            return s.as_str().substring_char(0, n - 3).to_owned();
        }
        proof {
            assert(s@.subrange(s@.len() - 3, s@.len() as int) != md_suffix()) by {
                if s@.subrange(s@.len() - 3, s@.len() as int) == md_suffix() {
                    assert(s@.subrange(s@.len() - 3, s@.len() as int)[0] == '.');
                    assert(s@.subrange(s@.len() - 3, s@.len() as int)[1] == 'm');
                    assert(s@.subrange(s@.len() - 3, s@.len() as int)[2] == 'd');
                }
            }
        }
    }
    s.clone()
}

/// Appends the filename suffix to a stripped key.
pub fn append_md_suffix(s: &String) -> (r: String)
    ensures
        r@ == s@ + md_suffix(),
{
    proof {
        reveal_strlit(".md");
        assert(".md"@ =~= md_suffix());
    }
    let r = s.clone().concat(".md");
    proof {
        assert(r@ =~= s@ + md_suffix());
    }
    r
}

/// The character for one decimal digit.
pub open spec fn spec_digit(d: int) -> char {
    if d == 0 {
        '0'
    } else if d == 1 {
        '1'
    } else if d == 2 {
        '2'
    } else if d == 3 {
        '3'
    } else if d == 4 {
        '4'
    } else if d == 5 {
        '5'
    } else if d == 6 {
        '6'
    } else if d == 7 {
        '7'
    } else if d == 8 {
        '8'
    } else {
        '9'
    }
}

/// The decimal rendering of a natural number, most significant digit first.
pub open spec fn spec_decimal(n: nat) -> Seq<char>
    decreases n,
{
    if n < 10 {
        seq![spec_digit(n as int)]
    } else {
        spec_decimal(n / 10).push(spec_digit((n % 10) as int))
    }
}

/// One decimal digit as a string slice.
fn digit_str(d: u64) -> (r: &'static str)
    requires
        d < 10,
    ensures
        r@ =~= seq![spec_digit(d as int)],
{
    proof {
        reveal_strlit("0");
        reveal_strlit("1");
        reveal_strlit("2");
        reveal_strlit("3");
        reveal_strlit("4");
        reveal_strlit("5");
        reveal_strlit("6");
        reveal_strlit("7");
        reveal_strlit("8");
        reveal_strlit("9");
    }
    if d == 0 {
        "0"
    } else if d == 1 {
        "1"
    } else if d == 2 {
        "2"
    } else if d == 3 {
        "3"
    } else if d == 4 {
        "4"
    } else if d == 5 {
        "5"
    } else if d == 6 {
        "6"
    } else if d == 7 {
        "7"
    } else if d == 8 {
        "8"
    } else {
        "9"
    }
}

/// Renders a number in decimal.
pub fn u64_to_string(n: u64) -> (r: String)
    ensures
        r@ == spec_decimal(n as nat),
    decreases n,
{
    if n < 10 {
        let r = String::from_str(digit_str(n));
        proof {
            assert(r@ =~= spec_decimal(n as nat));
        }
        r
    } else {
        let mut r = u64_to_string(n / 10);
        r.append(digit_str(n % 10));
        proof {
            assert(r@ =~= spec_decimal(n as nat));
        }
        r
    }
}

/// The decimal rendering of a milli-unit value as its real number: the
/// whole part, then a point and the fraction with trailing zeros dropped
/// (and no point at all when the fraction is zero), so 1500 reads "1.5",
/// 1000 reads "1" and 1050 reads "1.05".
pub open spec fn spec_milli_decimal(n: u64) -> Seq<char> {
    let whole = n / 1000;
    let frac = n % 1000;
    if frac == 0 {
        spec_decimal(whole as nat)
    } else if frac % 100 == 0 {
        spec_decimal(whole as nat) + seq!['.', spec_digit(frac as int / 100)]
    } else if frac % 10 == 0 {
        spec_decimal(whole as nat) + seq![
            '.',
            spec_digit(frac as int / 100),
            spec_digit(frac as int / 10 % 10),
        ]
    } else {
        spec_decimal(whole as nat) + seq![
            '.',
            spec_digit(frac as int / 100),
            spec_digit(frac as int / 10 % 10),
            spec_digit(frac as int % 10),
        ]
    }
}

/// Executable form of [`spec_milli_decimal`].
pub fn milli_to_string(n: u64) -> (r: String)
    ensures
        r@ == spec_milli_decimal(n),
{
    let whole = n / 1000;
    let frac = n % 1000;
    let mut r = u64_to_string(whole);
    proof {
        reveal_strlit(".");
        assert("."@ =~= seq!['.']);
    }
    if frac == 0 {
        proof {
            assert(r@ =~= spec_milli_decimal(n));
        }
        return r;
    }
    r.append(".");
    if frac % 100 == 0 {
        r.append(digit_str(frac / 100));
    } else if frac % 10 == 0 {
        r.append(digit_str(frac / 100));
        r.append(digit_str(frac / 10 % 10));
    } else {
        r.append(digit_str(frac / 100));
        r.append(digit_str(frac / 10 % 10));
        r.append(digit_str(frac % 10));
    }
    proof {
        assert(r@ =~= spec_milli_decimal(n));
    }
    r
}

/// Whether a character is a decimal digit.
pub open spec fn is_decimal_digit(c: char) -> bool {
    '0' <= c && c <= '9'
}

/// The value of a decimal digit character.
pub open spec fn spec_digit_val(c: char) -> int {
    c as int - '0' as int
}

/// Left fold of decimal digits with the accumulator saturated just above
/// `u32::MAX`, so overflowing inputs stay recognizably too large.
pub open spec fn spec_parse_acc(s: Seq<char>, acc: int) -> Option<int>
    decreases s.len(),
{
    if s.len() == 0 {
        Some(acc)
    } else if !is_decimal_digit(s[0]) {
        None
    } else {
        let next = acc * 10 + spec_digit_val(s[0]);
        spec_parse_acc(s.drop_first(), if next > 0x1_0000_0000int {
            0x1_0000_0000int
        } else {
            next
        })
    }
}

/// Parses a non-empty, all-digit string whose value fits in a `u32`.
pub open spec fn spec_parse_u32(s: Seq<char>) -> Option<u32> {
    if s.len() == 0 {
        None
    } else {
        match spec_parse_acc(s, 0) {
            Some(v) => if v <= u32::MAX {
                Some(v as u32)
            } else {
                None
            },
            None => None,
        }
    }
}

/// Executable form of [`spec_parse_u32`].
pub fn parse_u32(s: &String) -> (r: Option<u32>)
    ensures
        r == spec_parse_u32(s@),
{
    let n = s.as_str().unicode_len();
    if n == 0 {
        return None;
    }
    let mut acc: u64 = 0;
    let mut i: usize = 0;
    proof {
        assert(s@.subrange(0, n as int) =~= s@);
    }
    while i < n
        invariant
            0 < n == s@.len(),
            i <= n,
            acc <= 0x1_0000_0000u64,
            spec_parse_acc(s@, 0) == spec_parse_acc(s@.subrange(i as int, n as int), acc as int),
        decreases n - i,
    {
        let c = s.as_str().get_char(i);
        let ghost rest = s@.subrange(i as int, n as int);
        proof {
            assert(rest[0] == s@[i as int]);
            assert(rest.drop_first() =~= s@.subrange(i as int + 1, n as int));
        }
        if c < '0' || c > '9' {
            proof {
                assert(spec_parse_acc(rest, acc as int) is None);
            }
            return None;
        }
        let d: u32 = (c as u32) - ('0' as u32);
        let next: u64 = acc * 10 + (d as u64);
        acc = if next > 0x1_0000_0000u64 {
            0x1_0000_0000u64
        } else {
            next
        };
        i = i + 1;
    }
    proof {
        assert(s@.subrange(n as int, n as int) =~= Seq::<char>::empty());
        assert(spec_parse_acc(s@, 0) == Some(acc as int));
    }
    if acc <= u32::MAX as u64 {
        Some(acc as u32)
    } else {
        None
    }
}


/// Appending a character to the input applies one more fold step.
proof fn lemma_parse_acc_push(s: Seq<char>, c: char, acc: int)
    ensures
        spec_parse_acc(s.push(c), acc) == match spec_parse_acc(s, acc) {
            Some(v) => if is_decimal_digit(c) {
                let next = v * 10 + spec_digit_val(c);
                Some(
                    if next > 0x1_0000_0000int {
                        0x1_0000_0000int
                    } else {
                        next
                    },
                )
            } else {
                None
            },
            None => None,
        },
    decreases s.len(),
{
    if s.len() == 0 {
        assert(s.push(c)[0] == c);
        assert(s.push(c).drop_first() =~= Seq::<char>::empty());
        assert(spec_parse_acc(s, acc) == Some(acc));
        if is_decimal_digit(c) {
            let next = acc * 10 + spec_digit_val(c);
            let sat = if next > 0x1_0000_0000int {
                0x1_0000_0000int
            } else {
                next
            };
            assert(spec_parse_acc(s.push(c), acc) == spec_parse_acc(
                s.push(c).drop_first(),
                sat,
            ));
            assert(spec_parse_acc(Seq::<char>::empty(), sat) == Some(sat));
        } else {
            assert(spec_parse_acc(s.push(c), acc) is None);
        }
    } else {
        assert(s.push(c)[0] == s[0]);
        assert(s.push(c).drop_first() =~= s.drop_first().push(c));
        if is_decimal_digit(s[0]) {
            let next = acc * 10 + spec_digit_val(s[0]);
            let sat = if next > 0x1_0000_0000int {
                0x1_0000_0000int
            } else {
                next
            };
            lemma_parse_acc_push(s.drop_first(), c, sat);
            assert(spec_parse_acc(s.push(c), acc) == spec_parse_acc(
                s.drop_first().push(c),
                sat,
            ));
            assert(spec_parse_acc(s, acc) == spec_parse_acc(s.drop_first(), sat));
        } else {
            assert(spec_parse_acc(s.push(c), acc) is None);
            assert(spec_parse_acc(s, acc) is None);
        }
    }
}

/// A digit character is recognized as one and carries its value.
proof fn lemma_digit_char(d: int)
    requires
        0 <= d < 10,
    ensures
        is_decimal_digit(spec_digit(d)),
        spec_digit_val(spec_digit(d)) == d,
{
}

/// Rendering and parsing round-trip: the decimal rendering of any value
/// that fits in 32 bits parses back to exactly that value.
pub proof fn lemma_decimal_round_trip(n: u64)
    requires
        n <= u32::MAX,
    ensures
        spec_parse_u32(spec_decimal(n as nat)) == Some(n as u32),
{
    lemma_parse_acc_value(n as nat);
    assert(spec_decimal(n as nat).len() >= 1);
}

/// The rendering of any value below the saturation threshold folds back
/// to exactly that value.
proof fn lemma_parse_acc_value(n: nat)
    requires
        n <= 0xffff_ffff,
    ensures
        spec_parse_acc(spec_decimal(n), 0) == Some(n as int),
    decreases n,
{
    if n < 10 {
        lemma_digit_char(n as int);
        let s = spec_decimal(n);
        assert(s =~= Seq::<char>::empty().push(spec_digit(n as int)));
        lemma_parse_acc_push(Seq::<char>::empty(), spec_digit(n as int), 0);
    } else {
        lemma_parse_acc_value(n / 10);
        lemma_digit_char((n % 10) as int);
        lemma_parse_acc_push(spec_decimal(n / 10), spec_digit((n % 10) as int), 0);
        assert((n / 10) as int * 10 + (n % 10) as int == n as int);
    }
}

} // verus!
