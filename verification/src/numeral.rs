//! Decimal numerals: rendering an iteration value as literal text, and
//! reading the text of a range-bound literal back as a value.

use vstd::prelude::*;

verus! {

pub open spec fn dec_digit_char(d: nat) -> char
    recommends
        d < 10,
{
    if d == 0 {
        '0'
    } else if d == 1 {
        '1'
    } else if d == 2 {
        '2'
    } else if d == 3 {
        '3'
    } else if d == 4 {
        '4'
    } else if d == 5 {
        '5'
    } else if d == 6 {
        '6'
    } else if d == 7 {
        '7'
    } else if d == 8 {
        '8'
    } else {
        '9'
    }
}

pub open spec fn is_dec_digit(c: char) -> bool {
    c == '0' || c == '1' || c == '2' || c == '3' || c == '4' || c == '5' || c == '6' || c == '7'
        || c == '8' || c == '9'
}

pub open spec fn dec_digit_val(c: char) -> nat
    recommends
        is_dec_digit(c),
{
    if c == '0' {
        0
    } else if c == '1' {
        1
    } else if c == '2' {
        2
    } else if c == '3' {
        3
    } else if c == '4' {
        4
    } else if c == '5' {
        5
    } else if c == '6' {
        6
    } else if c == '7' {
        7
    } else if c == '8' {
        8
    } else {
        9
    }
}

/// The unsuffixed decimal rendering of `n`, most significant digit first and
/// without leading zeros (a single `0` for zero itself).
pub open spec fn dec_rep(n: nat) -> Seq<char>
    decreases n,
{
    if n < 10 {
        seq![dec_digit_char(n)]
    } else {
        dec_rep(n / 10) + seq![dec_digit_char(n % 10)]
    }
}

/// Does `s` spell a plain decimal numeral: nonempty, digits only?
pub open spec fn is_dec_numeral(s: Seq<char>) -> bool {
    s.len() > 0 && forall|i: int| 0 <= i < s.len() ==> is_dec_digit(#[trigger] s[i])
}

/// The value a digit string spells, most significant digit first.
pub open spec fn dec_value(s: Seq<char>) -> nat
    decreases s,
{
    if s.len() == 0 {
        0
    } else {
        dec_value(s.subrange(0, s.len() - 1)) * 10 + dec_digit_val(s[s.len() - 1])
    }
}

fn dec_digit_str(d: usize) -> (s: &'static str)
    requires
        d < 10,
    ensures
        s@ == seq![dec_digit_char(d as nat)],
{
    if d == 0 {
        proof {
            reveal_strlit("0");
            assert(("0")@ =~= seq![dec_digit_char(0)]);
        }
        "0"
    } else if d == 1 {
        proof {
            reveal_strlit("1");
            assert(("1")@ =~= seq![dec_digit_char(1)]);
        }
        "1"
    } else if d == 2 {
        proof {
            reveal_strlit("2");
            assert(("2")@ =~= seq![dec_digit_char(2)]);
        }
        "2"
    } else if d == 3 {
        proof {
            reveal_strlit("3");
            assert(("3")@ =~= seq![dec_digit_char(3)]);
        }
        "3"
    } else if d == 4 {
        proof {
            reveal_strlit("4");
            assert(("4")@ =~= seq![dec_digit_char(4)]);
        }
        "4"
    } else if d == 5 {
        proof {
            reveal_strlit("5");
            assert(("5")@ =~= seq![dec_digit_char(5)]);
        }
        "5"
    } else if d == 6 {
        proof {
            reveal_strlit("6");
            assert(("6")@ =~= seq![dec_digit_char(6)]);
        }
        "6"
    } else if d == 7 {
        proof {
            reveal_strlit("7");
            assert(("7")@ =~= seq![dec_digit_char(7)]);
        }
        "7"
    } else if d == 8 {
        proof {
            reveal_strlit("8");
            assert(("8")@ =~= seq![dec_digit_char(8)]);
        }
        "8"
    } else {
        proof {
            reveal_strlit("9");
            assert(("9")@ =~= seq![dec_digit_char(9)]);
        }
        "9"
    }
}

/// Renders `n` in unsuffixed decimal.
pub fn render_dec(n: usize) -> (s: String)
    ensures
        s@ == dec_rep(n as nat),
    decreases n,
{
    if n < 10 {
        String::from_str(dec_digit_str(n))
    } else {
        let mut s = render_dec(n / 10);
        s.append(dec_digit_str(n % 10));
        s
    }
}

proof fn lemma_dec_value_step_up(s: Seq<char>, k: int)
    requires
        0 <= k < s.len(),
    ensures
        dec_value(s.subrange(0, k)) <= dec_value(s.subrange(0, k + 1)),
{
    let p = s.subrange(0, k + 1);
    assert(p.subrange(0, k) =~= s.subrange(0, k));
    assert(dec_value(p) == dec_value(s.subrange(0, k)) * 10 + dec_digit_val(p[k]));
}

proof fn lemma_dec_value_prefix_le(s: Seq<char>, k: int)
    requires
        0 <= k <= s.len(),
    ensures
        dec_value(s.subrange(0, k)) <= dec_value(s),
    decreases s.len() - k,
{
    if k == s.len() {
        assert(s.subrange(0, k) =~= s);
    } else {
        lemma_dec_value_step_up(s, k);
        lemma_dec_value_prefix_le(s, k + 1);
    }
}

/// Reads a token text as a non-negative decimal value; `None` when the text
/// is not a plain decimal numeral or its value does not fit in `usize`.
pub fn parse_dec(text: &String) -> (r: Option<usize>)
    ensures
        match r {
            Some(v) => is_dec_numeral(text@) && v as nat == dec_value(text@),
            None => !is_dec_numeral(text@) || dec_value(text@) > usize::MAX,
        },
{
    let n = text.as_str().unicode_len();
    if n == 0 {
        return None;
    }
    let mut i: usize = 0;
    let mut acc: usize = 0;
    while i < n
        invariant
            i <= n,
            n == text@.len(),
            forall|j: int| 0 <= j < i ==> is_dec_digit(#[trigger] text@[j]),
            acc as nat == dec_value(text@.subrange(0, i as int)),
        decreases n - i,
    {
        let c = text.as_str().get_char(i);
        let d: usize = match c {
            '0' => 0,
            '1' => 1,
            '2' => 2,
            '3' => 3,
            '4' => 4,
            '5' => 5,
            '6' => 6,
            '7' => 7,
            '8' => 8,
            '9' => 9,
            _ => {
                return None;
            },
        };
        let wide: u128 = acc as u128 * 10 + d as u128;
        if wide > usize::MAX as u128 {
            proof {
                assert(text@.subrange(0, i as int + 1).subrange(0, i as int) =~= text@.subrange(
                    0,
                    i as int,
                ));
                assert(dec_value(text@.subrange(0, i as int + 1)) == acc as nat * 10 + d as nat);
                lemma_dec_value_prefix_le(text@, i as int + 1);
            }
            return None;
        }
        proof {
            assert(text@.subrange(0, i as int + 1).subrange(0, i as int) =~= text@.subrange(
                0,
                i as int,
            ));
            assert(dec_value(text@.subrange(0, i as int + 1)) == acc as nat * 10 + d as nat);
        }
        acc = wide as usize;
        i = i + 1;
    }
    proof {
        assert(text@.subrange(0, n as int) =~= text@);
    }
    Some(acc)
}

} // verus!
