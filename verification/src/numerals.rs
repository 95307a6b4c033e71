//! What roman numerals stand for.

use vstd::prelude::*;

use crate::heading_numbering::roman_of;

verus! {

/// The value of one letter of a roman numeral.
pub open spec fn letter_value(c: char) -> int {
    if c == 'M' {
        1000
    } else if c == 'D' {
        500
    } else if c == 'C' {
        100
    } else if c == 'L' {
        50
    } else if c == 'X' {
        10
    } else if c == 'V' {
        5
    } else if c == 'I' {
        1
    } else {
        0
    }
}

/// The value of a roman numeral: the sum of its letters, where a letter in front
/// of a larger one counts against it.
pub open spec fn roman_value(s: Seq<char>) -> int
    decreases s.len(),
{
    if s.len() == 0 {
        0
    } else if s.len() >= 2 && letter_value(s[0]) < letter_value(s[1]) {
        letter_value(s[1]) - letter_value(s[0]) + roman_value(s.skip(2))
    } else {
        letter_value(s[0]) + roman_value(s.skip(1))
    }
}

/// The first letter of the numeral of a positive value.
spec fn head(value: nat) -> char {
    if value >= 1000 {
        'M'
    } else if value >= 900 {
        'C'
    } else if value >= 500 {
        'D'
    } else if value >= 100 {
        'C'
    } else if value >= 90 {
        'X'
    } else if value >= 50 {
        'L'
    } else if value >= 10 {
        'X'
    } else if value >= 9 {
        'I'
    } else if value >= 5 {
        'V'
    } else {
        'I'
    }
}

/// The amount that the first symbol of a numeral stands for.
spec fn amount(value: nat) -> nat {
    if value >= 1000 {
        1000
    } else if value >= 900 {
        900
    } else if value >= 500 {
        500
    } else if value >= 400 {
        400
    } else if value >= 100 {
        100
    } else if value >= 90 {
        90
    } else if value >= 50 {
        50
    } else if value >= 40 {
        40
    } else if value >= 10 {
        10
    } else if value >= 9 {
        9
    } else if value >= 5 {
        5
    } else if value >= 4 {
        4
    } else {
        1
    }
}

/// The first symbol of the numeral of a positive value.
spec fn symbol(value: nat) -> Seq<char> {
    if 900 <= value < 1000 {
        seq!['C', 'M']
    } else if 400 <= value < 500 {
        seq!['C', 'D']
    } else if 90 <= value < 100 {
        seq!['X', 'C']
    } else if 40 <= value < 50 {
        seq!['X', 'L']
    } else if value == 9 {
        seq!['I', 'X']
    } else if value == 4 {
        seq!['I', 'V']
    } else {
        seq![head(value)]
    }
}

proof fn lemma_symbol(value: nat)
    requires
        value > 0,
    ensures
        amount(value) <= value,
        roman_of(value) == symbol(value) + roman_of((value - amount(value)) as nat),
        roman_of(value)[0] == head(value),
{
    reveal_strlit("M");
    reveal_strlit("CM");
    reveal_strlit("D");
    reveal_strlit("CD");
    reveal_strlit("C");
    reveal_strlit("XC");
    reveal_strlit("L");
    reveal_strlit("XL");
    reveal_strlit("X");
    reveal_strlit("IX");
    reveal_strlit("V");
    reveal_strlit("IV");
    reveal_strlit("I");
    assert("M"@ =~= seq!['M']);
    assert("CM"@ =~= seq!['C', 'M']);
    assert("D"@ =~= seq!['D']);
    assert("CD"@ =~= seq!['C', 'D']);
    assert("C"@ =~= seq!['C']);
    assert("XC"@ =~= seq!['X', 'C']);
    assert("L"@ =~= seq!['L']);
    assert("XL"@ =~= seq!['X', 'L']);
    assert("X"@ =~= seq!['X']);
    assert("IX"@ =~= seq!['I', 'X']);
    assert("V"@ =~= seq!['V']);
    assert("IV"@ =~= seq!['I', 'V']);
    assert("I"@ =~= seq!['I']);
}

/// Reading a roman numeral back gives the value that it was made from.
pub proof fn numerals_read_back(value: nat)
    ensures
        roman_value(roman_of(value)) == value,
    decreases value,
{
    if value > 0 {
        let rest = (value - amount(value)) as nat;
        let s = roman_of(value);
        lemma_symbol(value);
        numerals_read_back(rest);
        if symbol(value).len() == 2 {
            assert(s.skip(2) =~= roman_of(rest));
        } else {
            assert(s.skip(1) =~= roman_of(rest));
            if rest > 0 {
                lemma_symbol(rest);
                assert(s[1] == head(rest));
                assert(letter_value(head(rest)) <= letter_value(s[0]));
            }
        }
    }
}

/// Numerals are made of the seven letters.
pub proof fn numerals_use_seven_letters(value: nat)
    ensures
        forall|i: int|
            0 <= i < roman_of(value).len() ==> {
                let c = #[trigger] roman_of(value)[i];
                c == 'M' || c == 'D' || c == 'C' || c == 'L' || c == 'X' || c == 'V' || c == 'I'
            },
    decreases value,
{
    if value > 0 {
        let rest = (value - amount(value)) as nat;
        lemma_symbol(value);
        numerals_use_seven_letters(rest);
        assert forall|i: int| 0 <= i < roman_of(value).len() implies ({
            let c = #[trigger] roman_of(value)[i];
            c == 'M' || c == 'D' || c == 'C' || c == 'L' || c == 'X' || c == 'V' || c == 'I'
        }) by {
            if i >= symbol(value).len() {
                assert(roman_of(value)[i] == roman_of(rest)[i - symbol(value).len()]);
            }
        }
    }
}

/// Two values have different roman numerals.
pub proof fn numerals_differ(a: nat, b: nat)
    requires
        a != b,
    ensures
        roman_of(a) != roman_of(b),
{
    numerals_read_back(a);
    numerals_read_back(b);
}

/// The largest value of a letter in the numeral of a value.
spec fn largest(value: nat) -> int {
    if value >= 900 {
        1000
    } else if value >= 400 {
        500
    } else if value >= 90 {
        100
    } else if value >= 40 {
        50
    } else if value >= 9 {
        10
    } else if value >= 4 {
        5
    } else {
        1
    }
}

proof fn lemma_letters(value: nat, i: int)
    requires
        0 <= i < roman_of(value).len(),
    ensures
        0 < letter_value(roman_of(value)[i]) <= largest(value),
    decreases value,
{
    if value > 0 {
        let rest = (value - amount(value)) as nat;
        lemma_symbol(value);
        let n = symbol(value).len() as int;
        if i >= n {
            lemma_letters(rest, i - n);
        }
    }
}

/// Whether a letter may stand in a numeral only once.
pub open spec fn stands_once(c: char) -> bool {
    c == 'V' || c == 'L' || c == 'D'
}

proof fn lemma_once(value: nat, i: int, j: int)
    requires
        0 <= i < j < roman_of(value).len(),
        stands_once(roman_of(value)[i]),
    ensures
        roman_of(value)[i] != roman_of(value)[j],
    decreases value,
{
    if value > 0 {
        let rest = (value - amount(value)) as nat;
        lemma_symbol(value);
        let n = symbol(value).len() as int;
        if i >= n {
            lemma_once(rest, i - n, j - n);
        } else if j >= n {
            lemma_letters(rest, j - n);
        }
    }
}

proof fn lemma_no_four(value: nat, i: int)
    requires
        value <= 3999,
        0 <= i,
        i + 3 < roman_of(value).len(),
    ensures
        !(roman_of(value)[i] == roman_of(value)[i + 1] && roman_of(value)[i] == roman_of(
            value,
        )[i + 2] && roman_of(value)[i] == roman_of(value)[i + 3]),
    decreases value,
{
    let s = roman_of(value);
    if value > 0 {
        let rest = (value - amount(value)) as nat;
        lemma_symbol(value);
        let n = symbol(value).len() as int;
        if i >= n {
            lemma_no_four(rest, i - n);
        } else if n == 2 {
            if i == 1 {
                lemma_letters(rest, 0);
            }
        } else if s[0] == s[1] && s[1] == s[2] && s[2] == s[3] {
            lemma_symbol(rest);
            let second = (rest - amount(rest)) as nat;
            assert(s[1] == head(rest));
            assert(symbol(rest).len() == 1);
            assert(s[2] == roman_of(rest)[1]);
            assert(roman_of(rest)[1] == roman_of(second)[0]);
            lemma_symbol(second);
            let third = (second - amount(second)) as nat;
            assert(s[3] == roman_of(rest)[2]);
            assert(roman_of(rest)[2] == roman_of(second)[1]);
            assert(symbol(second).len() == 1);
            assert(roman_of(second)[1] == roman_of(third)[0]);
            lemma_symbol(third);
        }
    }
}

/// The numerals up to 3999 are well formed: no letter stands four times in a row,
/// and the letters for five, fifty and five hundred stand at most once.
pub proof fn numerals_are_well_formed(value: nat)
    requires
        value <= 3999,
    ensures
        forall|i: int|
            0 <= i && i + 3 < roman_of(value).len() ==> !((#[trigger] roman_of(value)[i])
                == roman_of(value)[i + 1] && roman_of(value)[i] == roman_of(value)[i + 2]
                && roman_of(value)[i] == roman_of(value)[i + 3]),
        forall|i: int, j: int|
            0 <= i < j < roman_of(value).len() && stands_once(#[trigger] roman_of(value)[i])
                ==> roman_of(value)[i] != #[trigger] roman_of(value)[j],
{
    assert forall|i: int| 0 <= i && i + 3 < roman_of(value).len() implies !((
    #[trigger] roman_of(value)[i]) == roman_of(value)[i + 1] && roman_of(value)[i] == roman_of(
        value,
    )[i + 2] && roman_of(value)[i] == roman_of(value)[i + 3]) by {
        lemma_no_four(value, i);
    }
    assert forall|i: int, j: int|
        0 <= i < j < roman_of(value).len() && stands_once(
            #[trigger] roman_of(value)[i],
        ) implies roman_of(value)[i] != #[trigger] roman_of(value)[j] by {
        lemma_once(value, i, j);
    }
}

} // verus!
