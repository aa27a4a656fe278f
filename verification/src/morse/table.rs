//! The Morse code table: the characters that can be keyed and their
//! patterns of dits and dashes.
//!
//! A pattern is stored as a number: the pattern is read as base-3 digits
//! (dit = 1, dash = 2) behind a leading 1, so every pattern has exactly one
//! number and the empty pattern is 1.
use vstd::prelude::*;
use crate::morse::MorseSymbol;

verus! {

/// Number of entries in the table.
pub const MORSE_TABLE_LEN: usize = 54;

/// `3` to the power `n`.
pub open spec fn pow3(n: nat) -> nat
    decreases n,
{
    if n == 0 {
        1
    } else {
        3 * pow3((n - 1) as nat)
    }
}

/// The digit that a keying symbol contributes to a pattern number.
pub open spec fn symbol_digit(s: MorseSymbol) -> nat {
    match s {
        MorseSymbol::Dit => 1,
        MorseSymbol::Dash => 2,
        _ => 0,
    }
}

/// The keying symbol of a digit.
pub open spec fn digit_symbol(d: nat) -> MorseSymbol {
    if d == 1 {
        MorseSymbol::Dit
    } else if d == 2 {
        MorseSymbol::Dash
    } else {
        MorseSymbol::IntraLetter
    }
}

/// A pattern holds only dits and dashes.
pub open spec fn is_keying(p: Seq<MorseSymbol>) -> bool {
    forall|i: int| 0 <= i < p.len() ==> (p[i] == MorseSymbol::Dit || p[i] == MorseSymbol::Dash)
}

/// The number of a pattern.
pub open spec fn code_of(p: Seq<MorseSymbol>) -> nat
    decreases p.len(),
{
    if p.len() == 0 {
        1
    } else {
        code_of(p.drop_last()) * 3 + symbol_digit(p.last())
    }
}

/// The pattern of a number.
pub open spec fn pattern_of(code: nat) -> Seq<MorseSymbol>
    decreases code,
{
    if code <= 1 {
        Seq::empty()
    } else {
        pattern_of(code / 3).push(digit_symbol(code % 3))
    }
}

/// The number is the number of some pattern of dits and dashes.
pub open spec fn is_pattern_code(code: nat) -> bool
    decreases code,
{
    if code <= 1 {
        code == 1
    } else {
        code % 3 != 0 && is_pattern_code(code / 3)
    }
}

/// The character of table entry `i`.
pub open spec fn spec_table_char(i: usize) -> char {
    match i {
        0 => 'A',
        1 => 'B',
        2 => 'C',
        3 => 'D',
        4 => 'E',
        5 => 'F',
        6 => 'G',
        7 => 'H',
        8 => 'I',
        9 => 'J',
        10 => 'K',
        11 => 'L',
        12 => 'M',
        13 => 'N',
        14 => 'O',
        15 => 'P',
        16 => 'Q',
        17 => 'R',
        18 => 'S',
        19 => 'T',
        20 => 'U',
        21 => 'V',
        22 => 'W',
        23 => 'X',
        24 => 'Y',
        25 => 'Z',
        26 => '1',
        27 => '2',
        28 => '3',
        29 => '4',
        30 => '5',
        31 => '6',
        32 => '7',
        33 => '8',
        34 => '9',
        35 => '0',
        36 => '.',
        37 => ',',
        38 => '?',
        39 => '\'',
        40 => '!',
        41 => '/',
        42 => '(',
        43 => ')',
        44 => '&',
        45 => ':',
        46 => ';',
        47 => '=',
        48 => '+',
        49 => '-',
        50 => '_',
        51 => '"',
        52 => '$',
        53 => '@',
        _ => ' ',
    }
}

/// The pattern number of table entry `i`.
pub open spec fn spec_table_code(i: usize) -> nat {
    match i {
        0 => 14,  // .-
        1 => 148,  // -...
        2 => 151,  // -.-.
        3 => 49,  // -..
        4 => 4,  // .
        5 => 124,  // ..-.
        6 => 52,  // --.
        7 => 121,  // ....
        8 => 13,  // ..
        9 => 134,  // .---
        10 => 50,  // -.-
        11 => 130,  // .-..
        12 => 17,  // --
        13 => 16,  // -.
        14 => 53,  // ---
        15 => 133,  // .--.
        16 => 158,  // --.-
        17 => 43,  // .-.
        18 => 40,  // ...
        19 => 5,  // -
        20 => 41,  // ..-
        21 => 122,  // ...-
        22 => 44,  // .--
        23 => 149,  // -..-
        24 => 152,  // -.--
        25 => 157,  // --..
        26 => 404,  // .----
        27 => 377,  // ..---
        28 => 368,  // ...--
        29 => 365,  // ....-
        30 => 364,  // .....
        31 => 445,  // -....
        32 => 472,  // --...
        33 => 481,  // ---..
        34 => 484,  // ----.
        35 => 485,  // -----
        36 => 1184,  // .-.-.-
        37 => 1421,  // --..--
        38 => 1129,  // ..--..
        39 => 1213,  // .----.
        40 => 1367,  // -.-.--
        41 => 448,  // -..-.
        42 => 457,  // -.--.
        43 => 1373,  // -.--.-
        44 => 391,  // .-...
        45 => 1444,  // ---...
        46 => 1366,  // -.-.-.
        47 => 446,  // -...-
        48 => 394,  // .-.-.
        49 => 1337,  // -....-
        50 => 1130,  // ..--.-
        51 => 1177,  // .-..-.
        52 => 3308,  // ...-..-
        53 => 1204,  // .--.-.
        _ => 1,
    }
}

/// The table entry whose pattern number is `code`, if there is one.
pub open spec fn table_index_of_code(code: nat) -> Option<usize> {
    if code == 14 {
        Some(0)
    } else if code == 148 {
        Some(1)
    } else if code == 151 {
        Some(2)
    } else if code == 49 {
        Some(3)
    } else if code == 4 {
        Some(4)
    } else if code == 124 {
        Some(5)
    } else if code == 52 {
        Some(6)
    } else if code == 121 {
        Some(7)
    } else if code == 13 {
        Some(8)
    } else if code == 134 {
        Some(9)
    } else if code == 50 {
        Some(10)
    } else if code == 130 {
        Some(11)
    } else if code == 17 {
        Some(12)
    } else if code == 16 {
        Some(13)
    } else if code == 53 {
        Some(14)
    } else if code == 133 {
        Some(15)
    } else if code == 158 {
        Some(16)
    } else if code == 43 {
        Some(17)
    } else if code == 40 {
        Some(18)
    } else if code == 5 {
        Some(19)
    } else if code == 41 {
        Some(20)
    } else if code == 122 {
        Some(21)
    } else if code == 44 {
        Some(22)
    } else if code == 149 {
        Some(23)
    } else if code == 152 {
        Some(24)
    } else if code == 157 {
        Some(25)
    } else if code == 404 {
        Some(26)
    } else if code == 377 {
        Some(27)
    } else if code == 368 {
        Some(28)
    } else if code == 365 {
        Some(29)
    } else if code == 364 {
        Some(30)
    } else if code == 445 {
        Some(31)
    } else if code == 472 {
        Some(32)
    } else if code == 481 {
        Some(33)
    } else if code == 484 {
        Some(34)
    } else if code == 485 {
        Some(35)
    } else if code == 1184 {
        Some(36)
    } else if code == 1421 {
        Some(37)
    } else if code == 1129 {
        Some(38)
    } else if code == 1213 {
        Some(39)
    } else if code == 1367 {
        Some(40)
    } else if code == 448 {
        Some(41)
    } else if code == 457 {
        Some(42)
    } else if code == 1373 {
        Some(43)
    } else if code == 391 {
        Some(44)
    } else if code == 1444 {
        Some(45)
    } else if code == 1366 {
        Some(46)
    } else if code == 446 {
        Some(47)
    } else if code == 394 {
        Some(48)
    } else if code == 1337 {
        Some(49)
    } else if code == 1130 {
        Some(50)
    } else if code == 1177 {
        Some(51)
    } else if code == 3308 {
        Some(52)
    } else if code == 1204 {
        Some(53)
    } else {
        None
    }
}

/// The pattern of table entry `i`.
pub open spec fn table_pattern(i: usize) -> Seq<MorseSymbol> {
    pattern_of(spec_table_code(i))
}

/// The first entry at or after `i` whose character is `c`.
pub open spec fn find_char_from(c: char, i: usize) -> Option<usize>
    decreases MORSE_TABLE_LEN - i,
{
    if i >= MORSE_TABLE_LEN {
        None
    } else if spec_table_char(i) == c {
        Some(i)
    } else {
        find_char_from(c, (i + 1) as usize)
    }
}

/// The first entry at or after `i` whose pattern is `p`.
pub open spec fn find_pattern_from(p: Seq<MorseSymbol>, i: usize) -> Option<usize>
    decreases MORSE_TABLE_LEN - i,
{
    if i >= MORSE_TABLE_LEN {
        None
    } else if table_pattern(i) == p {
        Some(i)
    } else {
        find_pattern_from(p, (i + 1) as usize)
    }
}

/// The first entry at or after `i` whose pattern number is `code`.
pub open spec fn find_code_from(code: nat, i: usize) -> Option<usize>
    decreases MORSE_TABLE_LEN - i,
{
    if i >= MORSE_TABLE_LEN {
        None
    } else if spec_table_code(i) == code {
        Some(i)
    } else {
        find_code_from(code, (i + 1) as usize)
    }
}

/// The pattern keyed for character `c`, if the table knows it.
pub open spec fn pattern_for_char(c: char) -> Option<Seq<MorseSymbol>> {
    match find_char_from(c, 0) {
        Some(i) => Some(table_pattern(i)),
        None => None,
    }
}

/// The character that pattern `p` stands for, if the table knows it.
pub open spec fn char_for_pattern(p: Seq<MorseSymbol>) -> Option<char> {
    match find_pattern_from(p, 0) {
        Some(i) => Some(spec_table_char(i)),
        None => None,
    }
}

/// The character of table entry `i`.
pub fn morse_table_char(i: usize) -> (c: char)
    requires
        i < MORSE_TABLE_LEN,
    ensures
        c == spec_table_char(i),
{
    match i {
        0 => 'A',
        1 => 'B',
        2 => 'C',
        3 => 'D',
        4 => 'E',
        5 => 'F',
        6 => 'G',
        7 => 'H',
        8 => 'I',
        9 => 'J',
        10 => 'K',
        11 => 'L',
        12 => 'M',
        13 => 'N',
        14 => 'O',
        15 => 'P',
        16 => 'Q',
        17 => 'R',
        18 => 'S',
        19 => 'T',
        20 => 'U',
        21 => 'V',
        22 => 'W',
        23 => 'X',
        24 => 'Y',
        25 => 'Z',
        26 => '1',
        27 => '2',
        28 => '3',
        29 => '4',
        30 => '5',
        31 => '6',
        32 => '7',
        33 => '8',
        34 => '9',
        35 => '0',
        36 => '.',
        37 => ',',
        38 => '?',
        39 => '\'',
        40 => '!',
        41 => '/',
        42 => '(',
        43 => ')',
        44 => '&',
        45 => ':',
        46 => ';',
        47 => '=',
        48 => '+',
        49 => '-',
        50 => '_',
        51 => '"',
        52 => '$',
        53 => '@',
        _ => ' ',
    }
}

/// The pattern number of table entry `i`.
pub fn morse_table_code(i: usize) -> (code: u32)
    requires
        i < MORSE_TABLE_LEN,
    ensures
        code == spec_table_code(i),
{
    match i {
        0 => 14,
        1 => 148,
        2 => 151,
        3 => 49,
        4 => 4,
        5 => 124,
        6 => 52,
        7 => 121,
        8 => 13,
        9 => 134,
        10 => 50,
        11 => 130,
        12 => 17,
        13 => 16,
        14 => 53,
        15 => 133,
        16 => 158,
        17 => 43,
        18 => 40,
        19 => 5,
        20 => 41,
        21 => 122,
        22 => 44,
        23 => 149,
        24 => 152,
        25 => 157,
        26 => 404,
        27 => 377,
        28 => 368,
        29 => 365,
        30 => 364,
        31 => 445,
        32 => 472,
        33 => 481,
        34 => 484,
        35 => 485,
        36 => 1184,
        37 => 1421,
        38 => 1129,
        39 => 1213,
        40 => 1367,
        41 => 448,
        42 => 457,
        43 => 1373,
        44 => 391,
        45 => 1444,
        46 => 1366,
        47 => 446,
        48 => 394,
        49 => 1337,
        50 => 1130,
        51 => 1177,
        52 => 3308,
        53 => 1204,
        _ => 1,
    }
}
/// A pattern number determines its pattern, which holds only dits and dashes.
pub proof fn lemma_pattern_of_code(code: nat)
    requires
        is_pattern_code(code),
    ensures
        code_of(pattern_of(code)) == code,
        is_keying(pattern_of(code)),
    decreases code,
{
    if code > 1 {
        lemma_pattern_of_code(code / 3);
        let p = pattern_of(code);
        assert(p.drop_last() =~= pattern_of(code / 3));
        assert(p.last() == digit_symbol(code % 3));
        assert(code == (code / 3) * 3 + code % 3);
    }
}

/// A pattern of dits and dashes has a number, from which it is recovered.
pub proof fn lemma_code_of_pattern(p: Seq<MorseSymbol>)
    requires
        is_keying(p),
    ensures
        pattern_of(code_of(p)) == p,
        is_pattern_code(code_of(p)),
        code_of(p) >= 1,
        code_of(p) < pow3((p.len() + 1) as nat),
    decreases p.len(),
{
    reveal_with_fuel(pow3, 2);
    if p.len() > 0 {
        let q = p.drop_last();
        assert(is_keying(q));
        lemma_code_of_pattern(q);
        let d = symbol_digit(p.last());
        assert(d == 1 || d == 2);
        let c = code_of(p);
        assert(c == code_of(q) * 3 + d);
        assert(c / 3 == code_of(q) && c % 3 == d) by (nonlinear_arith)
            requires
                c == code_of(q) * 3 + d,
                1 <= d <= 2,
        ;
        assert(digit_symbol(d) == p.last());
        assert(q.push(p.last()) =~= p);
        assert(pow3((p.len() + 1) as nat) == 3 * pow3(p.len() as nat));
        assert(pow3((q.len() + 1) as nat) == pow3(p.len() as nat));
    }
}

/// A pattern number below `3^(n+1)` has at most `n` symbols.
pub proof fn lemma_pattern_len(code: nat, n: nat)
    requires
        is_pattern_code(code),
        code < pow3(n + 1),
    ensures
        pattern_of(code).len() <= n,
        code > 1 ==> pattern_of(code).len() >= 1,
    decreases code,
{
    reveal_with_fuel(pow3, 2);
    if code > 1 {
        assert(is_pattern_code(code / 3));
        assert(code / 3 >= 1);
        assert(n >= 1) by {
            if n == 0 {
                assert(pow3(1) == 3);
            }
        }
        assert(pow3(n + 1) == 3 * pow3(n));
        assert(code / 3 < pow3(n));
        lemma_pattern_len(code / 3, (n - 1) as nat);
    }
}

/// Facts about every entry of the table.
pub proof fn lemma_table_entries()
    ensures
        forall|i: usize|
            i < MORSE_TABLE_LEN ==> {
                &&& is_pattern_code(#[trigger] spec_table_code(i))
                &&& spec_table_code(i) > 1
                &&& spec_table_code(i) < 6561
                &&& table_index_of_code(spec_table_code(i)) == Some(i)
            },
        forall|code: nat|
            #[trigger] table_index_of_code(code) matches Some(k) ==> k < MORSE_TABLE_LEN
                && spec_table_code(k) == code,
{
    reveal_with_fuel(is_pattern_code, 9);
}

/// Where the first entry with a given pattern number lies.
pub proof fn lemma_find_code(code: nat, i: usize)
    requires
        i <= MORSE_TABLE_LEN,
    ensures
        find_code_from(code, i) == match table_index_of_code(code) {
            Some(k) => if k >= i {
                Some(k)
            } else {
                None
            },
            None => None,
        },
    decreases MORSE_TABLE_LEN - i,
{
    lemma_table_entries();
    if i < MORSE_TABLE_LEN {
        lemma_find_code(code, (i + 1) as usize);
    }
}

/// For a pattern of dits and dashes, looking up the pattern and looking up its
/// number find the same entry.
pub proof fn lemma_find_pattern(p: Seq<MorseSymbol>, i: usize)
    requires
        is_keying(p),
        i <= MORSE_TABLE_LEN,
    ensures
        find_pattern_from(p, i) == find_code_from(code_of(p), i),
    decreases MORSE_TABLE_LEN - i,
{
    if i < MORSE_TABLE_LEN {
        lemma_table_entries();
        lemma_pattern_of_code(spec_table_code(i));
        lemma_code_of_pattern(p);
        lemma_find_pattern(p, (i + 1) as usize);
    }
}

/// No two entries of the table share a pattern.
pub proof fn law_table_patterns_distinct(i: usize, j: usize)
    requires
        i < MORSE_TABLE_LEN,
        j < MORSE_TABLE_LEN,
        i != j,
    ensures
        table_pattern(i) != table_pattern(j),
{
    lemma_table_entries();
    lemma_pattern_of_code(spec_table_code(i));
    lemma_pattern_of_code(spec_table_code(j));
}

/// Every pattern of the table has one to seven dits and dashes and decodes to
/// the character of its entry.
pub proof fn law_table_pattern_decodes(k: usize)
    requires
        k < MORSE_TABLE_LEN,
    ensures
        is_keying(table_pattern(k)),
        1 <= table_pattern(k).len() <= 7,
        char_for_pattern(table_pattern(k)) == Some(spec_table_char(k)),
{
    lemma_table_entries();
    let c = spec_table_code(k);
    lemma_pattern_of_code(c);
    reveal_with_fuel(pow3, 9);
    lemma_pattern_len(c, 7);
    lemma_find_pattern(table_pattern(k), 0);
    lemma_find_code(c, 0);
}

/// The pattern of a pattern number of the table.
pub fn pattern_from_code(code: u32) -> (p: Vec<MorseSymbol>)
    requires
        is_pattern_code(code as nat),
    ensures
        p@ == pattern_of(code as nat),
    decreases code,
{
    if code <= 1 {
        Vec::new()
    } else {
        let mut p = pattern_from_code(code / 3);
        let d = code % 3;
        let s = if d == 1 {
            MorseSymbol::Dit
        } else if d == 2 {
            MorseSymbol::Dash
        } else {
            MorseSymbol::IntraLetter
        };
        p.push(s);
        p
    }
}

/// The first table entry whose character is `c`.
pub fn find_char(c: char) -> (r: Option<usize>)
    ensures
        r == find_char_from(c, 0),
        r matches Some(k) ==> k < MORSE_TABLE_LEN,
{
    let mut i: usize = 0;
    while i < MORSE_TABLE_LEN
        invariant
            i <= MORSE_TABLE_LEN,
            find_char_from(c, 0) == find_char_from(c, i),
        decreases MORSE_TABLE_LEN - i,
    {
        if morse_table_char(i) == c {
            return Some(i);
        }
        i = i + 1;
    }
    None
}

/// The first table entry whose pattern number is `code`.
pub fn find_code(code: u32) -> (r: Option<usize>)
    ensures
        r == find_code_from(code as nat, 0),
        r matches Some(k) ==> k < MORSE_TABLE_LEN,
{
    let mut i: usize = 0;
    while i < MORSE_TABLE_LEN
        invariant
            i <= MORSE_TABLE_LEN,
            find_code_from(code as nat, 0) == find_code_from(code as nat, i),
        decreases MORSE_TABLE_LEN - i,
    {
        if morse_table_code(i) == code {
            return Some(i);
        }
        i = i + 1;
    }
    None
}

} // verus!
