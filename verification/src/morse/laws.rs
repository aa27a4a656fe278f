//! Properties of the Morse codec as a whole: decoding undoes encoding, and a
//! bitstream is determined by its symbols.
use vstd::prelude::*;
use crate::morse::table::{
    find_char_from, is_keying, law_table_pattern_decodes, pattern_for_char, spec_table_char,
    table_pattern, MORSE_TABLE_LEN,
};
use crate::morse::{
    ascii_upper, decode_spec, encode_from, encode_spec, flush, lemma_slots_determine_byte, slot,
    slot_bits,
    token_text, tokens, MorseBitstream, MorseCharacter, MorseSymbol, BITSTREAM_CAPACITY,
};

verus! {

/// The text that encoding and then decoding `t` gives back, from a point
/// after which a character has (`word_started`) or has not been keyed: the
/// characters of the table in upper case, and the spaces that follow the
/// first of them; every other character is dropped.
pub open spec fn normalize_from(t: Seq<char>, word_started: bool) -> Seq<char>
    decreases t.len(),
{
    if t.len() == 0 {
        Seq::empty()
    } else {
        let c = t[0];
        let rest = t.drop_first();
        if c == ' ' {
            if word_started {
                seq![' '] + normalize_from(rest, true)
            } else {
                normalize_from(rest, false)
            }
        } else {
            match pattern_for_char(ascii_upper(c)) {
                Some(_) => seq![ascii_upper(c)] + normalize_from(rest, true),
                None => normalize_from(rest, word_started),
            }
        }
    }
}

/// The text that encoding and then decoding `t` gives back.
pub open spec fn normalize(t: Seq<char>) -> Seq<char> {
    normalize_from(t, false)
}

/// The decoder's tokens for the encoding of `t`, without the final `Stop`.
pub open spec fn normalized_tokens(t: Seq<char>, word_started: bool) -> Seq<MorseCharacter>
    decreases t.len(),
{
    if t.len() == 0 {
        Seq::empty()
    } else {
        let c = t[0];
        let rest = t.drop_first();
        if c == ' ' {
            if word_started {
                seq![MorseCharacter::IntraWord] + normalized_tokens(rest, true)
            } else {
                normalized_tokens(rest, false)
            }
        } else {
            match pattern_for_char(ascii_upper(c)) {
                Some(_) => seq![MorseCharacter::Character(ascii_upper(c))] + normalized_tokens(
                    rest,
                    true,
                ),
                None => normalized_tokens(rest, word_started),
            }
        }
    }
}

/// An entry found for a character holds that character.
proof fn lemma_find_char_sound(c: char, i: usize)
    ensures
        find_char_from(c, i) matches Some(k) ==> k < MORSE_TABLE_LEN && spec_table_char(k) == c,
    decreases MORSE_TABLE_LEN - i,
{
    if i < MORSE_TABLE_LEN {
        lemma_find_char_sound(c, (i + 1) as usize);
    }
}

/// Dits and dashes gather into the pending group, as long as it has room.
proof fn lemma_tokens_gather(a: Seq<MorseSymbol>, b: Seq<MorseSymbol>, p: Seq<MorseSymbol>)
    requires
        is_keying(a),
        p.len() + a.len() <= 8,
    ensures
        tokens(a + b, p) == tokens(b, p + a),
    decreases a.len(),
{
    if a.len() == 0 {
        assert(a + b =~= b);
        assert(p + a =~= p);
    } else {
        let s = a + b;
        assert(s[0] == a[0]);
        assert(s.drop_first() =~= a.drop_first() + b);
        assert(is_keying(a.drop_first()));
        assert(p.push(a[0]) + a.drop_first() =~= p + a);
        lemma_tokens_gather(a.drop_first(), b, p.push(a[0]));
    }
}

/// A gap symbol in front ends the pending group.
proof fn lemma_tokens_gap(g: MorseSymbol, b: Seq<MorseSymbol>, p: Seq<MorseSymbol>)
    requires
        g == MorseSymbol::IntraLetter || g == MorseSymbol::IntraWord,
    ensures
        g == MorseSymbol::IntraLetter ==> tokens(seq![g] + b, p) == flush(p) + tokens(
            b,
            Seq::empty(),
        ),
        g == MorseSymbol::IntraWord ==> tokens(seq![g] + b, p) == flush(p) + seq![
            MorseCharacter::IntraWord,
        ] + tokens(b, Seq::empty()),
{
    let s = seq![g] + b;
    assert(s[0] == g);
    assert(s.drop_first() =~= b);
}

/// The tokens of the encoding of `t`, where `need_space` says that the
/// pattern of table entry `prev` is pending.
proof fn lemma_tokens_of_encoding(
    t: Seq<char>,
    word_started: bool,
    need_space: bool,
    prev: usize,
    p: Seq<MorseSymbol>,
)
    requires
        need_space ==> word_started,
        need_space ==> prev < MORSE_TABLE_LEN && p == table_pattern(prev),
        !need_space ==> p == Seq::<MorseSymbol>::empty(),
    ensures
        tokens(encode_from(t, word_started, need_space), p) == (if need_space {
            seq![MorseCharacter::Character(spec_table_char(prev))]
        } else {
            Seq::empty()
        }) + normalized_tokens(t, word_started) + seq![MorseCharacter::Stop],
    decreases t.len(),
{
    let pend: Seq<MorseCharacter> = if need_space {
        seq![MorseCharacter::Character(spec_table_char(prev))]
    } else {
        Seq::empty()
    };
    if need_space {
        law_table_pattern_decodes(prev);
        assert(flush(p) == pend);
    } else {
        assert(flush(p) == pend);
    }
    if t.len() == 0 {
        assert(tokens(Seq::empty(), p) == flush(p).push(MorseCharacter::Stop));
        assert(pend + normalized_tokens(t, word_started) + seq![MorseCharacter::Stop]
            =~= flush(p).push(MorseCharacter::Stop));
    } else {
        let c = t[0];
        let rest = t.drop_first();
        if c == ' ' {
            if word_started {
                let e = encode_from(rest, true, false);
                lemma_tokens_gap(MorseSymbol::IntraWord, e, p);
                lemma_tokens_of_encoding(rest, true, false, prev, Seq::empty());
                assert(tokens(e, Seq::empty()) =~= Seq::<MorseCharacter>::empty()
                    + normalized_tokens(rest, true) + seq![MorseCharacter::Stop]);
                assert(flush(p) + seq![MorseCharacter::IntraWord] + tokens(e, Seq::empty())
                    =~= pend + normalized_tokens(t, word_started) + seq![MorseCharacter::Stop]);
            } else {
                lemma_tokens_of_encoding(rest, word_started, need_space, prev, p);
            }
        } else {
            let up = ascii_upper(c);
            match find_char_from(up, 0) {
                Some(k) => {
                    lemma_find_char_sound(up, 0);
                    law_table_pattern_decodes(k);
                    let pat = table_pattern(k);
                    let e = encode_from(rest, true, true);
                    lemma_tokens_of_encoding(rest, true, true, k, pat);
                    if need_space {
                        assert(encode_from(t, word_started, need_space) =~= seq![
                            MorseSymbol::IntraLetter,
                        ] + (pat + e));
                        lemma_tokens_gap(MorseSymbol::IntraLetter, pat + e, p);
                        lemma_tokens_gather(pat, e, Seq::empty());
                        assert(Seq::<MorseSymbol>::empty() + pat =~= pat);
                    } else {
                        assert(encode_from(t, word_started, need_space) =~= pat + e);
                        lemma_tokens_gather(pat, e, p);
                        assert(p + pat =~= pat);
                    }
                    assert(normalized_tokens(t, word_started) == seq![
                        MorseCharacter::Character(up),
                    ] + normalized_tokens(rest, true));
                    assert(pend + normalized_tokens(t, word_started) + seq![MorseCharacter::Stop]
                        =~= pend + (seq![MorseCharacter::Character(spec_table_char(k))]
                        + normalized_tokens(rest, true) + seq![MorseCharacter::Stop]));
                },
                None => {
                    lemma_tokens_of_encoding(rest, word_started, need_space, prev, p);
                },
            }
        }
    }
}

/// The text of the normalized tokens is the normalized text.
proof fn lemma_token_text_normalized(t: Seq<char>, word_started: bool)
    ensures
        token_text(normalized_tokens(t, word_started) + seq![MorseCharacter::Stop])
            == normalize_from(t, word_started),
    decreases t.len(),
{
    if t.len() == 0 {
        let ts = normalized_tokens(t, word_started) + seq![MorseCharacter::Stop];
        assert(ts[0] == MorseCharacter::Stop);
    } else {
        let c = t[0];
        let rest = t.drop_first();
        let tail = normalized_tokens(rest, true) + seq![MorseCharacter::Stop];
        if c == ' ' {
            if word_started {
                lemma_token_text_normalized(rest, true);
                let ts = seq![MorseCharacter::IntraWord] + tail;
                assert(normalized_tokens(t, word_started) + seq![MorseCharacter::Stop] =~= ts);
                assert(ts.drop_first() =~= tail);
            } else {
                lemma_token_text_normalized(rest, false);
            }
        } else {
            match pattern_for_char(ascii_upper(c)) {
                Some(_) => {
                    lemma_token_text_normalized(rest, true);
                    let ts = seq![MorseCharacter::Character(ascii_upper(c))] + tail;
                    assert(normalized_tokens(t, word_started) + seq![MorseCharacter::Stop] =~= ts);
                    assert(ts.drop_first() =~= tail);
                },
                None => {
                    lemma_token_text_normalized(rest, word_started);
                },
            }
        }
    }
}

/// Decoding the encoding of a text gives back the text in upper case, with
/// the characters that have no Morse code and the spaces in front of the
/// first keyed character left out.
pub proof fn law_decode_inverts_encode(t: Seq<char>)
    ensures
        decode_spec(encode_spec(t)) == normalize(t),
{
    lemma_tokens_of_encoding(t, false, false, 0, Seq::empty());
    assert(Seq::<MorseCharacter>::empty() + normalized_tokens(t, false) + seq![
        MorseCharacter::Stop,
    ] =~= normalized_tokens(t, false) + seq![MorseCharacter::Stop]);
    lemma_token_text_normalized(t, false);
}

/// A text made only of characters of the table, in upper case, and single
/// spaces between them comes back unchanged: `HELLO WORLD` decodes to itself.
pub proof fn law_normalize_keeps_upper_words(t: Seq<char>, word_started: bool)
    requires
        forall|i: int|
            0 <= i < t.len() ==> (t[i] == ' ' || (ascii_upper(t[i]) == t[i] && pattern_for_char(
                t[i],
            ) is Some)),
        t.len() > 0 && !word_started ==> t[0] != ' ',
        forall|i: int| 0 <= i < t.len() - 1 && #[trigger] t[i] == ' ' ==> t[i + 1] != ' ',
    ensures
        normalize_from(t, word_started) == t,
    decreases t.len(),
{
    if t.len() > 0 {
        let rest = t.drop_first();
        law_normalize_keeps_upper_words(rest, true);
        assert(seq![t[0]] + rest =~= t);
    }
}

/// Two well-formed bitstreams with the same symbols are equal, byte for byte.
pub proof fn law_bitstream_determined_by_symbols(a: MorseBitstream, b: MorseBitstream)
    requires
        a.wf(),
        b.wf(),
        a.symbols() == b.symbols(),
    ensures
        a.symbol_count == b.symbol_count,
        a.bytes@ == b.bytes@,
{
    assert(a.symbols().len() == a.symbol_count);
    assert(b.symbols().len() == b.symbol_count);
    assert(a.symbol_count == b.symbol_count);
    assert forall|i: int| 0 <= i < BITSTREAM_CAPACITY implies slot(a.bytes@, i) == slot(
        b.bytes@,
        i,
    ) by {
        lemma_slots_determine_byte(a.bytes@[i / 4], b.bytes@[i / 4]);
        if i < a.symbol_count {
            assert(a.symbols()[i] == b.symbols()[i]);
            assert(a.symbols()[i] == MorseSymbol::spec_from_bits(slot(a.bytes@, i)));
            assert(b.symbols()[i] == MorseSymbol::spec_from_bits(slot(b.bytes@, i)));
            lemma_slot_lt4(a.bytes@[i / 4], i % 4);
            lemma_slot_lt4(b.bytes@[i / 4], i % 4);
            let x = slot(a.bytes@, i);
            let y = slot(b.bytes@, i);
            assert(x < 4 && y < 4);
            assert(x % 4 == x && y % 4 == y);
        } else {
            assert(b.symbol_count == a.symbol_count);
        }
    }
    assert forall|j: int| 0 <= j < 256 implies a.bytes@[j] == b.bytes@[j] by {
        assert(slot(a.bytes@, 4 * j) == slot(b.bytes@, 4 * j));
        assert(slot(a.bytes@, 4 * j + 1) == slot(b.bytes@, 4 * j + 1));
        assert(slot(a.bytes@, 4 * j + 2) == slot(b.bytes@, 4 * j + 2));
        assert(slot(a.bytes@, 4 * j + 3) == slot(b.bytes@, 4 * j + 3));
        lemma_slots_determine_byte(a.bytes@[j], b.bytes@[j]);
    }
    assert(a.bytes@ =~= b.bytes@);
}

/// A slot holds a value below four.
proof fn lemma_slot_lt4(b: u8, k: int)
    requires
        0 <= k < 4,
    ensures
        slot_bits(b, k) < 4,
{
    lemma_slots_determine_byte(b, b);
    if k == 0 {
        assert(slot_bits(b, k) == slot_bits(b, 0));
    } else if k == 1 {
        assert(slot_bits(b, k) == slot_bits(b, 1));
    } else if k == 2 {
        assert(slot_bits(b, k) == slot_bits(b, 2));
    } else {
        assert(slot_bits(b, k) == slot_bits(b, 3));
    }
}

/// The space has no entry in the table.
proof fn lemma_space_not_in_table(i: usize)
    ensures
        find_char_from(' ', i) is None,
    decreases MORSE_TABLE_LEN - i,
{
    if i < MORSE_TABLE_LEN {
        lemma_space_not_in_table((i + 1) as usize);
    }
}

/// Encoding a single character of the table gives exactly its pattern.
pub proof fn law_single_character_encoding(c: char)
    requires
        pattern_for_char(ascii_upper(c)) is Some,
    ensures
        encode_spec(seq![c]) == pattern_for_char(ascii_upper(c)).unwrap(),
{
    let t = seq![c];
    lemma_space_not_in_table(0);
    assert(t.drop_first() =~= Seq::<char>::empty());
    assert(ascii_upper(' ') == ' ');
    assert(c != ' ');
    let p = pattern_for_char(ascii_upper(c)).unwrap();
    assert(encode_from(t.drop_first(), true, true) == Seq::<MorseSymbol>::empty());
    assert(encode_from(t, false, false) == Seq::<MorseSymbol>::empty() + p + encode_from(t.drop_first(), true, true));
    assert(encode_spec(t) =~= Seq::<MorseSymbol>::empty() + pattern_for_char(ascii_upper(c)).unwrap()
        + Seq::<MorseSymbol>::empty());
}

} // verus!
