use makerpnp::morse::table::{find_char, morse_table_char, morse_table_code, pattern_from_code, MORSE_TABLE_LEN};
use makerpnp::morse::{decode_text, encode_text, MorseBitstream, MorseCharacter, MorseSymbol};

const TEST_MAP: &[(char, &str)] = &[
    // --- Alphanumeric ---
    ('A', ".-"),    ('B', "-..."),  ('C', "-.-."),  ('D', "-.."),
    ('E', "."),     ('F', "..-."),  ('G', "--."),   ('H', "...."),
    ('I', ".."),    ('J', ".---"),  ('K', "-.-"),   ('L', ".-.."),
    ('M', "--"),    ('N', "-."),    ('O', "---"),   ('P', ".--."),
    ('Q', "--.-"),  ('R', ".-."),   ('S', "..."),   ('T', "-"),
    ('U', "..-"),   ('V', "...-"),  ('W', ".--"),   ('X', "-..-"),
    ('Y', "-.--"),  ('Z', "--.."),
    ('1', ".----"), ('2', "..---"), ('3', "...--"), ('4', "....-"),
    ('5', "....."), ('6', "-...."), ('7', "--..."), ('8', "---.."),
    ('9', "----."), ('0', "-----"),

    // --- Punctuation & Symbols Set ---
    ('.', ".-.-.-"),
    (',', "--..--"),
    ('?', "..--.."),
    ('\'', ".----."),
    ('!', "-.-.--"),
    ('/', "-..-."),
    ('(', "-.--."),
    (')', "-.--.-"),
    ('&', ".-..."),
    (':', "---..."),
    (';', "-.-.-."),
    ('=', "-...-"),
    ('+', ".-.-."),
    ('-', "-....-"),
    ('_', "..--.-"),
    ('"', ".-..-."),
    ('$', "...-..-"),
    ('@', ".--.-."),
];

fn encode_to_bytes(text: &str) -> (Vec<u8>, usize) {
    let mut raw_symbols = Vec::new();
    let mut word_started = false;
    let mut need_space = false;

    for c in text.chars() {
        if c == ' ' {
            if word_started {
                raw_symbols.push(0b11u8); // Intra-word
                need_space = false;
            }
            continue;
        }
        let upper = c.to_ascii_uppercase();
        if let Some((_, pattern)) = TEST_MAP.iter().find(|(ch, _)| *ch == upper) {
            if need_space {
                raw_symbols.push(0b00u8); // Space
            }
            for sym_char in pattern.chars() {
                match sym_char {
                    '.' => raw_symbols.push(0b01u8), // Dit
                    '-' => raw_symbols.push(0b10u8), // Dash
                    _ => {}
                }
            }
            word_started = true;
            need_space = true;
        }
    }

    let mut packed_bytes = Vec::new();
    for chunk in raw_symbols.chunks(4) {
        let mut byte = 0u8;
        for (i, &val) in chunk.iter().enumerate() {
            byte |= val << (i * 2);
        }
        packed_bytes.push(byte);
    }

    (packed_bytes, raw_symbols.len())
}

fn symbols_of(stream: &MorseBitstream) -> Vec<MorseSymbol> {
    let mut out = Vec::new();
    let mut it = stream.iter();
    while let Some(s) = it.next() {
        out.push(s);
    }
    out
}

fn characters_of(stream: &MorseBitstream) -> Vec<MorseCharacter> {
    let mut out = Vec::new();
    let mut it = stream.iter_characters();
    while let Some(c) = it.next() {
        out.push(c);
    }
    out
}

/// Encode and verify bitstream using the independent packing algorithm
#[test]
fn test_encode() {
    let input = "Hello world";
    let runtime_stream = encode_text(input);
    let (expected_bytes, expected_count) = encode_to_bytes(input);

    assert_eq!(runtime_stream.symbol_count, expected_count);

    for (i, &expected_byte) in expected_bytes.iter().enumerate() {
        assert_eq!(runtime_stream.bytes[i], expected_byte, "Byte mismatch at index {}", i);
    }
}

/// Encode and decode
#[test]
fn test_decode_hello_world() {
    let text = "HELLO WORLD";
    let encoded = encode_text(text);
    let decoded = decode_text(&encoded);

    assert_eq!(text, decoded);
}

/// Round trip every possible ASCII character without touching production tables
#[test]
fn test_round_trip() {
    for &(ch, expected_pattern) in TEST_MAP {
        let mut text_str = String::new();
        text_str.push(ch);

        // Encode using production runtime
        let encoded = encode_text(&text_str);

        // Reconstruct the character purely using our independent iterator interpreter
        let mut manual_pattern = String::new();
        let mut symbols = encoded.iter();
        while let Some(symbol) = symbols.next() {
            match symbol {
                MorseSymbol::Dit => manual_pattern.push('.'),
                MorseSymbol::Dash => manual_pattern.push('-'),
                MorseSymbol::IntraLetter | MorseSymbol::IntraWord => {}
            }
        }

        assert_eq!(expected_pattern, manual_pattern, "Failed on character: {}", ch);
    }
}

#[test]
fn test_macro_compile_time_generation() {
    let macro_stream: MorseBitstream = encode_text("Hello world");
    let (expected_bytes, expected_count) = encode_to_bytes("Hello world");

    assert_eq!(macro_stream.symbol_count, expected_count);
    for (i, &expected_byte) in expected_bytes.iter().enumerate() {
        assert_eq!(macro_stream.bytes[i], expected_byte);
    }
}

#[test]
fn test_macro_fold_to_exclamation_string() {
    // 1. Generate the bitstream
    let macro_stream: MorseBitstream = encode_text("FOLD-ME");

    // 2. Fold over semantic characters instead of raw bits
    let result = macro_stream.fold_characters(String::from("!"), |mut acc, morse_char| {
        match morse_char {
            MorseCharacter::Character(c) => acc.push(c.to_ascii_lowercase()),
            MorseCharacter::IntraWord => acc.push(' '),
            MorseCharacter::Stop => acc.push('!'), // End of stream wrapping
        }
        acc
    });

    // 3. Verify the result
    assert_eq!(result, "!fold-me!");
}

#[test]
fn decode_inverts_encode_normalizes_text() {
    // leading spaces dropped, case raised, unknown characters dropped, other spaces kept
    let encoded = encode_text("  hello   wor#ld ");
    assert_eq!(decode_text(&encoded), "HELLO   WORLD ");
}

#[test]
fn decode_inverts_encode_for_every_table_character() {
    for &(ch, _) in TEST_MAP {
        let text: String = [ch, 'x', ch].iter().collect();
        let expected: String = [ch, 'X', ch].iter().collect();
        assert_eq!(decode_text(&encode_text(&text)), expected);
    }
}

#[test]
fn encode_empty_and_unknown_text() {
    let empty = encode_text("");
    assert_eq!(empty.symbol_count, 0);
    assert!(empty.bytes.iter().all(|&b| b == 0));
    let unknown = encode_text("# % ~");
    assert_eq!(unknown.symbol_count, 0);
    assert_eq!(decode_text(&unknown), "");
    assert_eq!(characters_of(&unknown), vec![MorseCharacter::Stop]);
}

#[test]
fn character_tokens_of_two_words() {
    let stream = encode_text("SOS E");
    assert_eq!(
        characters_of(&stream),
        vec![
            MorseCharacter::Character('S'),
            MorseCharacter::Character('O'),
            MorseCharacter::Character('S'),
            MorseCharacter::IntraWord,
            MorseCharacter::Character('E'),
            MorseCharacter::Stop,
        ]
    );
}

#[test]
fn unknown_pattern_yields_no_character_and_long_groups_are_cut() {
    let mut stream = MorseBitstream::new();
    // eight dits: no such pattern; a ninth is dropped from the group
    for _ in 0..9 {
        stream.push(MorseSymbol::Dit);
    }
    stream.push(MorseSymbol::IntraLetter);
    stream.push(MorseSymbol::Dit);
    assert_eq!(characters_of(&stream), vec![MorseCharacter::Character('E'), MorseCharacter::Stop]);
    assert_eq!(decode_text(&stream), "E");
}

#[test]
fn push_packs_two_bits_per_symbol_lowest_first() {
    let mut stream = MorseBitstream::new();
    stream.push(MorseSymbol::Dit);
    stream.push(MorseSymbol::Dash);
    stream.push(MorseSymbol::IntraWord);
    stream.push(MorseSymbol::IntraLetter);
    stream.push(MorseSymbol::Dash);
    assert_eq!(stream.symbol_count, 5);
    assert_eq!(stream.bytes[0], 0b00_11_10_01);
    assert_eq!(stream.bytes[1], 0b10);
    assert_eq!(
        symbols_of(&stream),
        vec![MorseSymbol::Dit, MorseSymbol::Dash, MorseSymbol::IntraWord, MorseSymbol::IntraLetter, MorseSymbol::Dash]
    );
}

#[test]
fn push_overwrites_a_dirty_slot() {
    let mut stream = MorseBitstream { bytes: [0xff; 256], symbol_count: 0 };
    stream.push(MorseSymbol::Dit);
    assert_eq!(stream.bytes[0], 0b11_11_11_01);
}

#[test]
fn from_bits_uses_the_low_two_bits() {
    assert_eq!(MorseSymbol::from_bits(0), MorseSymbol::IntraLetter);
    assert_eq!(MorseSymbol::from_bits(1), MorseSymbol::Dit);
    assert_eq!(MorseSymbol::from_bits(2), MorseSymbol::Dash);
    assert_eq!(MorseSymbol::from_bits(3), MorseSymbol::IntraWord);
    assert_eq!(MorseSymbol::from_bits(0b1111_1110), MorseSymbol::Dash);
    assert_eq!(MorseSymbol::Dash.bits(), 2);
}

#[test]
fn fold_counts_symbols() {
    let stream = encode_text("ET");
    let dits = stream.fold(0u32, |acc, s| if s == MorseSymbol::Dit { acc + 1 } else { acc });
    let all = stream.fold(0u32, |acc, _| acc + 1);
    assert_eq!(dits, 1);
    assert_eq!(all, 3);
}

#[test]
fn full_bitstream_of_1023_symbols() {
    let text: String = std::iter::repeat('E').take(512).collect();
    let stream = encode_text(&text);
    assert_eq!(stream.symbol_count, 1023);
    assert_eq!(decode_text(&stream), text);
}

#[test]
fn table_lookups() {
    assert_eq!(MORSE_TABLE_LEN, 54);
    assert_eq!(find_char('A'), Some(0));
    assert_eq!(find_char('@'), Some(53));
    assert_eq!(find_char('a'), None);
    assert_eq!(morse_table_char(36), '.');
    assert_eq!(pattern_from_code(morse_table_code(0)), vec![MorseSymbol::Dit, MorseSymbol::Dash]);
    assert_eq!(
        pattern_from_code(morse_table_code(52)),
        vec![
            MorseSymbol::Dit,
            MorseSymbol::Dit,
            MorseSymbol::Dit,
            MorseSymbol::Dash,
            MorseSymbol::Dit,
            MorseSymbol::Dit,
            MorseSymbol::Dash
        ]
    );
}

#[test]
fn same_symbols_same_bytes() {
    let a = encode_text("hello");
    let b = encode_text("H E L L O".replace(' ', "").as_str());
    assert_eq!(a, b);
}
