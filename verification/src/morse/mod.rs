//! Morse code: symbols packed two bits each into a fixed bitstream, an
//! encoder from text, and decoders back to symbols and characters.
use vstd::prelude::*;
use crate::text::push_char;
use crate::morse::table::{
    char_for_pattern, code_of, find_char, find_char_from, find_code, find_code_from,
    find_pattern_from, is_keying, lemma_code_of_pattern, lemma_find_pattern, lemma_table_entries,
    law_table_pattern_decodes, morse_table_char, morse_table_code, pattern_for_char,
    pattern_from_code, pow3, spec_table_char, spec_table_code, symbol_digit, table_pattern,
    MORSE_TABLE_LEN,
};

pub mod laws;
pub mod table;

verus! {

/// One Morse symbol; it takes two bits in a bitstream.
#[derive(Debug, Clone, Copy, PartialEq, Eq, Structural)]
pub enum MorseSymbol {
    IntraLetter,
    Dit,
    Dash,
    IntraWord,
}

impl MorseSymbol {
    /// The two bits that stand for the symbol.
    pub open spec fn spec_bits(self) -> u8 {
        match self {
            MorseSymbol::IntraLetter => 0,
            MorseSymbol::Dit => 1,
            MorseSymbol::Dash => 2,
            MorseSymbol::IntraWord => 3,
        }
    }

    /// The symbol that the two low bits of `bits` stand for.
    pub open spec fn spec_from_bits(bits: u8) -> MorseSymbol {
        if bits % 4 == 0 {
            MorseSymbol::IntraLetter
        } else if bits % 4 == 1 {
            MorseSymbol::Dit
        } else if bits % 4 == 2 {
            MorseSymbol::Dash
        } else {
            MorseSymbol::IntraWord
        }
    }

    /// The symbol that the two low bits of `bits` stand for; the other bits are ignored.
    pub fn from_bits(bits: u8) -> (r: Self)
        ensures
            r == Self::spec_from_bits(bits),
    {
        let low = bits & 0b11;
        assert(bits & 3 == bits % 4) by (bit_vector);
        if low == 0 {
            MorseSymbol::IntraLetter
        } else if low == 1 {
            MorseSymbol::Dit
        } else if low == 2 {
            MorseSymbol::Dash
        } else {
            MorseSymbol::IntraWord
        }
    }

    /// The two bits that stand for the symbol.
    pub fn bits(self) -> (r: u8)
        ensures
            r == self.spec_bits(),
    {
        match self {
            MorseSymbol::IntraLetter => 0,
            MorseSymbol::Dit => 1,
            MorseSymbol::Dash => 2,
            MorseSymbol::IntraWord => 3,
        }
    }
}


/// What a character decoder hands out: a character, a gap between words, or
/// the end of the stream.
#[derive(Debug, Clone, Copy, PartialEq, Eq, Structural)]
pub enum MorseCharacter {
    Character(char),
    IntraWord,
    Stop,
}

/// Number of symbols that a bitstream can hold: four in each of its 256 bytes.
pub const BITSTREAM_CAPACITY: usize = 1024;

/// The two bits at slot `k` (0 to 3) of a byte.
pub open spec fn slot_bits(byte: u8, k: int) -> u8 {
    (byte >> ((k * 2) as u8)) & 3u8
}

/// The two bits of symbol slot `i` of a byte array.
pub open spec fn slot(bytes: Seq<u8>, i: int) -> u8 {
    slot_bits(bytes[i / 4], i % 4)
}

/// Facts about the two-bit slots of a byte.
pub proof fn lemma_slot_write(b: u8, v: u8, s: u8, t: u8)
    requires
        v < 4,
        s < 8,
        t < 8,
        s % 2 == 0,
        t % 2 == 0,
    ensures
        (((b & !(3u8 << s)) | (v << s)) >> t) & 3u8 == if s == t {
            v
        } else {
            (b >> t) & 3u8
        },
{
    assert(v < 4 && s < 8 && t < 8 && s % 2 == 0 && t % 2 == 0 ==> (((b & !(3u8 << s)) | (v
        << s)) >> t) & 3u8 == if s == t {
        v
    } else {
        (b >> t) & 3u8
    }) by (bit_vector);
}

/// A byte is determined by its four slots, and the zero byte has empty slots.
pub proof fn lemma_slots_determine_byte(a: u8, b: u8)
    ensures
        (slot_bits(a, 0) == slot_bits(b, 0) && slot_bits(a, 1) == slot_bits(b, 1) && slot_bits(a, 2)
            == slot_bits(b, 2) && slot_bits(a, 3) == slot_bits(b, 3)) ==> a == b,
        slot_bits(0, 0) == 0 && slot_bits(0, 1) == 0 && slot_bits(0, 2) == 0 && slot_bits(0, 3)
            == 0,
        slot_bits(a, 0) < 4 && slot_bits(a, 1) < 4 && slot_bits(a, 2) < 4 && slot_bits(a, 3) < 4,
{
    assert(((a >> 0u8) & 3u8 == (b >> 0u8) & 3u8 && (a >> 2u8) & 3u8 == (b >> 2u8) & 3u8 && (a
        >> 4u8) & 3u8 == (b >> 4u8) & 3u8 && (a >> 6u8) & 3u8 == (b >> 6u8) & 3u8) ==> a == b)
        by (bit_vector);
    assert((0u8 >> 0u8) & 3u8 == 0 && (0u8 >> 2u8) & 3u8 == 0 && (0u8 >> 4u8) & 3u8 == 0 && (0u8
        >> 6u8) & 3u8 == 0) by (bit_vector);
    assert((a >> 0u8) & 3u8 < 4 && (a >> 2u8) & 3u8 < 4 && (a >> 4u8) & 3u8 < 4 && (a >> 6u8)
        & 3u8 < 4) by (bit_vector);
}

/// Reading back the bits of a symbol gives the symbol.
pub proof fn lemma_symbol_bits(s: MorseSymbol)
    ensures
        MorseSymbol::spec_from_bits(s.spec_bits()) == s,
        s.spec_bits() < 4,
{
}

/// Up to 1024 symbols, packed four to a byte, the first symbol in the lowest
/// two bits.
#[derive(Clone, Copy, PartialEq, Eq, Debug)]
pub struct MorseBitstream {
    pub bytes: [u8; 256],
    pub symbol_count: usize,
}

impl MorseBitstream {
    /// The symbols of the stream, in order.
    pub open spec fn symbols(&self) -> Seq<MorseSymbol> {
        Seq::new(
            self.symbol_count as nat,
            |i: int| MorseSymbol::spec_from_bits(slot(self.bytes@, i)),
        )
    }

    /// The stream holds at most 1024 symbols and every slot past the last
    /// symbol is zero, so that the bytes are determined by the symbols.
    pub open spec fn wf(&self) -> bool {
        &&& self.symbol_count <= BITSTREAM_CAPACITY
        &&& forall|i: int| self.symbol_count <= i < BITSTREAM_CAPACITY ==> slot(self.bytes@, i) == 0
    }

    /// The empty stream: all bytes zero.
    pub fn new() -> (r: Self)
        ensures
            r.wf(),
            r.symbol_count == 0,
            r.symbols() == Seq::<MorseSymbol>::empty(),
            forall|j: int| 0 <= j < 256 ==> r.bytes@[j] == 0,
    {
        let r = MorseBitstream { bytes: [0u8; 256], symbol_count: 0 };
        proof {
            lemma_slots_determine_byte(0, 0);
            assert(r.symbols() =~= Seq::<MorseSymbol>::empty());
        }
        r
    }

    /// Appends a symbol in the next free slot.
    pub fn push(&mut self, symbol: MorseSymbol)
        requires
            old(self).symbol_count < BITSTREAM_CAPACITY,
        ensures
            final(self).symbol_count == old(self).symbol_count + 1,
            final(self).symbols() == old(self).symbols().push(symbol),
            slot(final(self).bytes@, old(self).symbol_count as int) == symbol.spec_bits(),
            forall|i: int|
                0 <= i < BITSTREAM_CAPACITY && i != old(self).symbol_count ==> slot(
                    final(self).bytes@,
                    i,
                ) == slot(old(self).bytes@, i),
            old(self).wf() ==> final(self).wf(),
    {
        let byte_idx = self.symbol_count / 4;
        let bit_shift = ((self.symbol_count % 4) * 2) as u8;
        let old_byte = self.bytes[byte_idx];
        let cleared = old_byte & !(0b11u8 << bit_shift);
        let new_byte = cleared | (symbol.bits() << bit_shift);
        self.bytes[byte_idx] = new_byte;
        self.symbol_count = self.symbol_count + 1;
        proof {
            let n = old(self).symbol_count as int;
            assert forall|i: int| 0 <= i < BITSTREAM_CAPACITY implies slot(self.bytes@, i) == if i
                == n {
                symbol.spec_bits()
            } else {
                slot(old(self).bytes@, i)
            } by {
                if i / 4 == n / 4 {
                    lemma_slot_write(old_byte, symbol.spec_bits(), bit_shift, ((i % 4) * 2) as u8);
                }
            }
            lemma_symbol_bits(symbol);
            assert(self.symbols() =~= old(self).symbols().push(symbol));
        }
    }

    /// An iterator over the symbols.
    pub fn iter(&self) -> (it: MorseIterator<'_>)
        requires
            self.symbol_count <= BITSTREAM_CAPACITY,
        ensures
            it.wf(),
            it.symbols() == self.symbols(),
            it.position() == 0,
    {
        MorseIterator { bitstream: self, current_idx: 0 }
    }

    /// An iterator over the characters that the symbols spell.
    pub fn iter_characters(&self) -> (it: MorseCharacterIterator<'_>)
        requires
            self.symbol_count <= BITSTREAM_CAPACITY,
        ensures
            it.wf(),
            it.remaining() == tokens(self.symbols(), Seq::empty()),
    {
        let it = self.iter();
        assert(it.remaining() =~= self.symbols());
        MorseCharacterIterator::new(it)
    }

    /// `f` applied to the accumulator and each symbol in turn.
    pub fn fold<B, F: FnMut(B, MorseSymbol) -> B>(&self, init: B, mut f: F) -> (r: B)
        requires
            self.symbol_count <= BITSTREAM_CAPACITY,
            forall|b: B, i: int| 0 <= i < self.symbols().len() ==> #[trigger] f.requires((b, self.symbols()[i])),
        ensures
            exists|accs: Seq<B>| is_fold_chain(f, init, self.symbols(), accs, r),
    {
        broadcast use vstd::function::group_function_axioms;

        let ghost syms = self.symbols();
        let ghost f0 = f;
        let mut accum = init;
        let ghost mut accs: Seq<B> = seq![init];
        let mut idx: usize = 0;
        while idx < self.symbol_count
            invariant
                idx <= self.symbol_count <= BITSTREAM_CAPACITY,
                syms == self.symbols(),
                f == f0,
                forall|b: B, i: int| 0 <= i < syms.len() ==> #[trigger] f.requires((b, syms[i])),
                is_fold_chain(f, init, syms.take(idx as int), accs, accum),
            decreases self.symbol_count - idx,
        {
            let byte_idx = idx / 4;
            let bit_shift = ((idx % 4) * 2) as u8;
            let bits = (self.bytes[byte_idx] >> bit_shift) & 0b11;
            let sym = MorseSymbol::from_bits(bits);
            assert(sym == syms[idx as int]);
            let next = f(accum, sym);
            proof {
                let old_accs = accs;
                accs = accs.push(next);
                assert(syms.take(idx + 1) =~= syms.take(idx as int).push(sym));
                assert forall|i: int| 0 <= i < idx + 1 implies call_ensures(
                    f,
                    (accs[i], syms.take(idx + 1)[i]),
                    #[trigger] accs[i + 1],
                ) by {
                    if i < idx {
                        assert(accs[i] == old_accs[i]);
                        assert(accs[i + 1] == old_accs[i + 1]);
                        assert(syms.take(idx + 1)[i] == syms.take(idx as int)[i]);
                    }
                }
            }
            accum = next;
            idx = idx + 1;
        }
        proof {
            assert(syms.take(idx as int) =~= syms);
            assert(is_fold_chain(f0, init, self.symbols(), accs, accum));
        }
        accum
    }

    /// `f` applied to the accumulator and each character token in turn, the
    /// final `Stop` included.
    pub fn fold_characters<B, F: FnMut(B, MorseCharacter) -> B>(&self, init: B, mut f: F) -> (r:
        B)
        requires
            self.symbol_count <= BITSTREAM_CAPACITY,
            forall|b: B, i: int|
                0 <= i < tokens(self.symbols(), Seq::empty()).len() ==> #[trigger] f.requires(
                    (b, tokens(self.symbols(), Seq::empty())[i]),
                ),
        ensures
            exists|accs: Seq<B>| is_fold_chain(f, init, tokens(self.symbols(), Seq::empty()), accs, r),
    {
        broadcast use vstd::function::group_function_axioms;

        let ghost f0 = f;
        let mut it = self.iter_characters();
        let ghost all = it.remaining();
        let ghost mut accs: Seq<B> = seq![init];
        let ghost mut done: Seq<MorseCharacter> = Seq::empty();
        let mut accum = init;
        loop
            invariant_except_break
                it.wf(),
                all == done + it.remaining(),
            invariant
                all == tokens(self.symbols(), Seq::empty()),
                f == f0,
                forall|b: B, i: int| 0 <= i < all.len() ==> #[trigger] f.requires((b, all[i])),
                is_fold_chain(f, init, done, accs, accum),
            ensures
                done == all,
            decreases it.remaining().len(),
        {
            let ghost before = it.remaining();
            let tok = it.next();
            match tok {
                Some(c) => {
                    assert(all[done.len() as int] == before[0]);
                    let next = f(accum, c);
                    proof {
                        let old_accs = accs;
                        let old_done = done;
                        accs = accs.push(next);
                        done = done.push(c);
                        assert forall|i: int| 0 <= i < done.len() implies call_ensures(
                            f,
                            (accs[i], done[i]),
                            #[trigger] accs[i + 1],
                        ) by {
                            if i < old_done.len() {
                                assert(accs[i] == old_accs[i]);
                                assert(accs[i + 1] == old_accs[i + 1]);
                                assert(done[i] == old_done[i]);
                            }
                        }
                        assert(all =~= done + it.remaining());
                    }
                    accum = next;
                },
                None => {
                    assert(all =~= done);
                    break;
                },
            }
        }
        accum
    }
}

/// `accs` is a run of a fold of `f` over `s` from `init` that ends in `r`:
/// each accumulator is a possible result of `f` on the one before and the
/// next item.
pub open spec fn is_fold_chain<A, B, F: FnMut(B, A) -> B>(
    f: F,
    init: B,
    s: Seq<A>,
    accs: Seq<B>,
    r: B,
) -> bool {
    &&& accs.len() == s.len() + 1
    &&& accs[0] == init
    &&& accs[s.len() as int] == r
    &&& forall|i: int| 0 <= i < s.len() ==> call_ensures(f, (accs[i], s[i]), #[trigger] accs[i + 1])
}

/// Iterator over the symbols of a bitstream.
pub struct MorseIterator<'a> {
    bitstream: &'a MorseBitstream,
    current_idx: usize,
}

impl<'a> MorseIterator<'a> {
    /// The symbols of the bitstream.
    pub closed spec fn symbols(&self) -> Seq<MorseSymbol> {
        self.bitstream.symbols()
    }

    /// How many symbols have been handed out.
    pub closed spec fn position(&self) -> int {
        self.current_idx as int
    }

    /// The symbols still to come.
    pub open spec fn remaining(&self) -> Seq<MorseSymbol> {
        self.symbols().skip(self.position())
    }

    pub closed spec fn wf(&self) -> bool {
        &&& self.bitstream.symbol_count <= BITSTREAM_CAPACITY
        &&& self.current_idx <= self.bitstream.symbol_count
    }

    /// The next symbol, or `None` at the end.
    pub fn next(&mut self) -> (r: Option<MorseSymbol>)
        requires
            old(self).wf(),
        ensures
            final(self).wf(),
            final(self).symbols() == old(self).symbols(),
            old(self).position() < old(self).symbols().len() ==> r == Some(
                old(self).symbols()[old(self).position()],
            ) && final(self).position() == old(self).position() + 1,
            old(self).position() >= old(self).symbols().len() ==> r is None && final(self).position()
                == old(self).position(),
            0 <= final(self).position() <= final(self).symbols().len(),
    {
        if self.current_idx >= self.bitstream.symbol_count {
            return None;
        }
        let byte_idx = self.current_idx / 4;
        let bit_shift = ((self.current_idx % 4) * 2) as u8;
        let bits = (self.bitstream.bytes[byte_idx] >> bit_shift) & 0b11;
        self.current_idx = self.current_idx + 1;
        Some(MorseSymbol::from_bits(bits))
    }
}

/// The characters that a finished group of dits and dashes yields: its
/// character when the table knows the pattern, nothing otherwise.
pub open spec fn flush(p: Seq<MorseSymbol>) -> Seq<MorseCharacter> {
    if p.len() > 0 {
        match char_for_pattern(p) {
            Some(c) => seq![MorseCharacter::Character(c)],
            None => Seq::empty(),
        }
    } else {
        Seq::empty()
    }
}

/// The tokens that the character decoder hands out for the symbols `s` when
/// the dits and dashes `p` are pending: dits and dashes gather (at most eight,
/// later ones are dropped), a letter gap ends a character, a word gap ends a
/// character and yields a gap, and the end of the symbols ends the last
/// character and yields `Stop`.
pub open spec fn tokens(s: Seq<MorseSymbol>, p: Seq<MorseSymbol>) -> Seq<MorseCharacter>
    decreases s.len(),
{
    if s.len() == 0 {
        flush(p).push(MorseCharacter::Stop)
    } else {
        let rest = s.drop_first();
        match s[0] {
            MorseSymbol::Dit | MorseSymbol::Dash => tokens(
                rest,
                if p.len() < 8 {
                    p.push(s[0])
                } else {
                    p
                },
            ),
            MorseSymbol::IntraLetter => flush(p) + tokens(rest, Seq::empty()),
            MorseSymbol::IntraWord => flush(p) + seq![MorseCharacter::IntraWord] + tokens(
                rest,
                Seq::empty(),
            ),
        }
    }
}

/// The decoder's tokens always end with `Stop`, and `Stop` comes nowhere else.
pub proof fn lemma_tokens_end(s: Seq<MorseSymbol>, p: Seq<MorseSymbol>)
    ensures
        tokens(s, p).len() >= 1,
        tokens(s, p).last() == MorseCharacter::Stop,
        forall|i: int| 0 <= i < tokens(s, p).len() - 1 ==> tokens(s, p)[i] != MorseCharacter::Stop,
    decreases s.len(),
{
    if s.len() > 0 {
        let rest = s.drop_first();
        lemma_tokens_end(rest, if p.len() < 8 {
            p.push(s[0])
        } else {
            p
        });
        lemma_tokens_end(rest, Seq::empty());
    }
}

/// The text that tokens spell: characters as themselves, gaps as spaces, up
/// to the first `Stop`.
pub open spec fn token_text(ts: Seq<MorseCharacter>) -> Seq<char>
    decreases ts.len(),
{
    if ts.len() == 0 {
        Seq::empty()
    } else {
        match ts[0] {
            MorseCharacter::Character(c) => seq![c] + token_text(ts.drop_first()),
            MorseCharacter::IntraWord => seq![' '] + token_text(ts.drop_first()),
            MorseCharacter::Stop => Seq::empty(),
        }
    }
}

/// The text that a symbol sequence decodes to.
pub open spec fn decode_spec(s: Seq<MorseSymbol>) -> Seq<char> {
    token_text(tokens(s, Seq::empty()))
}

/// Iterator that assembles symbols into characters and gaps.
pub struct MorseCharacterIterator<'a> {
    symbol_iter: MorseIterator<'a>,
    current_sequence: [MorseSymbol; 8],
    seq_len: usize,
    sent_stop: bool,
}

impl<'a> MorseCharacterIterator<'a> {
    /// The dits and dashes gathered for the character under way.
    pub closed spec fn pending(&self) -> Seq<MorseSymbol> {
        self.current_sequence@.subrange(0, self.seq_len as int)
    }

    /// The tokens still to come.
    pub closed spec fn remaining(&self) -> Seq<MorseCharacter> {
        if self.sent_stop {
            Seq::empty()
        } else {
            tokens(self.symbol_iter.remaining(), self.pending())
        }
    }

    pub closed spec fn wf(&self) -> bool {
        &&& self.symbol_iter.wf()
        &&& self.seq_len <= 8
        &&& is_keying(self.pending())
    }

    /// A character iterator that reads from `symbol_iter`.
    pub fn new(symbol_iter: MorseIterator<'a>) -> (r: Self)
        requires
            symbol_iter.wf(),
        ensures
            r.wf(),
            r.remaining() == tokens(symbol_iter.remaining(), Seq::empty()),
    {
        let r = MorseCharacterIterator {
            symbol_iter,
            current_sequence: [MorseSymbol::IntraLetter; 8],
            seq_len: 0,
            sent_stop: false,
        };
        assert(r.pending() =~= Seq::<MorseSymbol>::empty());
        r
    }

    /// Ends the character under way: its token if the table knows its
    /// pattern, and an empty pending group.
    fn flush_current_character(&mut self) -> (r: Option<MorseCharacter>)
        requires
            old(self).wf(),
        ensures
            final(self).wf(),
            final(self).symbol_iter == old(self).symbol_iter,
            final(self).sent_stop == old(self).sent_stop,
            final(self).pending() == Seq::<MorseSymbol>::empty(),
            flush(old(self).pending()) == match r {
                Some(t) => seq![t],
                None => Seq::<MorseCharacter>::empty(),
            },
            r matches Some(t) ==> t is Character,
    {
        if self.seq_len > 0 {
            let ghost p = self.pending();
            let mut code: u32 = 1;
            let mut i: usize = 0;
            proof {
                reveal_with_fuel(pow3, 2);
                assert(p.take(0) =~= Seq::<MorseSymbol>::empty());
            }
            while i < self.seq_len
                invariant
                    i <= self.seq_len <= 8,
                    p == self.pending(),
                    is_keying(p),
                    code == code_of(p.take(i as int)),
                    code < pow3((i + 1) as nat),
                decreases self.seq_len - i,
            {
                proof {
                    assert(is_keying(p.take(i + 1)));
                    lemma_code_of_pattern(p.take(i + 1));
                    assert(p.take(i + 1).drop_last() =~= p.take(i as int));
                    reveal_with_fuel(pow3, 10);
                }
                let d: u32 = match self.current_sequence[i] {
                    MorseSymbol::Dit => 1,
                    MorseSymbol::Dash => 2,
                    _ => 0,
                };
                code = code * 3 + d;
                i = i + 1;
            }
            proof {
                assert(p.take(i as int) =~= p);
                lemma_find_pattern(p, 0);
            }
            let found = find_code(code);
            let match_result = match found {
                Some(k) => Some(MorseCharacter::Character(morse_table_char(k))),
                None => None,
            };
            self.seq_len = 0;
            assert(self.pending() =~= Seq::<MorseSymbol>::empty());
            match_result
        } else {
            assert(self.pending() =~= Seq::<MorseSymbol>::empty());
            None
        }
    }

    /// The next token, or `None` once `Stop` has been handed out.
    pub fn next(&mut self) -> (r: Option<MorseCharacter>)
        requires
            old(self).wf(),
        ensures
            final(self).wf(),
            old(self).remaining().len() == 0 ==> r is None && final(self).remaining().len() == 0,
            old(self).remaining().len() > 0 ==> r == Some(old(self).remaining()[0])
                && final(self).remaining() == old(self).remaining().drop_first(),
    {
        if self.sent_stop {
            return None;
        }
        let ghost all = self.remaining();
        loop
            invariant
                self.wf(),
                !self.sent_stop,
                all == old(self).remaining(),
                all == self.remaining(),
            decreases self.symbol_iter.remaining().len(),
        {
            let ghost before = self.symbol_iter.remaining();
            let ghost p = self.pending();
            let sym = self.symbol_iter.next();
            proof {
                if before.len() > 0 {
                    assert(self.symbol_iter.remaining() =~= before.drop_first());
                    assert(before[0] == sym.unwrap());
                }
            }
            match sym {
                Some(MorseSymbol::Dit) | Some(MorseSymbol::Dash) => {
                    if self.seq_len < 8 {
                        self.current_sequence[self.seq_len] = sym.unwrap();
                        self.seq_len = self.seq_len + 1;
                        assert(self.pending() =~= p.push(sym.unwrap()));
                    }
                },
                Some(MorseSymbol::IntraLetter) => {
                    let flushed = self.flush_current_character();
                    if let Some(character_token) = flushed {
                        assert(all =~= seq![character_token] + self.remaining());
                        return Some(character_token);
                    }
                    assert(all =~= self.remaining());
                },
                Some(MorseSymbol::IntraWord) => {
                    let flushed = self.flush_current_character();
                    if let Some(character_token) = flushed {
                        self.symbol_iter.current_idx = self.symbol_iter.current_idx - 1;
                        assert(self.symbol_iter.remaining() =~= before);
                        assert(self.remaining() =~= seq![MorseCharacter::IntraWord] + tokens(
                            before.drop_first(),
                            Seq::empty(),
                        ));
                        assert(all =~= seq![character_token] + self.remaining());
                        return Some(character_token);
                    }
                    assert(all =~= seq![MorseCharacter::IntraWord] + self.remaining());
                    return Some(MorseCharacter::IntraWord);
                },
                None => {
                    assert(before.len() == 0);
                    let flushed = self.flush_current_character();
                    if let Some(character_token) = flushed {
                        assert(self.remaining() =~= seq![MorseCharacter::Stop]);
                        assert(all =~= seq![character_token] + self.remaining());
                        return Some(character_token);
                    }
                    self.sent_stop = true;
                    assert(all =~= seq![MorseCharacter::Stop]);
                    return Some(MorseCharacter::Stop);
                },
            }
        }
    }
}

/// `c` in ASCII upper case: `a` to `z` become `A` to `Z`, every other
/// character stays as it is.
pub open spec fn ascii_upper(c: char) -> char {
    if 'a' <= c <= 'z' {
        ((c as u32) - 32) as char
    } else {
        c
    }
}

/// `c` in ASCII upper case.
pub fn to_ascii_upper(c: char) -> (r: char)
    ensures
        r == ascii_upper(c),
{
    if 'a' <= c && c <= 'z' {
        ((c as u8) - 32) as char
    } else {
        c
    }
}

/// The symbols that the encoder emits for the text `t`, after a first keyed
/// character (`word_started`) and with a letter gap owed before the next
/// character (`need_space`). A space emits a word gap once a character has
/// been keyed; a character of the table (in either case) emits a letter gap
/// when one is owed and then its pattern; other characters emit nothing.
pub open spec fn encode_from(t: Seq<char>, word_started: bool, need_space: bool) -> Seq<
    MorseSymbol,
>
    decreases t.len(),
{
    if t.len() == 0 {
        Seq::empty()
    } else {
        let c = t[0];
        let rest = t.drop_first();
        if c == ' ' {
            if word_started {
                seq![MorseSymbol::IntraWord] + encode_from(rest, true, false)
            } else {
                encode_from(rest, word_started, need_space)
            }
        } else {
            match pattern_for_char(ascii_upper(c)) {
                Some(p) => (if need_space {
                    seq![MorseSymbol::IntraLetter]
                } else {
                    Seq::empty()
                }) + p + encode_from(rest, true, true),
                None => encode_from(rest, word_started, need_space),
            }
        }
    }
}

/// The symbols that encoding the text `t` gives.
pub open spec fn encode_spec(t: Seq<char>) -> Seq<MorseSymbol> {
    encode_from(t, false, false)
}

/// Encodes `text` into a bitstream; the text must not need more than 1024
/// symbols.
pub fn encode_text(text: &str) -> (bitstream: MorseBitstream)
    requires
        encode_spec(text@).len() <= BITSTREAM_CAPACITY,
    ensures
        bitstream.wf(),
        bitstream.symbols() == encode_spec(text@),
{
    let mut bitstream = MorseBitstream::new();
    let mut word_started = false;
    let mut need_char_space = false;
    proof {
        assert(text@.skip(0) =~= text@);
        assert(bitstream.symbols() + encode_spec(text@) =~= encode_spec(text@));
    }
    for c in it: text.chars()
        invariant
            it.seq() == text@,
            bitstream.wf(),
            encode_spec(text@).len() <= BITSTREAM_CAPACITY,
            need_char_space ==> word_started,
            bitstream.symbols() + encode_from(text@.skip(it.index() as int), word_started, need_char_space)
                == encode_spec(text@),
    {
        let ghost before = bitstream.symbols();
        let ghost t = text@.skip(it.index() as int);
        proof {
            assert(t[0] == c);
            assert(t.drop_first() =~= text@.skip(it.index() + 1));
        }
        if c == ' ' {
            if word_started {
                proof {
                    assert(before + encode_from(t, word_started, need_char_space) =~= before.push(
                        MorseSymbol::IntraWord,
                    ) + encode_from(t.drop_first(), true, false));
                }
                bitstream.push(MorseSymbol::IntraWord);
                need_char_space = false;
            }
        } else {
        let upper_c = to_ascii_upper(c);
        let found = find_char(upper_c);
        if let Some(k) = found {
            proof {
                lemma_table_entries();
            }
            let symbols = pattern_from_code(morse_table_code(k));
            proof {
                law_table_pattern_decodes(k);
                assert(symbols@ == table_pattern(k));
            }
            let ghost gap: Seq<MorseSymbol> = if need_char_space {
                seq![MorseSymbol::IntraLetter]
            } else {
                Seq::empty()
            };
            let ghost tail = encode_from(t.drop_first(), true, true);
            proof {
                assert(encode_from(t, word_started, need_char_space) == gap + symbols@ + tail);
            }
            if need_char_space {
                bitstream.push(MorseSymbol::IntraLetter);
            }
            proof {
                assert(bitstream.symbols() =~= before + gap);
            }
            let mut j: usize = 0;
            while j < symbols.len()
                invariant
                    j <= symbols.len(),
                    bitstream.wf(),
                    bitstream.symbols() == before + gap + symbols@.take(j as int),
                    before + gap + symbols@ + tail == encode_spec(text@),
                    encode_spec(text@).len() <= BITSTREAM_CAPACITY,
                decreases symbols.len() - j,
            {
                proof {
                    assert((before + gap + symbols@ + tail).len() == before.len() + gap.len()
                        + symbols.len() + tail.len());
                    assert(bitstream.symbols().len() == bitstream.symbol_count);
                    assert(bitstream.symbols().len() == before.len() + gap.len() + j);
                }
                bitstream.push(symbols[j]);
                proof {
                    assert(symbols@.take(j + 1) =~= symbols@.take(j as int).push(symbols@[j as int]));
                    assert(bitstream.symbols() =~= before + gap + symbols@.take(j + 1));
                }
                j = j + 1;
            }
            proof {
                assert(symbols@.take(j as int) =~= symbols@);
                assert(bitstream.symbols() + tail =~= before + gap + symbols@ + tail);
            }
            word_started = true;
            need_char_space = true;
        }
        }
    }
    proof {
        assert(text@.skip(text@.len() as int) =~= Seq::<char>::empty());
        assert(bitstream.symbols() + Seq::<MorseSymbol>::empty() =~= bitstream.symbols());
    }
    bitstream
}

/// The text that a bitstream spells: characters as themselves and word gaps
/// as spaces.
pub fn decode_text(bitstream: &MorseBitstream) -> (result: String)
    requires
        bitstream.symbol_count <= BITSTREAM_CAPACITY,
    ensures
        result@ == decode_spec(bitstream.symbols()),
{
    let mut result = String::new();
    let mut it = bitstream.iter_characters();
    let ghost all = it.remaining();
    loop
        invariant_except_break
            it.wf(),
            result@ + token_text(it.remaining()) == token_text(all),
        invariant
            all == tokens(bitstream.symbols(), Seq::empty()),
        ensures
            result@ == token_text(all),
        decreases it.remaining().len(),
    {
        let ghost rem = it.remaining();
        let tok = it.next();
        match tok {
            Some(MorseCharacter::Character(ch)) => {
                proof {
                    assert(token_text(rem) =~= seq![ch] + token_text(it.remaining()));
                }
                push_char(&mut result, ch);
                assert(result@ + token_text(it.remaining()) =~= token_text(all));
            },
            Some(MorseCharacter::IntraWord) => {
                proof {
                    assert(token_text(rem) =~= seq![' '] + token_text(it.remaining()));
                }
                push_char(&mut result, ' ');
                assert(result@ + token_text(it.remaining()) =~= token_text(all));
            },
            Some(MorseCharacter::Stop) => {
                assert(result@ =~= token_text(all));
                break ;
            },
            None => {
                assert(result@ =~= token_text(all));
                break ;
            },
        }
    }
    result
}

} // verus!
