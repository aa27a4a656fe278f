//! The MCU side of the FPGA link over OctoSPI: the command bytes, the
//! big-endian framing of register words, the split of long writes into
//! transactions of bounded size, and the decoding of what the FPGA answers.
use byteorder::{BigEndian, ByteOrder};
use vstd::prelude::*;
use crate::fpga_pac::common::field;
use crate::fpga_pac::io::regs::io_in_1;

verus! {

/// Reads one big-endian word.
pub const CMD_READ_U32_BE: u8 = 0x10;

/// Reads one little-endian word.
pub const CMD_READ_U32_LE: u8 = 0x11;

/// Writes big-endian words.
pub const CMD_WRITE_U32_BE: u8 = 0x90;

/// Writes little-endian words.
pub const CMD_WRITE_U32_LE: u8 = 0x91;

/// Address of the LED control register.
pub const REG_LED_CTRL: u16 = 0x0040;

/// Address of the first input register.
pub const REG_IO_IN_1: u16 = 0x0084;

/// Address of the buzzer control register.
pub const REG_BUZZER_CTRL: u16 = 0x00C0;

/// The identification word of the FPGA core.
pub const EXPECTED_IDENT: u32 = 0xFACE_B00B;

/// The number that four bytes spell, most significant byte first.
pub open spec fn be_value(b: Seq<u8>) -> nat {
    b[0] as nat * 16777216 + b[1] as nat * 65536 + b[2] as nat * 256 + b[3] as nat
}

/// The four bytes of `n`, most significant byte first.
pub open spec fn be_bytes(n: u32) -> Seq<u8> {
    seq![(n / 16777216) as u8, (n / 65536 % 256) as u8, (n / 256 % 256) as u8, (n % 256) as u8]
}

/// The bytes of `words`, each word most significant byte first.
pub open spec fn words_be_bytes(words: Seq<u32>) -> Seq<u8>
    decreases words.len(),
{
    if words.len() == 0 {
        Seq::empty()
    } else {
        words_be_bytes(words.drop_last()) + be_bytes(words.last())
    }
}

/// `ByteOrder::read_u32` of byteorder for `BigEndian`: reads the first four
/// bytes of `buf` as a number, most significant byte first. It panics on a
/// shorter buffer, which the `requires` leaves out.
#[verifier::external_body]
fn read_u32_be(buf: &[u8]) -> (r: u32)
    requires
        buf@.len() >= 4,
    ensures
        r == be_value(buf@),
{
    BigEndian::read_u32(buf)
}

/// `ByteOrder::write_u32` of byteorder for `BigEndian`: writes `n` into the
/// first four bytes of `buf`, most significant byte first, and leaves the rest
/// of `buf` alone. It panics on a shorter buffer, which the `requires` leaves
/// out.
#[verifier::external_body]
fn write_u32_be(buf: &mut [u8], n: u32)
    requires
        old(buf)@.len() >= 4,
    ensures
        final(buf)@ == be_bytes(n) + old(buf)@.skip(4),
{
    BigEndian::write_u32(buf, n)
}

/// Reading back the bytes of a word gives the word.
pub proof fn law_be_roundtrip(n: u32)
    ensures
        be_value(be_bytes(n)) == n,
        be_bytes(n).len() == 4,
{
    let b = be_bytes(n);
    assert(b[0] == n / 16777216);
    assert(b[1] == n / 65536 % 256);
    assert(b[2] == n / 256 % 256);
    assert(b[3] == n % 256);
}

/// The value of a register as the FPGA sends it: four bytes, most significant first.
pub fn decode_u32(buffer: &[u8; 4]) -> (value: u32)
    ensures
        value == be_value(buffer@),
{
    read_u32_be(buffer)
}

/// The bytes that send `value` to a register, most significant first.
pub fn encode_u32(value: u32) -> (buffer: [u8; 4])
    ensures
        buffer@ == be_bytes(value),
{
    let mut buffer = [0u8; 4];
    write_u32_be(&mut buffer, value);
    assert(buffer@ =~= be_bytes(value));
    buffer
}

/// The words that a block read of whole words returns: each group of four
/// bytes read as a number, most significant byte first; trailing bytes that do
/// not fill a word are ignored.
pub fn decode_words(bytes: &[u8]) -> (words: Vec<u32>)
    ensures
        words@.len() == bytes@.len() / 4,
        forall|i: int|
            0 <= i < words@.len() ==> #[trigger] words@[i] == be_value(
                bytes@.subrange(4 * i, 4 * i + 4),
            ),
{
    let mut words: Vec<u32> = Vec::new();
    let len = bytes.len();
    let n = len / 4;
    let mut i: usize = 0;
    while i < n
        invariant
            len == bytes@.len(),
            n == bytes@.len() / 4,
            i <= n,
            words@.len() == i,
            forall|k: int|
                0 <= k < i ==> #[trigger] words@[k] == be_value(bytes@.subrange(4 * k, 4 * k + 4)),
        decreases n - i,
    {
        assert(4 * i + 4 <= bytes@.len()) by (nonlinear_arith)
            requires
                i < n,
                n == bytes@.len() / 4,
        ;
        let chunk = [bytes[4 * i], bytes[4 * i + 1], bytes[4 * i + 2], bytes[4 * i + 3]];
        let w = read_u32_be(&chunk);
        proof {
            let sub = bytes@.subrange(4 * i, 4 * i + 4);
            assert(chunk@[0] == sub[0] && chunk@[1] == sub[1] && chunk@[2] == sub[2] && chunk@[3]
                == sub[3]);
        }
        words.push(w);
        i = i + 1;
    }
    words
}

/// The bytes that a block write of `words` sends: each word most significant
/// byte first.
pub fn encode_words(words: &[u32]) -> (bytes: Vec<u8>)
    requires
        words@.len() * 4 <= usize::MAX,
    ensures
        bytes@ == words_be_bytes(words@),
{
    let mut bytes: Vec<u8> = Vec::new();
    let mut i: usize = 0;
    while i < words.len()
        invariant
            i <= words@.len(),
            bytes@ == words_be_bytes(words@.take(i as int)),
        decreases words@.len() - i,
    {
        let b = encode_u32(words[i]);
        proof {
            assert(words@.take(i + 1).drop_last() =~= words@.take(i as int));
        }
        bytes.push(b[0]);
        bytes.push(b[1]);
        bytes.push(b[2]);
        bytes.push(b[3]);
        assert(bytes@ =~= words_be_bytes(words@.take(i + 1)));
        i = i + 1;
    }
    assert(words@.take(i as int) =~= words@);
    bytes
}

/// Decoding the bytes that encode words gives the words back.
pub proof fn law_words_roundtrip(words: Seq<u32>)
    ensures
        words_be_bytes(words).len() == 4 * words.len(),
        forall|i: int|
            0 <= i < words.len() ==> be_value(
                #[trigger] words_be_bytes(words).subrange(4 * i, 4 * i + 4),
            ) == words[i],
    decreases words.len(),
{
    if words.len() > 0 {
        let d = words.drop_last();
        law_words_roundtrip(d);
        law_be_roundtrip(words.last());
        let all = words_be_bytes(words);
        assert forall|i: int| 0 <= i < words.len() implies be_value(
            #[trigger] all.subrange(4 * i, 4 * i + 4),
        ) == words[i] by {
            if i < d.len() {
                assert(all.subrange(4 * i, 4 * i + 4) =~= words_be_bytes(d).subrange(
                    4 * i,
                    4 * i + 4,
                ));
            } else {
                assert(all.subrange(4 * i, 4 * i + 4) =~= be_bytes(words.last()));
            }
        }
    }
}

/// The bytes of two runs of words, one after the other, are the bytes of the
/// joined run: cutting a block write into chunks does not change what is sent.
pub proof fn law_words_be_bytes_concat(a: Seq<u32>, b: Seq<u32>)
    ensures
        words_be_bytes(a + b) == words_be_bytes(a) + words_be_bytes(b),
    decreases b.len(),
{
    if b.len() == 0 {
        assert(a + b =~= a);
        assert(words_be_bytes(a) + words_be_bytes(b) =~= words_be_bytes(a));
    } else {
        assert((a + b).drop_last() =~= a + b.drop_last());
        assert((a + b).last() == b.last());
        law_words_be_bytes_concat(a, b.drop_last());
        assert(words_be_bytes(a) + words_be_bytes(b) =~= words_be_bytes(a) + words_be_bytes(
            b.drop_last(),
        ) + be_bytes(b.last()));
    }
}

/// One write transaction: the register address and the bytes to send.
pub struct WriteTransaction {
    pub address: u16,
    pub bytes: Vec<u8>,
}

/// The transactions that writing `words` from `address` in chunks of at most
/// `chunk_size` bytes takes: each carries as many whole words as fit, most
/// significant byte first, and starts where the one before ended.
pub fn plan_chunked_write(address: u16, words: &[u32], chunk_size: usize) -> (plan: Vec<
    WriteTransaction,
>)
    requires
        chunk_size >= 4,
        address + 4 * words@.len() <= u16::MAX,
    ensures
        ({
            let w = (chunk_size / 4) as int;
            &&& plan@.len() == (words@.len() + w - 1) / w
            &&& forall|j: int|
                0 <= j < plan@.len() ==> {
                    &&& (#[trigger] plan@[j]).address == address + 4 * w * j
                    &&& plan@[j].bytes@ == words_be_bytes(
                        words@.subrange(
                            w * j,
                            if w * (j + 1) <= words@.len() {
                                w * (j + 1)
                            } else {
                                words@.len() as int
                            },
                        ),
                    )
                }
        }),
{
    let per_chunk = chunk_size / 4;
    let mut plan: Vec<WriteTransaction> = Vec::new();
    let mut addr = address;
    let mut i: usize = 0;
    let n = words.len();
    proof {
        assert((per_chunk - 1) / (per_chunk as int) == 0) by (nonlinear_arith)
            requires
                per_chunk >= 1,
        ;
        assert(per_chunk * plan@.len() == 0);
    }
    while i < n
        invariant
            n == words@.len(),
            per_chunk == chunk_size / 4,
            per_chunk >= 1,
            address + 4 * n <= u16::MAX,
            i <= n,
            i == per_chunk * plan@.len() || i == n,
            plan@.len() == (i + per_chunk - 1) / (per_chunk as int),
            addr == address + 4 * i,
            forall|j: int|
                0 <= j < plan@.len() ==> {
                    &&& (#[trigger] plan@[j]).address == address + 4 * per_chunk * j
                    &&& plan@[j].bytes@ == words_be_bytes(
                        words@.subrange(
                            per_chunk * j,
                            if per_chunk * (j + 1) <= n {
                                per_chunk * (j + 1)
                            } else {
                                n as int
                            },
                        ),
                    )
                },
        decreases n - i,
    {
        let chunk_words = if n - i < per_chunk {
            n - i
        } else {
            per_chunk
        };
        let mut bytes: Vec<u8> = Vec::new();
        let mut k: usize = 0;
        while k < chunk_words
            invariant
                i + chunk_words <= n,
                n == words@.len(),
                k <= chunk_words,
                bytes@ == words_be_bytes(words@.subrange(i as int, i + k)),
            decreases chunk_words - k,
        {
            let b = encode_u32(words[i + k]);
            proof {
                assert(words@.subrange(i as int, i + k + 1).drop_last() =~= words@.subrange(
                    i as int,
                    i + k,
                ));
            }
            bytes.push(b[0]);
            bytes.push(b[1]);
            bytes.push(b[2]);
            bytes.push(b[3]);
            assert(bytes@ =~= words_be_bytes(words@.subrange(i as int, i + k + 1)));
            k = k + 1;
        }
        let ghost j = plan@.len() as int;
        proof {
            assert(i == per_chunk * j);
            assert(per_chunk * (j + 1) == i + per_chunk) by (nonlinear_arith)
                requires
                    i == per_chunk * j,
            ;
        }
        plan.push(WriteTransaction { address: addr, bytes });
        let byte_len = chunk_words * 4;
        i = i + chunk_words;
        addr = addr + byte_len as u16;
        proof {
            assert(4 * per_chunk * j == 4 * (per_chunk * j)) by (nonlinear_arith);
            assert(plan@.len() == (i + per_chunk - 1) / (per_chunk as int)) by (nonlinear_arith)
                requires
                    plan@.len() == j + 1,
                    j == (per_chunk * j + per_chunk - 1) / (per_chunk as int),
                    i == per_chunk * j + chunk_words,
                    1 <= chunk_words <= per_chunk,
                    per_chunk >= 1,
            {
                assert(i + per_chunk - 1 == per_chunk * (j + 1) + (chunk_words - 1));
            }
        }
    }
    plan
}

/// The FPGA core version.
#[derive(Debug, Clone, Copy, PartialEq, Eq, Structural)]
pub struct FpgaVersion {
    pub major: u8,
    pub minor: u8,
    pub patch: u8,
    pub build: u8,
}

impl FpgaVersion {
    /// The version that four bytes read from the version register give, in
    /// the order major, minor, patch, build.
    pub fn from_bytes(bytes: [u8; 4]) -> (r: Self)
        ensures
            r.major == bytes@[0],
            r.minor == bytes@[1],
            r.patch == bytes@[2],
            r.build == bytes@[3],
    {
        Self { major: bytes[0], minor: bytes[1], patch: bytes[2], build: bytes[3] }
    }

    /// The version in a register word: its bytes, least significant first,
    /// are major, minor, patch and build.
    pub fn from_u32(value: u32) -> (r: Self)
        ensures
            r.major == value % 256,
            r.minor == value / 256 % 256,
            r.patch == value / 65536 % 256,
            r.build == value / 16777216,
    {
        Self {
            major: (value % 256) as u8,
            minor: (value / 256 % 256) as u8,
            patch: (value / 65536 % 256) as u8,
            build: (value / 16777216) as u8,
        }
    }
}

/// The button bits of the first input register read over the link: bits 0
/// and 1 of the word.
pub fn buttons_from_word(value: u32) -> (buttons: u8)
    ensures
        buttons == value % 4,
{
    let low = value as u8;
    assert((low & 0x03) as u32 == value % 4) by (bit_vector)
        requires
            low == value as u8,
    ;
    low & 0x03
}

/// The buttons of the first input register read through the memory-mapped
/// window: bit 0 is USER 0, bit 1 is USER 1, 1 when pressed.
pub fn buttons_from_register(value: io_in_1) -> (buttons: u8)
    ensures
        buttons == field(value.0, 0, 1) + 2 * field(value.0, 1, 1),
{
    let user0 = value.user0();
    let user1 = value.user1();
    let b0: u8 = if user0 {
        1
    } else {
        0
    };
    let b1: u8 = if user1 {
        1
    } else {
        0
    };
    proof {
        crate::fpga_pac::common::lemma_field_bound(value.0, 0, 1);
        crate::fpga_pac::common::lemma_field_bound(value.0, 1, 1);
        assert(b0 | (b1 << 1) == b0 + 2 * b1) by (bit_vector)
            requires
                b0 <= 1,
                b1 <= 1,
        ;
    }
    b0 | (b1 << 1)
}

/// What the identification word read at start-up says.
#[derive(Debug, Clone, Copy, PartialEq, Eq, Structural)]
pub enum IdentCheck {
    /// All ones: nothing answered.
    NoResponse,
    /// The FPGA core answered.
    Expected,
    /// Something else answered.
    Unexpected,
}

/// Classifies the identification word.
pub fn check_ident(ident: u32) -> (r: IdentCheck)
    ensures
        ident == 0xffff_ffff ==> r == IdentCheck::NoResponse,
        ident == EXPECTED_IDENT ==> r == IdentCheck::Expected,
        ident != 0xffff_ffff && ident != EXPECTED_IDENT ==> r == IdentCheck::Unexpected,
{
    if ident == 0xffff_ffff {
        IdentCheck::NoResponse
    } else if ident == EXPECTED_IDENT {
        IdentCheck::Expected
    } else {
        IdentCheck::Unexpected
    }
}

} // verus!
