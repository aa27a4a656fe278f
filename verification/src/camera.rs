//! Camera messages shared by the operator, the camera streamer and its
//! clients, and the splitting of a JPEG frame into chunks that fit a network
//! packet and their reassembly on the receiving side.
use vstd::prelude::*;
use crate::text::push_char;
use crate::fpga::{be_bytes, be_value, law_be_roundtrip};

verus! {

/// Largest payload of one image chunk, in bytes.
pub const CHUNK_SIZE: usize = 1024;

/// Identifier of a camera port.
#[derive(Debug, Clone, Copy, PartialEq, Eq, Structural, Hash, PartialOrd, Ord)]
pub struct CameraIdentifier(u8);

impl CameraIdentifier {
    /// The port number.
    pub closed spec fn spec_id(&self) -> u8 {
        self.0
    }

    pub fn new(id: u8) -> (r: Self)
        ensures
            r.spec_id() == id,
    {
        Self(id)
    }

    /// The port number.
    pub fn id(&self) -> (r: u8)
        ensures
            r == self.spec_id(),
    {
        self.0
    }

    /// The printed name of the camera: `C` and the port number in three
    /// digits, such as `C007`.
    pub fn label(&self) -> (r: String)
        ensures
            r@ == seq![
                'C',
                digit_char(self.spec_id() / 100),
                digit_char(self.spec_id() / 10 % 10),
                digit_char(self.spec_id() % 10),
            ],
    {
        let mut s = String::new();
        push_char(&mut s, 'C');
        push_char(&mut s, to_digit_char(self.0 / 100));
        push_char(&mut s, to_digit_char(self.0 / 10 % 10));
        push_char(&mut s, to_digit_char(self.0 % 10));
        assert(s@ =~= seq![
            'C',
            digit_char(self.spec_id() / 100),
            digit_char(self.spec_id() / 10 % 10),
            digit_char(self.spec_id() % 10),
        ]);
        s
    }
}

/// The decimal digit `d` as a character.
pub open spec fn digit_char(d: u8) -> char {
    (('0' as u32) + d) as char
}

fn to_digit_char(d: u8) -> (c: char)
    requires
        d < 10,
    ensures
        c == digit_char(d),
{
    (48u8 + d) as char
}

impl From<CameraIdentifier> for u8 {
    fn from(value: CameraIdentifier) -> (r: u8) {
        value.0
    }
}

impl vstd::std_specs::convert::FromSpecImpl<CameraIdentifier> for u8 {
    open spec fn obeys_from_spec() -> bool {
        true
    }

    open spec fn from_spec(v: CameraIdentifier) -> u8 {
        v.spec_id()
    }
}

/// Outcome of a camera command that succeeded.
#[derive(Debug, Clone, Copy, PartialEq, Eq, Structural)]
pub enum CameraStreamerCommandResult {
    Acknowledged,
}

/// Why a camera command failed.
#[derive(Debug, Clone, Copy, PartialEq, Eq, Structural)]
pub enum CameraCommandErrorCode {
    InvalidIdentifier,
    Busy,
    NotStreaming,
}

impl CameraCommandErrorCode {
    /// The number that stands for the code on the wire.
    pub open spec fn spec_value(self) -> u32 {
        match self {
            CameraCommandErrorCode::InvalidIdentifier => 0,
            CameraCommandErrorCode::Busy => 1,
            CameraCommandErrorCode::NotStreaming => 2,
        }
    }

    /// The number that stands for the code on the wire.
    pub fn value(self) -> (r: u32)
        ensures
            r == self.spec_value(),
    {
        match self {
            CameraCommandErrorCode::InvalidIdentifier => 0,
            CameraCommandErrorCode::Busy => 1,
            CameraCommandErrorCode::NotStreaming => 2,
        }
    }

    /// The code that `value` stands for, if any.
    pub fn from_value(value: u32) -> (r: Option<Self>)
        ensures
            r matches Some(c) ==> c.spec_value() == value,
            r is None <==> value > 2,
    {
        if value == 0 {
            Some(CameraCommandErrorCode::InvalidIdentifier)
        } else if value == 1 {
            Some(CameraCommandErrorCode::Busy)
        } else if value == 2 {
            Some(CameraCommandErrorCode::NotStreaming)
        } else {
            None
        }
    }
}

/// An argument of a command or of an error.
#[derive(Debug, PartialEq, Eq)]
pub enum CommandArg {
    String(String),
    I32(i32),
    U32(u32),
}

impl Clone for CommandArg {
    fn clone(&self) -> (r: Self)
        ensures
            r == *self,
    {
        match self {
            CommandArg::String(s) => CommandArg::String(s.clone()),
            CommandArg::I32(v) => CommandArg::I32(*v),
            CommandArg::U32(v) => CommandArg::U32(*v),
        }
    }
}

/// A failed camera command: the code and its arguments.
#[derive(Debug)]
pub struct CameraCommandError {
    pub code: CameraCommandErrorCode,
    pub args: Vec<CommandArg>,
}

impl Clone for CameraCommandError {
    fn clone(&self) -> (r: Self)
        ensures
            r.code == self.code,
            r.args@ == self.args@,
    {
        let args = self.args.clone();
        assert(args@ =~= self.args@);
        CameraCommandError { code: self.code, args }
    }
}

impl CameraCommandError {
    /// An error with `code` and no arguments.
    pub fn new(code: CameraCommandErrorCode) -> (r: Self)
        ensures
            r.code == code,
            r.args@ == Seq::<CommandArg>::empty(),
    {
        Self { code, args: Vec::new() }
    }

    /// The same error with `args` as its arguments.
    pub fn with_args(self, args: Vec<CommandArg>) -> (r: Self)
        ensures
            r.code == self.code,
            r.args@ == args@,
    {
        let mut s = self;
        s.args = args;
        s
    }
}

/// A command of the IO board's test protocol.
#[derive(Debug, Clone, Copy, PartialEq, Eq, Structural)]
pub enum Command {
    Test(u64),
    BeginYeetTest,
    EndYeetTest,
}

/// The operator's answer to a command.
#[derive(Debug)]
pub enum OperatorCommandResponse {
    Acknowledged,
    CameraCommandResult(Result<CameraStreamerCommandResult, CameraCommandError>),
}

/// The two responses are the same: the same variant, result or error code, and
/// error arguments.
pub open spec fn same_response(a: OperatorCommandResponse, b: OperatorCommandResponse) -> bool {
    match (a, b) {
        (OperatorCommandResponse::Acknowledged, OperatorCommandResponse::Acknowledged) => true,
        (
            OperatorCommandResponse::CameraCommandResult(Ok(x)),
            OperatorCommandResponse::CameraCommandResult(Ok(y)),
        ) => x == y,
        (
            OperatorCommandResponse::CameraCommandResult(Err(x)),
            OperatorCommandResponse::CameraCommandResult(Err(y)),
        ) => x.code == y.code && x.args@ == y.args@,
        _ => false,
    }
}

impl Clone for OperatorCommandResponse {
    fn clone(&self) -> (r: Self)
        ensures
            same_response(*self, r),
    {
        match self {
            OperatorCommandResponse::Acknowledged => OperatorCommandResponse::Acknowledged,
            OperatorCommandResponse::CameraCommandResult(Ok(result)) => {
                OperatorCommandResponse::CameraCommandResult(Ok(*result))
            },
            OperatorCommandResponse::CameraCommandResult(Err(error)) => {
                OperatorCommandResponse::CameraCommandResult(Err(error.clone()))
            },
        }
    }
}

/// One piece of the JPEG data of a frame.
#[derive(Debug, Clone)]
pub struct CameraFrameImageChunk {
    pub chunk_index: u32,
    pub bytes: Vec<u8>,
}

/// `b` cut into pieces of `n` bytes, the last one possibly shorter.
pub open spec fn split_spec(b: Seq<u8>, n: nat) -> Seq<Seq<u8>>
    decreases b.len(),
{
    if b.len() == 0 || n == 0 {
        Seq::empty()
    } else if b.len() <= n {
        seq![b]
    } else {
        seq![b.take(n as int)] + split_spec(b.skip(n as int), n)
    }
}

/// The bytes of the received pieces, in index order; missing pieces are left out.
pub open spec fn concat_chunks(s: Seq<Option<Seq<u8>>>) -> Seq<u8>
    decreases s.len(),
{
    if s.len() == 0 {
        Seq::empty()
    } else {
        concat_chunks(s.drop_last()) + match s.last() {
            Some(b) => b,
            None => Seq::empty(),
        }
    }
}

/// Every piece received.
pub open spec fn all_received(s: Seq<Seq<u8>>) -> Seq<Option<Seq<u8>>> {
    s.map_values(|b: Seq<u8>| Some(b))
}

/// Number of pieces of `n` bytes that `len` bytes take.
pub open spec fn chunk_count(len: nat, n: nat) -> nat {
    if n == 0 {
        0
    } else {
        ((len + n - 1) / (n as int)) as nat
    }
}

/// The pieces of a split hold the bytes in order, and there are as many as the
/// rounded-up quotient says.
pub proof fn law_split_then_concat(b: Seq<u8>, n: nat)
    requires
        n > 0,
    ensures
        concat_chunks(all_received(split_spec(b, n))) == b,
        split_spec(b, n).len() == chunk_count(b.len(), n),
        forall|i: int|
            0 <= i < split_spec(b, n).len() ==> 0 < (#[trigger] split_spec(b, n)[i]).len() <= n,
    decreases b.len(),
{
    if b.len() == 0 {
        assert(all_received(split_spec(b, n)) =~= Seq::<Option<Seq<u8>>>::empty());
        assert(b =~= Seq::<u8>::empty());
        assert((n - 1) / (n as int) == 0) by (nonlinear_arith)
            requires
                n > 0,
        ;
    } else if b.len() <= n {
        let s = all_received(split_spec(b, n));
        assert(s.drop_last() =~= Seq::<Option<Seq<u8>>>::empty());
        assert(concat_chunks(s.drop_last()) =~= Seq::<u8>::empty());
        assert(Seq::<u8>::empty() + b =~= b);
        assert((b.len() + n - 1) / (n as int) == 1) by (nonlinear_arith)
            requires
                0 < b.len() <= n,
        ;
    } else {
        let head = b.take(n as int);
        let tail = b.skip(n as int);
        law_split_then_concat(tail, n);
        lemma_concat_prepend(head, all_received(split_spec(tail, n)));
        assert(all_received(split_spec(b, n)) =~= seq![Some(head)] + all_received(
            split_spec(tail, n),
        ));
        assert(head + tail =~= b);
        assert((b.len() + n - 1) / (n as int) == (tail.len() + n - 1) / (n as int) + 1)
            by (nonlinear_arith)
            requires
                tail.len() == b.len() - n,
                n > 0,
        ;
        assert forall|i: int| 0 <= i < split_spec(b, n).len() implies 0 < (
        #[trigger] split_spec(b, n)[i]).len() <= n by {
            if i > 0 {
                assert(split_spec(b, n)[i] == split_spec(tail, n)[i - 1]);
            }
        }
    }
}

/// Putting a received piece in front puts its bytes in front.
proof fn lemma_concat_prepend(h: Seq<u8>, s: Seq<Option<Seq<u8>>>)
    ensures
        concat_chunks(seq![Some(h)] + s) == h + concat_chunks(s),
    decreases s.len(),
{
    if s.len() == 0 {
        let t = seq![Some(h)] + s;
        assert(t.drop_last() =~= Seq::<Option<Seq<u8>>>::empty());
        assert(t.last() == Some(h));
        assert(concat_chunks(t.drop_last()) == Seq::<u8>::empty());
        assert(concat_chunks(s) == Seq::<u8>::empty());
        assert(Seq::<u8>::empty() + h =~= h + Seq::<u8>::empty());
    } else {
        let t = seq![Some(h)] + s;
        assert(t.drop_last() =~= seq![Some(h)] + s.drop_last());
        lemma_concat_prepend(h, s.drop_last());
        assert(t.last() == s.last());
        let lastb = match s.last() {
            Some(b) => b,
            None => Seq::empty(),
        };
        assert(h + concat_chunks(s.drop_last()) + lastb =~= h + (concat_chunks(s.drop_last())
            + lastb));
    }
}

/// The bytes and chunk counts that the metadata of a frame of `len` bytes
/// announce.
pub fn frame_counts(len: usize) -> (r: (u32, u32))
    requires
        len + CHUNK_SIZE - 1 <= u32::MAX,
    ensures
        r.0 == len,
        r.1 == chunk_count(len as nat, CHUNK_SIZE as nat),
{
    let total_bytes = len as u32;
    assert(total_bytes == len);
    assert(CHUNK_SIZE as u32 == 1024);
    let total_chunks = (total_bytes + ((CHUNK_SIZE as u32) - 1)) / CHUNK_SIZE as u32;
    (total_bytes, total_chunks)
}

/// The chunks that a frame is sent as: pieces of `CHUNK_SIZE` bytes, numbered
/// from zero.
pub fn split_frame(jpeg_bytes: &[u8]) -> (chunks: Vec<CameraFrameImageChunk>)
    requires
        jpeg_bytes@.len() + CHUNK_SIZE - 1 <= u32::MAX,
    ensures
        chunks@.len() == split_spec(jpeg_bytes@, CHUNK_SIZE as nat).len(),
        forall|i: int|
            0 <= i < chunks@.len() ==> #[trigger] chunks@[i].chunk_index == i && chunks@[i].bytes@
                == split_spec(jpeg_bytes@, CHUNK_SIZE as nat)[i],
{
    let ghost all = split_spec(jpeg_bytes@, CHUNK_SIZE as nat);
    let mut chunks: Vec<CameraFrameImageChunk> = Vec::new();
    let mut pos: usize = 0;
    let len = jpeg_bytes.len();
    proof {
        assert(jpeg_bytes@.skip(0) =~= jpeg_bytes@);
        assert(Seq::<Seq<u8>>::empty() + all =~= all);
    }
    while pos < len
        invariant
            len == jpeg_bytes@.len(),
            pos <= len,
            len + CHUNK_SIZE - 1 <= u32::MAX,
            all == split_spec(jpeg_bytes@, CHUNK_SIZE as nat),
            pos < len ==> chunks@.len() * CHUNK_SIZE == pos,
            forall|i: int|
                0 <= i < chunks@.len() ==> #[trigger] chunks@[i].chunk_index == i,
            chunks@.map_values(|c: CameraFrameImageChunk| c.bytes@) + split_spec(
                jpeg_bytes@.skip(pos as int),
                CHUNK_SIZE as nat,
            ) == all,
        decreases len - pos,
    {
        let ghost rest = jpeg_bytes@.skip(pos as int);
        let end = if len - pos <= CHUNK_SIZE {
            len
        } else {
            pos + CHUNK_SIZE
        };
        let mut bytes: Vec<u8> = Vec::new();
        let mut k: usize = pos;
        while k < end
            invariant
                pos <= k <= end <= len,
                len == jpeg_bytes@.len(),
                bytes@ == jpeg_bytes@.subrange(pos as int, k as int),
            decreases end - k,
        {
            bytes.push(jpeg_bytes[k]);
            assert(bytes@ =~= jpeg_bytes@.subrange(pos as int, k + 1));
            k = k + 1;
        }
        let ghost old_chunks = chunks@;
        proof {
            assert(chunks@.len() < u32::MAX) by (nonlinear_arith)
                requires
                    chunks@.len() * CHUNK_SIZE == pos,
                    pos < len,
                    len + CHUNK_SIZE - 1 <= u32::MAX,
                    CHUNK_SIZE == 1024,
            ;
        }
        let index = chunks.len() as u32;
        chunks.push(CameraFrameImageChunk { chunk_index: index, bytes });
        proof {
            if len - pos <= CHUNK_SIZE {
                assert(bytes@ =~= rest);
                assert(split_spec(rest, CHUNK_SIZE as nat) == seq![rest]);
                assert(jpeg_bytes@.skip(end as int) =~= Seq::<u8>::empty());
            } else {
                assert(bytes@ =~= rest.take(CHUNK_SIZE as int));
                assert(rest.skip(CHUNK_SIZE as int) =~= jpeg_bytes@.skip(end as int));
            }
            assert(split_spec(rest, CHUNK_SIZE as nat) =~= seq![bytes@] + split_spec(
                jpeg_bytes@.skip(end as int),
                CHUNK_SIZE as nat,
            ));
            assert(chunks@.map_values(|c: CameraFrameImageChunk| c.bytes@) =~= old_chunks.map_values(
                |c: CameraFrameImageChunk| c.bytes@,
            ).push(bytes@));
            assert(chunks@.map_values(|c: CameraFrameImageChunk| c.bytes@) + split_spec(
                jpeg_bytes@.skip(end as int),
                CHUNK_SIZE as nat,
            ) =~= old_chunks.map_values(|c: CameraFrameImageChunk| c.bytes@) + split_spec(
                rest,
                CHUNK_SIZE as nat,
            ));
            if len - pos <= CHUNK_SIZE {
                assert(chunks@.len() * CHUNK_SIZE >= len);
            }
        }
        pos = end;
        if pos == len {
            proof {
                assert(chunks@.map_values(|c: CameraFrameImageChunk| c.bytes@) + Seq::<
                    Seq<u8>,
                >::empty() =~= chunks@.map_values(|c: CameraFrameImageChunk| c.bytes@));
            }
        }
    }
    proof {
        assert(jpeg_bytes@.skip(pos as int) =~= Seq::<u8>::empty());
        assert(chunks@.map_values(|c: CameraFrameImageChunk| c.bytes@) + Seq::<Seq<u8>>::empty()
            =~= chunks@.map_values(|c: CameraFrameImageChunk| c.bytes@));
        assert forall|i: int| 0 <= i < chunks@.len() implies chunks@[i].bytes@ == all[i] by {
            assert(chunks@.map_values(|c: CameraFrameImageChunk| c.bytes@)[i] == chunks@[i].bytes@);
        }
    }
    chunks
}

/// Delay before retrying a chunk that did not fit into the outgoing queue:
/// 100 microseconds, doubled for each retry up to the fourth.
pub fn retry_backoff_us(retries: u32) -> (us: u64)
    ensures
        us == 100 * vstd::arithmetic::power2::pow2(if retries < 4 {
            retries as nat
        } else {
            4
        }),
{
    proof {
        vstd::arithmetic::power2::lemma2_to64();
    }
    let shift = if retries < 4 {
        retries
    } else {
        4
    };
    let factor: u64 = if shift == 0 {
        1
    } else if shift == 1 {
        2
    } else if shift == 2 {
        4
    } else if shift == 3 {
        8
    } else {
        16
    };
    100 * factor
}

/// The longest time a chunk may be retried, in microseconds, before the frame
/// is abandoned.
pub const CHUNK_RETRY_LIMIT_US: u64 = 100_000;

/// What the transport reported for one chunk.
#[derive(Debug, Clone, Copy, PartialEq, Eq, Structural)]
pub enum ChunkSendOutcome {
    Sent,
    /// The outgoing queue is full; the chunk may be tried again.
    QueueFull,
    /// Any other failure.
    Failed,
}

/// What the streamer does next with a chunk.
#[derive(Debug, Clone, Copy, PartialEq, Eq, Structural)]
pub enum ChunkStep {
    /// Go on with the next chunk.
    Next,
    /// Try the chunk again once this many microseconds have passed since its
    /// first attempt.
    RetryAt { since_first_attempt_us: u64 },
    /// Give up the frame.
    Abort,
}

/// The step after an attempt to send a chunk that ended with `outcome`,
/// `elapsed_us` after the chunk's first attempt and after `retries` retries: a
/// full queue is retried with a growing back-off until the retry limit has
/// passed; any other failure abandons the frame.
pub fn chunk_send_step(outcome: ChunkSendOutcome, elapsed_us: u64, retries: u32) -> (step: ChunkStep)
    ensures
        outcome == ChunkSendOutcome::Sent ==> step == ChunkStep::Next,
        outcome == ChunkSendOutcome::Failed ==> step == ChunkStep::Abort,
        outcome == ChunkSendOutcome::QueueFull && elapsed_us > CHUNK_RETRY_LIMIT_US ==> step
            == ChunkStep::Abort,
        outcome == ChunkSendOutcome::QueueFull && elapsed_us <= CHUNK_RETRY_LIMIT_US ==> step
            == (ChunkStep::RetryAt {
            since_first_attempt_us: (100 * vstd::arithmetic::power2::pow2(
                if retries < 4 {
                    retries as nat
                } else {
                    4
                },
            )) as u64,
        }),
{
    match outcome {
        ChunkSendOutcome::Sent => ChunkStep::Next,
        ChunkSendOutcome::Failed => ChunkStep::Abort,
        ChunkSendOutcome::QueueFull => {
            if elapsed_us > CHUNK_RETRY_LIMIT_US {
                ChunkStep::Abort
            } else {
                ChunkStep::RetryAt { since_first_attempt_us: retry_backoff_us(retries) }
            }
        },
    }
}

/// The four bytes that announce a payload of `len` bytes on a frame stream:
/// the length as a 32-bit number, most significant byte first (a longer
/// length wraps around).
pub fn frame_length_prefix(len: usize) -> (prefix: [u8; 4])
    ensures
        prefix@ == be_bytes((len as int % 0x1_0000_0000) as u32),
{
    let n = len as u32;
    assert((n as u64) == (len as u64) % 0x1_0000_0000u64) by (bit_vector)
        requires
            n == len as u32,
    ;
    let prefix = [(n / 16777216) as u8, (n / 65536 % 256) as u8, (n / 256 % 256) as u8, (n % 256) as u8];
    assert(prefix@ =~= be_bytes(n));
    prefix
}

/// The payload length that a frame header announces.
pub fn frame_length_from_prefix(prefix: [u8; 4]) -> (len: usize)
    ensures
        len == be_value(prefix@),
{
    let n: u32 = (prefix[0] as u32) * 16777216 + (prefix[1] as u32) * 65536 + (prefix[2] as u32)
        * 256 + (prefix[3] as u32);
    n as usize
}

/// A length announced by a header reads back as itself.
pub proof fn law_length_prefix_roundtrip(len: u32)
    ensures
        be_value(be_bytes(len)) == len,
{
    law_be_roundtrip(len);
}

} // verus!
