//! OSC (Open Sound Control) messages for the scsynth audio server, and their
//! binary wire format.
//!
//! A float argument is carried as its IEEE-754 single-precision bit pattern,
//! which is exactly what travels on the wire.

use vstd::prelude::*;
use vstd::string::{StringSliceAdditionalSpecFns, StrSliceExecFns};
use vstd::utf8::*;
use vstd::slice::{slice_subrange, slice_to_vec};
use crate::text::{join2, string_from_utf8};

verus! {

/// An OSC argument.
#[derive(Debug, Clone, PartialEq)]
pub enum OscArg {
    Int(i32),
    /// A 32-bit float, as its IEEE-754 bit pattern.
    Float(u32),
    String(String),
    Blob(Vec<u8>),
}

/// An OSC argument as a plain value.
pub enum OscValue {
    Int(i32),
    Float(u32),
    Str(Seq<char>),
    Blob(Seq<u8>),
}

impl OscArg {
    /// The argument as a plain value.
    pub open spec fn value(self) -> OscValue {
        match self {
            OscArg::Int(v) => OscValue::Int(v),
            OscArg::Float(b) => OscValue::Float(b),
            OscArg::String(s) => OscValue::Str(s@),
            OscArg::Blob(d) => OscValue::Blob(d@),
        }
    }
}

/// The plain values of a sequence of arguments.
pub open spec fn values_of(args: Seq<OscArg>) -> Seq<OscValue> {
    args.map_values(|a: OscArg| a.value())
}

/// A single OSC message: an address pattern and arguments.
#[derive(Debug, Clone)]
pub struct OscMessage {
    pub address: String,
    pub args: Vec<OscArg>,
}

/// An OSC bundle: messages with a timetag.
#[derive(Debug, Clone)]
pub struct OscBundle {
    pub timetag: u64,
    pub messages: Vec<OscMessage>,
}

/// A top-level OSC packet.
#[derive(Debug, Clone)]
pub enum OscPacket {
    Message(OscMessage),
    Bundle(OscBundle),
}

impl OscMessage {
    /// A message with `address` and `args`.
    pub fn new(address: &str, args: Vec<OscArg>) -> (m: Self)
        ensures
            m.address@ == address@,
            m.args == args,
    {
        OscMessage { address: String::from_str(address), args }
    }
}

// ── wire format, as plain values ───────────────────────────────────────

/// `n` rounded up to a multiple of four.
pub open spec fn pad_len(n: nat) -> nat {
    ((n + 3) / 4 * 4) as nat
}

/// `n` zero bytes.
pub open spec fn zeros(n: nat) -> Seq<u8> {
    Seq::new(n, |i: int| 0u8)
}

/// An OSC string: UTF-8 bytes, a terminating zero, and zeros up to a multiple of four.
pub open spec fn osc_string_bytes(s: Seq<char>) -> Seq<u8> {
    let b = encode_utf8(s);
    b + zeros((pad_len(b.len() + 1) - b.len()) as nat)
}

/// The four big-endian bytes of `v`.
pub open spec fn be32(v: u32) -> Seq<u8> {
    seq![(v / 16777216) as u8, ((v / 65536) % 256) as u8, ((v / 256) % 256) as u8, (v % 256) as u8]
}

/// The big-endian value of the four bytes at `pos`.
pub open spec fn be32_at(data: Seq<u8>, pos: int) -> u32 {
    (data[pos] * 16777216 + data[pos + 1] * 65536 + data[pos + 2] * 256 + data[pos + 3]) as u32
}

/// The type tag character of an argument.
pub open spec fn tag_char(v: OscValue) -> char {
    match v {
        OscValue::Int(_) => 'i',
        OscValue::Float(_) => 'f',
        OscValue::Str(_) => 's',
        OscValue::Blob(_) => 'b',
    }
}

/// The type tag string of a list of arguments: a comma, then one tag per argument.
pub open spec fn typetag(args: Seq<OscValue>) -> Seq<char> {
    seq![','] + args.map_values(|v: OscValue| tag_char(v))
}

/// The wire bytes of one argument.
pub open spec fn arg_bytes(v: OscValue) -> Seq<u8> {
    match v {
        OscValue::Int(x) => be32(x as u32),
        OscValue::Float(b) => be32(b),
        OscValue::Str(s) => osc_string_bytes(s),
        OscValue::Blob(d) => be32(d.len() as u32) + d + zeros((pad_len(d.len()) - d.len()) as nat),
    }
}

/// The wire bytes of a list of arguments, in order.
pub open spec fn args_bytes(args: Seq<OscValue>) -> Seq<u8>
    decreases args.len(),
{
    if args.len() == 0 {
        Seq::empty()
    } else {
        arg_bytes(args[0]) + args_bytes(args.drop_first())
    }
}

/// The wire bytes of a message: address, type tag string, arguments.
pub open spec fn message_bytes(address: Seq<char>, args: Seq<OscValue>) -> Seq<u8> {
    osc_string_bytes(address) + osc_string_bytes(typetag(args)) + args_bytes(args)
}

// ── parsing, as plain values ───────────────────────────────────────────

/// Outcome of reading an OSC string.
pub enum ReadOutcome {
    /// The characters and the aligned position after the terminating zero.
    Read(Seq<char>, int),
    Unterminated,
    BadUtf8,
}

/// Outcome of parsing a message.
pub enum OscParse {
    Parsed(Seq<char>, Seq<OscValue>),
    Failed(Seq<char>),
    BadUtf8,
}

/// Whether a zero byte occurs in `data` at or after `start`.
pub open spec fn has_nul_from(data: Seq<u8>, start: int) -> bool {
    exists|i: int| start <= i < data.len() && data[i] == 0
}

/// The first zero byte at or after `start` (meaningful when one exists).
pub open spec fn first_nul_from(data: Seq<u8>, start: int) -> int {
    choose|i: int| start <= i < data.len() && data[i] == 0 && forall|j: int| start <= j < i ==> data[j] != 0
}

/// Reading an OSC string that starts at `pos`.
#[verifier::opaque]
pub open spec fn spec_read_string(data: Seq<u8>, pos: int) -> ReadOutcome {
    if pos < 0 || !has_nul_from(data, pos) {
        ReadOutcome::Unterminated
    } else {
        let end = first_nul_from(data, pos);
        let bytes = data.subrange(pos, end);
        if !valid_utf8(bytes) {
            ReadOutcome::BadUtf8
        } else {
            ReadOutcome::Read(decode_utf8(bytes), pad_len((end + 1) as nat) as int)
        }
    }
}

/// Outcome of reading one argument.
pub enum StepOutcome {
    /// The argument and the position after it.
    Next(OscValue, int),
    Failed(Seq<char>),
    BadUtf8,
}

/// Reading one argument with type tag `c` at byte `pos`.
#[verifier::opaque]
pub open spec fn spec_step(data: Seq<u8>, c: char, pos: int) -> StepOutcome {
    if c == 'i' {
        if pos + 4 > data.len() {
            StepOutcome::Failed("truncated int arg"@)
        } else {
            StepOutcome::Next(OscValue::Int(be32_at(data, pos) as i32), pos + 4)
        }
    } else if c == 'f' {
        if pos + 4 > data.len() {
            StepOutcome::Failed("truncated float arg"@)
        } else {
            StepOutcome::Next(OscValue::Float(be32_at(data, pos)), pos + 4)
        }
    } else if c == 's' {
        match spec_read_string(data, pos) {
            ReadOutcome::Read(s, next) => StepOutcome::Next(OscValue::Str(s), next),
            ReadOutcome::Unterminated => StepOutcome::Failed("unterminated OSC string"@),
            ReadOutcome::BadUtf8 => StepOutcome::BadUtf8,
        }
    } else if c == 'b' {
        if pos + 4 > data.len() {
            StepOutcome::Failed("truncated blob size"@)
        } else {
            let blen = (be32_at(data, pos) as i32) as int;
            let p = pos + 4;
            if blen < 0 || p + blen > data.len() {
                StepOutcome::Failed("truncated blob data"@)
            } else {
                StepOutcome::Next(OscValue::Blob(data.subrange(p, p + blen)), p + pad_len(blen as nat))
            }
        }
    } else {
        StepOutcome::Failed("unsupported OSC type tag: "@ + seq![c])
    }
}

/// Parsing the arguments whose tags start at index `k` of `tags`, from byte `pos`,
/// with `acc` parsed so far.
#[verifier::opaque]
pub open spec fn spec_parse_args(
    data: Seq<u8>,
    address: Seq<char>,
    tags: Seq<char>,
    k: int,
    pos: int,
    acc: Seq<OscValue>,
) -> OscParse
    decreases tags.len() - k,
{
    if k < 0 || k >= tags.len() {
        OscParse::Parsed(address, acc)
    } else {
        match spec_step(data, tags[k], pos) {
            StepOutcome::Next(v, next) => spec_parse_args(data, address, tags, k + 1, next, acc.push(v)),
            StepOutcome::Failed(t) => OscParse::Failed(t),
            StepOutcome::BadUtf8 => OscParse::BadUtf8,
        }
    }
}

/// One step of `spec_parse_args`.
pub proof fn lemma_parse_args_unfold(
    data: Seq<u8>,
    address: Seq<char>,
    tags: Seq<char>,
    k: int,
    pos: int,
    acc: Seq<OscValue>,
)
    ensures
        spec_parse_args(data, address, tags, k, pos, acc) == (if k < 0 || k >= tags.len() {
            OscParse::Parsed(address, acc)
        } else {
            match spec_step(data, tags[k], pos) {
                StepOutcome::Next(v, next) => spec_parse_args(data, address, tags, k + 1, next, acc.push(v)),
                StepOutcome::Failed(t) => OscParse::Failed(t),
                StepOutcome::BadUtf8 => OscParse::BadUtf8,
            }
        }),
{
    reveal(spec_parse_args);
}

/// Parsing a whole message.
pub open spec fn spec_parse_message(data: Seq<u8>) -> OscParse {
    match spec_read_string(data, 0) {
        ReadOutcome::Unterminated => OscParse::Failed("unterminated OSC string"@),
        ReadOutcome::BadUtf8 => OscParse::BadUtf8,
        ReadOutcome::Read(address, p1) => match spec_read_string(data, p1) {
            ReadOutcome::Unterminated => OscParse::Failed("unterminated OSC string"@),
            ReadOutcome::BadUtf8 => OscParse::BadUtf8,
            ReadOutcome::Read(tags, p2) => {
                if tags.len() == 0 || tags[0] != ',' {
                    OscParse::Failed("invalid type tag: missing comma prefix"@)
                } else {
                    spec_parse_args(data, address, tags, 1, p2, Seq::empty())
                }
            },
        },
    }
}

// ── serialization ─────────────────────────────────────────────────────

/// `len` rounded up to the next multiple of four.
pub fn pad4(len: usize) -> (r: usize)
    requires
        len + 3 <= usize::MAX,
    ensures
        r == pad_len(len as nat),
{
    (len + 3) / 4 * 4
}

fn push_bytes(buf: &mut Vec<u8>, data: &[u8])
    ensures
        final(buf)@ == old(buf)@ + data@,
{
    let mut i: usize = 0;
    while i < data.len()
        invariant
            i <= data@.len(),
            buf@ == old(buf)@ + data@.subrange(0, i as int),
        decreases data@.len() - i,
    {
        buf.push(data[i]);
        i = i + 1;
        assert(data@.subrange(0, i as int) =~= data@.subrange(0, i - 1).push(data@[i - 1]));
        assert(buf@ =~= old(buf)@ + data@.subrange(0, i as int));
    }
    assert(data@.subrange(0, data@.len() as int) =~= data@);
}

fn pad_zeros(buf: &mut Vec<u8>)
    ensures
        final(buf)@ == old(buf)@ + zeros((pad_len(old(buf)@.len()) - old(buf)@.len()) as nat),
{
    let ghost start = buf@;
    while buf.len() % 4 != 0
        invariant
            buf@.len() <= pad_len(start.len()),
            buf@ == start + zeros((buf@.len() - start.len()) as nat),
            buf@.len() >= start.len(),
            buf@.len() <= start.len() + 3,
        decreases pad_len(start.len()) - buf@.len(),
    {
        let ghost before = buf@;
        buf.push(0);
        assert(buf@ =~= start + zeros((buf@.len() - start.len()) as nat));
    }
}

/// Padding an aligned prefix and a tail pads the tail alone.
proof fn lemma_pad_shift(a: nat, n: nat)
    requires
        a % 4 == 0,
    ensures
        pad_len(a + n) == a + pad_len(n),
{
}

/// Appends `s` as an OSC string.
fn write_osc_string(buf: &mut Vec<u8>, s: &str)
    requires
        old(buf)@.len() % 4 == 0,
    ensures
        final(buf)@ == old(buf)@ + osc_string_bytes(s@),
{
    let bytes = s.as_bytes();
    push_bytes(buf, bytes);
    buf.push(0);
    let ghost mid = buf@;
    pad_zeros(buf);
    proof {
        let b = encode_utf8(s@);
        assert(bytes@ == b);
        assert(mid == old(buf)@ + b + seq![0u8]);
        lemma_pad_shift(old(buf)@.len(), b.len() + 1);
        assert(buf@ =~= old(buf)@ + osc_string_bytes(s@));
    }
}

/// Appends the four big-endian bytes of `v`.
fn write_be32(buf: &mut Vec<u8>, v: u32)
    ensures
        final(buf)@ == old(buf)@ + be32(v),
{
    buf.push((v / 16777216) as u8);
    buf.push(((v / 65536) % 256) as u8);
    buf.push(((v / 256) % 256) as u8);
    buf.push((v % 256) as u8);
    assert(buf@ =~= old(buf)@ + be32(v));
}

/// Appends a blob: its size, its bytes, and zeros up to a multiple of four.
fn write_osc_blob(buf: &mut Vec<u8>, data: &[u8])
    requires
        old(buf)@.len() % 4 == 0,
    ensures
        final(buf)@ == old(buf)@ + be32(data@.len() as u32) + data@
            + zeros((pad_len(data@.len()) - data@.len()) as nat),
{
    #[verifier::truncate]
    let size = data.len() as u32;
    write_be32(buf, size);
    push_bytes(buf, data);
    let ghost mid = buf@;
    proof {
        lemma_pad_shift((old(buf)@.len() + 4) as nat, data@.len());
    }
    pad_zeros(buf);
}

fn tag_str(arg: &OscArg) -> (s: &'static str)
    ensures
        s@ == seq![tag_char(arg.value())],
{
    proof {
        reveal_strlit("i");
        reveal_strlit("f");
        reveal_strlit("s");
        reveal_strlit("b");
    }
    match arg {
        OscArg::Int(_) => "i",
        OscArg::Float(_) => "f",
        OscArg::String(_) => "s",
        OscArg::Blob(_) => "b",
    }
}

/// Splitting the argument list before position `k` splits its bytes.
proof fn lemma_args_bytes_split(args: Seq<OscValue>, k: int)
    requires
        0 <= k <= args.len(),
    ensures
        args_bytes(args) == args_bytes(args.take(k)) + args_bytes(args.skip(k)),
    decreases k,
{
    if k == 0 {
        assert(args.take(0) =~= Seq::<OscValue>::empty());
        assert(args.skip(0) =~= args);
    } else {
        lemma_args_bytes_split(args.drop_first(), k - 1);
        assert(args.take(k).drop_first() =~= args.drop_first().take(k - 1));
        assert(args.drop_first().skip(k - 1) =~= args.skip(k));
        assert(args.take(k)[0] == args[0]);
    }
}

/// The bytes of the first `k + 1` arguments are those of the first `k`, then argument `k`.
proof fn lemma_args_bytes_step(args: Seq<OscValue>, k: int)
    requires
        0 <= k < args.len(),
    ensures
        args_bytes(args.take(k + 1)) == args_bytes(args.take(k)) + arg_bytes(args[k]),
{
    let t = args.take(k + 1);
    lemma_args_bytes_split(t, k);
    assert(t.take(k) =~= args.take(k));
    assert(t.skip(k) =~= seq![args[k]]);
    assert(seq![args[k]].drop_first() =~= Seq::<OscValue>::empty());
    assert(args_bytes(Seq::<OscValue>::empty()) == Seq::<u8>::empty());
    assert(args_bytes(seq![args[k]]) == arg_bytes(seq![args[k]][0]) + args_bytes(seq![args[k]].drop_first()));
    assert(args_bytes(seq![args[k]]) =~= arg_bytes(args[k]));
}

/// A padded length is a multiple of four and at least the length.
proof fn lemma_pad_len(n: nat)
    ensures
        pad_len(n) % 4 == 0,
        n <= pad_len(n) <= n + 3,
{
}

/// An argument's bytes have a length that is a multiple of four.
proof fn lemma_arg_bytes_aligned(v: OscValue)
    ensures
        arg_bytes(v).len() % 4 == 0,
{
    match v {
        OscValue::Str(s) => {
            lemma_pad_len(encode_utf8(s).len() + 1);
        },
        OscValue::Blob(d) => {
            lemma_pad_len(d.len());
        },
        _ => {},
    }
}

/// Every argument's bytes have a length that is a multiple of four.
proof fn lemma_args_bytes_aligned(args: Seq<OscValue>)
    ensures
        args_bytes(args).len() % 4 == 0,
    decreases args.len(),
{
    if args.len() > 0 {
        lemma_args_bytes_aligned(args.drop_first());
        lemma_arg_bytes_aligned(args[0]);
    }
}

impl OscMessage {
    /// The message as plain values: address and arguments.
    pub open spec fn parts(self) -> (Seq<char>, Seq<OscValue>) {
        (self.address@, values_of(self.args@))
    }

    /// Serializes the message to the OSC wire format.
    pub fn to_bytes(&self) -> (bytes: Vec<u8>)
        ensures
            bytes@ == message_bytes(self.address@, values_of(self.args@)),
    {
        let mut buf: Vec<u8> = Vec::new();
        write_osc_string(&mut buf, self.address.as_str());
        let mut tag = String::from_str(",");
        proof {
            reveal_strlit(",");
            assert(tag@ =~= typetag(values_of(self.args@).take(0)));
        }
        let mut i: usize = 0;
        while i < self.args.len()
            invariant
                i <= self.args@.len(),
                tag@ == typetag(values_of(self.args@).take(i as int)),
            decreases self.args@.len() - i,
        {
            tag.append(tag_str(&self.args[i]));
            i = i + 1;
            assert(tag@ =~= typetag(values_of(self.args@).take(i as int)));
        }
        assert(values_of(self.args@).take(self.args@.len() as int) =~= values_of(self.args@));
        let ghost after_tag = buf@.len();
        proof {
            assert(buf@.len() % 4 == 0);
        }
        write_osc_string(&mut buf, tag.as_str());
        let ghost head = buf@;
        proof {
            assert(head.len() % 4 == 0);
        }
        let mut i: usize = 0;
        while i < self.args.len()
            invariant
                i <= self.args@.len(),
                head.len() % 4 == 0,
                buf@ == head + args_bytes(values_of(self.args@).take(i as int)),
            decreases self.args@.len() - i,
        {
            proof {
                lemma_args_bytes_aligned(values_of(self.args@).take(i as int));
                lemma_args_bytes_step(values_of(self.args@), i as int);
            }
            let ghost before = buf@;
            match &self.args[i] {
                OscArg::Int(v) => {
                    #[verifier::truncate]
                    let bits = *v as u32;
                    write_be32(&mut buf, bits);
                },
                OscArg::Float(b) => write_be32(&mut buf, *b),
                OscArg::String(s) => write_osc_string(&mut buf, s.as_str()),
                OscArg::Blob(d) => write_osc_blob(&mut buf, d.as_slice()),
            }
            assert(buf@ =~= head + args_bytes(values_of(self.args@).take(i + 1)));
            i = i + 1;
        }
        assert(values_of(self.args@).take(self.args@.len() as int) =~= values_of(self.args@));
        buf
    }
}

// ── deserialization ───────────────────────────────────────────────────

/// The text every invalid UTF-8 error starts with.
pub open spec fn utf8_error_prefix() -> Seq<char> {
    "invalid UTF-8 in OSC string: "@
}

/// Reads the OSC string at `*pos`, leaving `*pos` aligned after its terminating zero.
fn read_osc_string(data: &[u8], pos: &mut usize) -> (r: Result<String, String>)
    requires
        *old(pos) <= data@.len() + 3,
        data@.len() + 8 <= usize::MAX,
    ensures
        spec_read_string(data@, *old(pos) as int) matches ReadOutcome::Read(s, next)
            ==> (r matches Ok(x) && x@ == s && *final(pos) == next && next <= data@.len() + 3),
        spec_read_string(data@, *old(pos) as int) is Unterminated
            ==> (r matches Err(e) && e@ == "unterminated OSC string"@),
        spec_read_string(data@, *old(pos) as int) is BadUtf8
            ==> (r matches Err(e) && e@.len() >= utf8_error_prefix().len()
                && e@.subrange(0, utf8_error_prefix().len() as int) == utf8_error_prefix()),
{
    reveal(spec_read_string);
    let start = *pos;
    while *pos < data.len() && data[*pos] != 0
        invariant
            start <= *pos,
            start <= data@.len() ==> *pos <= data@.len(),
            start > data@.len() ==> *pos == start,
            forall|j: int| start <= j < *pos ==> data@[j] != 0,
        decreases data@.len() + 3 - *pos,
    {
        *pos = *pos + 1;
    }
    if *pos >= data.len() {
        proof {
            reveal_strlit("unterminated OSC string");
            assert(!has_nul_from(data@, start as int)) by {
                if has_nul_from(data@, start as int) {
                    let i = choose|i: int| start <= i < data@.len() && data@[i] == 0;
                    assert(data@[i] != 0);
                }
            }
        }
        return Err(String::from_str("unterminated OSC string"));
    }
    let end = *pos;
    proof {
        assert(has_nul_from(data@, start as int));
        let w = first_nul_from(data@, start as int);
        assert(start <= w < data@.len() && data@[w] == 0 && forall|j: int| start <= j < w ==> data@[j] != 0);
        if w < end {
        } else if w > end {
            assert(data@[end as int] != 0);
        }
        assert(w == end);
    }
    let bytes = slice_subrange(data, start, end);
    match string_from_utf8(bytes) {
        Ok(s) => {
            *pos = pad4(end + 1);
            Ok(s)
        },
        Err(e) => {
            let msg = join2("invalid UTF-8 in OSC string: ", e.as_str());
            proof {
                assert(msg@.subrange(0, utf8_error_prefix().len() as int) =~= utf8_error_prefix());
            }
            Err(msg)
        },
    }
}

/// The big-endian value of the four bytes at `pos`.
fn read_be32(data: &[u8], pos: usize) -> (v: u32)
    requires
        pos + 4 <= data@.len(),
    ensures
        v == be32_at(data@, pos as int),
{
    (data[pos] as u32) * 16777216 + (data[pos + 1] as u32) * 65536 + (data[pos + 2] as u32) * 256 + (data[pos + 3] as u32)
}

/// Reads one argument with type tag `ch` (given as the one-character string `tag`) at `*pos`.
fn read_arg(data: &[u8], ch: char, tag: &str, pos: &mut usize) -> (r: Result<OscArg, String>)
    requires
        *old(pos) <= data@.len() + 3,
        data@.len() + 8 <= usize::MAX,
        tag@ == seq![ch],
    ensures
        spec_step(data@, ch, *old(pos) as int) matches StepOutcome::Next(v, next)
            ==> (r matches Ok(a) && a.value() == v && *final(pos) == next && next <= data@.len() + 3),
        spec_step(data@, ch, *old(pos) as int) matches StepOutcome::Failed(t)
            ==> (r matches Err(e) && e@ == t),
        spec_step(data@, ch, *old(pos) as int) is BadUtf8
            ==> (r matches Err(e) && e@.len() >= utf8_error_prefix().len()
                && e@.subrange(0, utf8_error_prefix().len() as int) == utf8_error_prefix()),
{
    reveal(spec_step);
    let start = *pos;
    if ch == 'i' {
        if start > data.len() || data.len() - start < 4 {
            proof { reveal_strlit("truncated int arg"); }
            return Err(String::from_str("truncated int arg"));
        }
        #[verifier::truncate]
        let v = read_be32(data, start) as i32;
        *pos = start + 4;
        Ok(OscArg::Int(v))
    } else if ch == 'f' {
        if start > data.len() || data.len() - start < 4 {
            proof { reveal_strlit("truncated float arg"); }
            return Err(String::from_str("truncated float arg"));
        }
        let v = read_be32(data, start);
        *pos = start + 4;
        Ok(OscArg::Float(v))
    } else if ch == 's' {
        let s = read_osc_string(data, pos)?;
        Ok(OscArg::String(s))
    } else if ch == 'b' {
        if start > data.len() || data.len() - start < 4 {
            proof { reveal_strlit("truncated blob size"); }
            return Err(String::from_str("truncated blob size"));
        }
        #[verifier::truncate]
        let signed = read_be32(data, start) as i32;
        let p = start + 4;
        if signed < 0 {
            proof { reveal_strlit("truncated blob data"); }
            return Err(String::from_str("truncated blob data"));
        }
        let blen = signed as usize;
        assert(blen as int == (be32_at(data@, start as int) as i32) as int);
        if blen > data.len() - p {
            proof { reveal_strlit("truncated blob data"); }
            return Err(String::from_str("truncated blob data"));
        }
        let bytes = slice_to_vec(slice_subrange(data, p, p + blen));
        *pos = p + pad4(blen);
        Ok(OscArg::Blob(bytes))
    } else {
        Err(join2("unsupported OSC type tag: ", tag))
    }
}

/// Parses the arguments tagged by `typetag` (from its second character on), starting at byte `pos0`.
#[verifier::rlimit(40)]
fn parse_args(data: &[u8], address: &String, typetag: &String, pos0: usize) -> (r: Result<Vec<OscArg>, String>)
    requires
        pos0 <= data@.len() + 3,
        data@.len() + 8 <= usize::MAX,
        typetag@.len() >= 1,
    ensures
        spec_parse_args(data@, address@, typetag@, 1, pos0 as int, Seq::empty()) matches OscParse::Parsed(a, args)
            ==> (r matches Ok(v) && values_of(v@) == args && a == address@),
        spec_parse_args(data@, address@, typetag@, 1, pos0 as int, Seq::empty()) matches OscParse::Failed(t)
            ==> (r matches Err(e) && e@ == t),
        spec_parse_args(data@, address@, typetag@, 1, pos0 as int, Seq::empty()) is BadUtf8
            ==> (r matches Err(e) && e@.len() >= utf8_error_prefix().len()
                && e@.subrange(0, utf8_error_prefix().len() as int) == utf8_error_prefix()),
{
    let n = typetag.unicode_len();
    let mut pos = pos0;
    let mut args: Vec<OscArg> = Vec::new();
    let mut k: usize = 1;
    proof {
        assert(values_of(args@) =~= Seq::<OscValue>::empty());
    }
    while k < n
        invariant
            n == typetag@.len(),
            1 <= k <= n,
            pos <= data@.len() + 3,
            data@.len() + 8 <= usize::MAX,
            spec_parse_args(data@, address@, typetag@, k as int, pos as int, values_of(args@))
                == spec_parse_args(data@, address@, typetag@, 1, pos0 as int, Seq::empty()),
        decreases n - k,
    {
        let ch = typetag.get_char(k);
        let tag = typetag.as_str().substring_char(k, k + 1);
        assert(tag@ =~= seq![ch]);
        let ghost acc = values_of(args@);
        proof {
            lemma_parse_args_unfold(data@, address@, typetag@, k as int, pos as int, acc);
        }
        let arg = match read_arg(data, ch, tag, &mut pos) {
            Ok(a) => a,
            Err(e) => {
                return Err(e);
            },
        };
        args.push(arg);
        proof {
            assert(values_of(args@) =~= acc.push(arg.value()));
        }
        k = k + 1;
    }
    proof {
        lemma_parse_args_unfold(data@, address@, typetag@, k as int, pos as int, values_of(args@));
    }
    Ok(args)
}

impl OscMessage {
    /// Parses a message from the OSC wire format (see `spec_parse_message`). Any
    /// malformed input gives an error; a blob whose declared size is negative, or
    /// runs past the end, is reported as truncated.
    #[verifier::rlimit(40)]
    pub fn from_bytes(data: &[u8]) -> (r: Result<Self, String>)
        requires
            data@.len() + 8 <= usize::MAX,
        ensures
            spec_parse_message(data@) matches OscParse::Parsed(a, args)
                ==> (r matches Ok(m) && m.parts() == (a, args)),
            spec_parse_message(data@) matches OscParse::Failed(t)
                ==> (r matches Err(e) && e@ == t),
            spec_parse_message(data@) is BadUtf8
                ==> (r matches Err(e) && e@.len() >= utf8_error_prefix().len()
                    && e@.subrange(0, utf8_error_prefix().len() as int) == utf8_error_prefix()),
    {
        let mut pos: usize = 0;
        let address = read_osc_string(data, &mut pos)?;
        let typetag = read_osc_string(data, &mut pos)?;
        let n = typetag.unicode_len();
        if n == 0 || typetag.get_char(0) != ',' {
            proof {
                reveal_strlit("invalid type tag: missing comma prefix");
            }
            return Err(String::from_str("invalid type tag: missing comma prefix"));
        }
        let args = parse_args(data, &address, &typetag, pos)?;
        let m = OscMessage { address, args };
        Ok(m)
    }
}

// ── well-known scsynth commands ────────────────────────────────────────

/// Factory methods for common scsynth commands.
pub struct ScynthCmd;

impl ScynthCmd {
    /// Query server status.
    pub fn status() -> (m: OscMessage)
        ensures
            m.parts() == ("/status"@, Seq::<OscValue>::empty()),
    {
        let m = OscMessage::new("/status", Vec::new());
        assert(values_of(m.args@) =~= Seq::<OscValue>::empty());
        m
    }

    /// Quit the server.
    pub fn quit() -> (m: OscMessage)
        ensures
            m.parts() == ("/quit"@, Seq::<OscValue>::empty()),
    {
        let m = OscMessage::new("/quit", Vec::new());
        assert(values_of(m.args@) =~= Seq::<OscValue>::empty());
        m
    }

    /// Register (1) or unregister (0) for replies from the server.
    pub fn notify(on: bool) -> (m: OscMessage)
        ensures
            m.parts() == ("/notify"@, seq![OscValue::Int(if on { 1 } else { 0 })]),
    {
        let flag: i32 = if on { 1 } else { 0 };
        let m = OscMessage::new("/notify", vec![OscArg::Int(flag)]);
        assert(values_of(m.args@) =~= seq![OscValue::Int(flag)]);
        m
    }

    /// Allocate a buffer and read a sound file into it.
    pub fn buffer_alloc_read(buf_num: i32, path: &str) -> (m: OscMessage)
        ensures
            m.parts() == ("/b_allocRead"@, seq![OscValue::Int(buf_num), OscValue::Str(path@)]),
    {
        let m = OscMessage::new("/b_allocRead", vec![OscArg::Int(buf_num), OscArg::String(String::from_str(path))]);
        assert(values_of(m.args@) =~= seq![OscValue::Int(buf_num), OscValue::Str(path@)]);
        m
    }

    /// Free a buffer.
    pub fn buffer_free(buf_num: i32) -> (m: OscMessage)
        ensures
            m.parts() == ("/b_free"@, seq![OscValue::Int(buf_num)]),
    {
        let m = OscMessage::new("/b_free", vec![OscArg::Int(buf_num)]);
        assert(values_of(m.args@) =~= seq![OscValue::Int(buf_num)]);
        m
    }

    /// Create a synth node.
    pub fn synth_new(def_name: &str, node_id: i32, add_action: i32, target_id: i32) -> (m: OscMessage)
        ensures
            m.parts() == ("/s_new"@, seq![OscValue::Str(def_name@), OscValue::Int(node_id),
                OscValue::Int(add_action), OscValue::Int(target_id)]),
    {
        let m = OscMessage::new("/s_new", vec![
            OscArg::String(String::from_str(def_name)),
            OscArg::Int(node_id),
            OscArg::Int(add_action),
            OscArg::Int(target_id),
        ]);
        assert(values_of(m.args@) =~= seq![OscValue::Str(def_name@), OscValue::Int(node_id),
            OscValue::Int(add_action), OscValue::Int(target_id)]);
        m
    }

    /// Set a control of a synth node to a float (given by its bit pattern).
    pub fn node_set(node_id: i32, param: &str, value_bits: u32) -> (m: OscMessage)
        ensures
            m.parts() == ("/n_set"@, seq![OscValue::Int(node_id), OscValue::Str(param@), OscValue::Float(value_bits)]),
    {
        let m = OscMessage::new("/n_set", vec![
            OscArg::Int(node_id),
            OscArg::String(String::from_str(param)),
            OscArg::Float(value_bits),
        ]);
        assert(values_of(m.args@) =~= seq![OscValue::Int(node_id), OscValue::Str(param@), OscValue::Float(value_bits)]);
        m
    }

    /// Free a synth node.
    pub fn node_free(node_id: i32) -> (m: OscMessage)
        ensures
            m.parts() == ("/n_free"@, seq![OscValue::Int(node_id)]),
    {
        let m = OscMessage::new("/n_free", vec![OscArg::Int(node_id)]);
        assert(values_of(m.args@) =~= seq![OscValue::Int(node_id)]);
        m
    }

    /// Load a SynthDef file.
    pub fn synthdef_load(path: &str) -> (m: OscMessage)
        ensures
            m.parts() == ("/d_load"@, seq![OscValue::Str(path@)]),
    {
        let m = OscMessage::new("/d_load", vec![OscArg::String(String::from_str(path))]);
        assert(values_of(m.args@) =~= seq![OscValue::Str(path@)]);
        m
    }
}

// ── round trip ─────────────────────────────────────────────────────────

/// No character is NUL.
pub open spec fn no_nul(s: Seq<char>) -> bool {
    forall|i: int| 0 <= i < s.len() ==> s[i] != '\0'
}

/// An argument that the wire format carries faithfully: strings without NUL and
/// blobs whose size fits a signed 32-bit count.
pub open spec fn encodable(v: OscValue) -> bool {
    match v {
        OscValue::Str(s) => no_nul(s),
        OscValue::Blob(d) => d.len() <= i32::MAX,
        _ => true,
    }
}

/// A message that the wire format carries faithfully.
pub open spec fn message_encodable(address: Seq<char>, args: Seq<OscValue>) -> bool {
    no_nul(address) && forall|i: int| 0 <= i < args.len() ==> encodable(#[trigger] args[i])
}

proof fn lemma_scalar_no_zero(c: char)
    requires
        c != '\0',
    ensures
        forall|i: int| 0 <= i < encode_scalar(c as u32).len() ==> #[trigger] encode_scalar(c as u32)[i] != 0u8,
{
    char_is_scalar(c);
    let v = c as u32;
    assert(v != 0);
    assert(forall|x: u8| (0xC0u8 | x) != 0u8) by (bit_vector);
    assert(forall|x: u8| (0x80u8 | x) != 0u8) by (bit_vector);
    assert(forall|x: u8| (0xE0u8 | x) != 0u8) by (bit_vector);
    assert(forall|x: u8| (0xF0u8 | x) != 0u8) by (bit_vector);
    if has_width_1_encoding(v) {
        assert((v & 0x7F) as u8 != 0u8) by (bit_vector)
            requires
                1u32 <= v <= 0x7Fu32;
    }
}

/// The UTF-8 bytes of characters without NUL hold no zero byte.
proof fn lemma_encode_no_zero(s: Seq<char>)
    requires
        no_nul(s),
    ensures
        forall|i: int| 0 <= i < encode_utf8(s).len() ==> #[trigger] encode_utf8(s)[i] != 0u8,
    decreases s.len(),
{
    if s.len() > 0 {
        lemma_scalar_no_zero(s[0]);
        lemma_encode_no_zero(s.drop_first());
        let a = encode_scalar(s[0] as u32);
        let b = encode_utf8(s.drop_first());
        assert forall|i: int| 0 <= i < encode_utf8(s).len() implies encode_utf8(s)[i] != 0u8 by {
            if i < a.len() {
                assert(encode_utf8(s)[i] == a[i]);
            } else {
                assert(encode_utf8(s)[i] == b[i - a.len()]);
            }
        }
    }
}

/// Reading back an OSC string written at an aligned position.
proof fn lemma_read_string_back(prefix: Seq<u8>, s: Seq<char>, rest: Seq<u8>)
    requires
        prefix.len() % 4 == 0,
        no_nul(s),
    ensures
        spec_read_string(prefix + osc_string_bytes(s) + rest, prefix.len() as int)
            == ReadOutcome::Read(s, (prefix.len() + osc_string_bytes(s).len()) as int),
{
    reveal(spec_read_string);
    let data = prefix + osc_string_bytes(s) + rest;
    let b = encode_utf8(s);
    let p = prefix.len() as int;
    let e = p + b.len();
    lemma_encode_no_zero(s);
    lemma_pad_len(b.len() + 1);
    assert(data[e] == 0u8);
    assert forall|j: int| p <= j < e implies data[j] != 0u8 by {
        assert(data[j] == b[j - p]);
    }
    assert(has_nul_from(data, p));
    let w = first_nul_from(data, p);
    assert(p <= w < data.len() && data[w] == 0 && forall|j: int| p <= j < w ==> data[j] != 0);
    if w < e {
    } else if w > e {
        assert(data[e] != 0);
    }
    assert(w == e);
    assert(data.subrange(p, e) =~= b);
    encode_utf8_valid_utf8(s);
    encode_utf8_decode_utf8(s);
    lemma_pad_shift(prefix.len(), b.len() + 1);
}

/// Reading back four big-endian bytes written at `prefix.len()`.
proof fn lemma_be32_back(prefix: Seq<u8>, v: u32, rest: Seq<u8>)
    ensures
        be32_at(prefix + be32(v) + rest, prefix.len() as int) == v,
{
    let data = prefix + be32(v) + rest;
    let p = prefix.len() as int;
    assert(data[p] == (v / 16777216) as u8);
    assert(data[p + 1] == ((v / 65536) % 256) as u8);
    assert(data[p + 2] == ((v / 256) % 256) as u8);
    assert(data[p + 3] == (v % 256) as u8);
    assert(v / 16777216 < 256);
    assert(((v / 16777216) as u8) as int == v / 16777216);
    assert((((v / 65536) % 256) as u8) as int == (v / 65536) % 256);
    assert((((v / 256) % 256) as u8) as int == (v / 256) % 256);
    assert(((v % 256) as u8) as int == v % 256);
    assert((v / 16777216) * 16777216 + ((v / 65536) % 256) * 65536 + ((v / 256) % 256) * 256 + v % 256 == v);
}

proof fn lemma_i32_bits(x: i32)
    ensures
        ((x as u32) as i32) == x,
{
    assert(((x as u32) as i32) == x) by (bit_vector);
}

proof fn lemma_u32_of_small(n: nat)
    requires
        n <= i32::MAX,
    ensures
        (((n as u32) as i32) as int) == n,
{
    let m = n as u32;
    assert(m as int == n);
    assert(m <= 0x7fff_ffffu32);
    assert(m <= 0x7fff_ffffu32 ==> (m as i32) as int == m as int) by (bit_vector);
}

proof fn lemma_step_int(data: Seq<u8>, pos: int)
    requires
        0 <= pos,
        pos + 4 <= data.len(),
    ensures
        spec_step(data, 'i', pos) == StepOutcome::Next(OscValue::Int(be32_at(data, pos) as i32), pos + 4),
{
    reveal(spec_step);
}

proof fn lemma_step_float(data: Seq<u8>, pos: int)
    requires
        0 <= pos,
        pos + 4 <= data.len(),
    ensures
        spec_step(data, 'f', pos) == StepOutcome::Next(OscValue::Float(be32_at(data, pos)), pos + 4),
{
    reveal(spec_step);
}

proof fn lemma_step_str(data: Seq<u8>, pos: int, s: Seq<char>, next: int)
    requires
        spec_read_string(data, pos) == ReadOutcome::Read(s, next),
    ensures
        spec_step(data, 's', pos) == StepOutcome::Next(OscValue::Str(s), next),
{
    reveal(spec_step);
}

proof fn lemma_step_blob(data: Seq<u8>, pos: int, n: nat)
    requires
        0 <= pos,
        pos + 4 + n <= data.len(),
        ((be32_at(data, pos) as i32) as int) == n,
    ensures
        spec_step(data, 'b', pos) == StepOutcome::Next(OscValue::Blob(data.subrange(pos + 4, pos + 4 + n)), pos + 4 + pad_len(n)),
{
    reveal(spec_step);
}

/// Parsing back one argument written at an aligned position.
proof fn lemma_step_back(prefix: Seq<u8>, v: OscValue, rest: Seq<u8>)
    requires
        prefix.len() % 4 == 0,
        encodable(v),
    ensures
        spec_step(prefix + arg_bytes(v) + rest, tag_char(v), prefix.len() as int)
            == StepOutcome::Next(v, (prefix.len() + arg_bytes(v).len()) as int),
{
    let data = prefix + arg_bytes(v) + rest;
    let p = prefix.len() as int;
    match v {
        OscValue::Int(x) => {
            lemma_be32_back(prefix, x as u32, rest);
            lemma_i32_bits(x);
            lemma_step_int(data, p);
        },
        OscValue::Float(b) => {
            lemma_be32_back(prefix, b, rest);
            lemma_step_float(data, p);
        },
        OscValue::Str(s) => {
            lemma_read_string_back(prefix, s, rest);
            lemma_step_str(data, p, s, (prefix.len() + arg_bytes(v).len()) as int);
        },
        OscValue::Blob(d) => {
            let tail = d + zeros((pad_len(d.len()) - d.len()) as nat) + rest;
            assert(data =~= prefix + be32(d.len() as u32) + tail);
            lemma_be32_back(prefix, d.len() as u32, tail);
            lemma_u32_of_small(d.len());
            lemma_pad_len(d.len());
            lemma_step_blob(data, p, d.len());
            assert(data.subrange(p + 4, p + 4 + d.len()) =~= d);
        },
    }
}

proof fn lemma_split_at(data: Seq<u8>, pos: int, x: Seq<u8>, rest: Seq<u8>)
    requires
        0 <= pos <= data.len(),
        data.subrange(pos, data.len() as int) == x + rest,
    ensures
        data == data.subrange(0, pos) + x + rest,
        data.subrange(pos + x.len(), data.len() as int) == rest,
{
    assert(data =~= data.subrange(0, pos) + data.subrange(pos, data.len() as int));
    assert(data =~= data.subrange(0, pos) + x + rest);
    assert(data.subrange(pos + x.len(), data.len() as int) =~= rest);
}

proof fn lemma_args_bytes_skip(args: Seq<OscValue>, j: int)
    requires
        0 <= j < args.len(),
    ensures
        args_bytes(args.skip(j)) == arg_bytes(args[j]) + args_bytes(args.skip(j + 1)),
{
    assert(args.skip(j)[0] == args[j]);
    assert(args.skip(j).drop_first() =~= args.skip(j + 1));
}

proof fn lemma_typetag_at(args: Seq<OscValue>, j: int)
    requires
        0 <= j < args.len(),
    ensures
        typetag(args)[j + 1] == tag_char(args[j]),
        typetag(args).len() == args.len() + 1,
{
}

/// Parsing back the arguments from position `j` on.
#[verifier::rlimit(30)]
proof fn lemma_parse_args_back(data: Seq<u8>, address: Seq<char>, args: Seq<OscValue>, j: int, pos: int)
    requires
        0 <= j <= args.len(),
        forall|i: int| 0 <= i < args.len() ==> encodable(#[trigger] args[i]),
        0 <= pos <= data.len(),
        pos % 4 == 0,
        data.subrange(pos, data.len() as int) == args_bytes(args.skip(j)),
    ensures
        spec_parse_args(data, address, typetag(args), j + 1, pos, args.take(j)) == OscParse::Parsed(address, args),
    decreases args.len() - j,
{
    let tags = typetag(args);
    lemma_parse_args_unfold(data, address, tags, j + 1, pos, args.take(j));
    if j == args.len() {
        assert(tags.len() == args.len() + 1);
        assert(args.take(j) =~= args);
    } else {
        let v = args[j];
        lemma_typetag_at(args, j);
        lemma_args_bytes_skip(args, j);
        let rest = args_bytes(args.skip(j + 1));
        lemma_split_at(data, pos, arg_bytes(v), rest);
        lemma_step_back(data.subrange(0, pos), v, rest);
        lemma_arg_bytes_aligned(v);
        let next = pos + arg_bytes(v).len();
        assert(args.take(j).push(v) =~= args.take(j + 1));
        lemma_parse_args_back(data, address, args, j + 1, next);
    }
}

/// A type tag string holds no NUL.
proof fn lemma_typetag_no_nul(args: Seq<OscValue>)
    ensures
        no_nul(typetag(args)),
{
    assert forall|i: int| 0 <= i < typetag(args).len() implies typetag(args)[i] != '\0' by {
        if i > 0 {
            assert(typetag(args)[i] == tag_char(args[i - 1]));
        }
    }
}

/// Parsing the bytes of a message gives the message back, when its strings hold no
/// NUL and its blobs fit a signed 32-bit size.
pub proof fn lemma_osc_roundtrip(address: Seq<char>, args: Seq<OscValue>)
    requires
        message_encodable(address, args),
    ensures
        spec_parse_message(message_bytes(address, args)) == OscParse::Parsed(address, args),
{
    let data = message_bytes(address, args);
    let a = osc_string_bytes(address);
    let t = osc_string_bytes(typetag(args));
    let rest = args_bytes(args);
    lemma_read_string_back(Seq::empty(), address, t + rest);
    assert(Seq::<u8>::empty() + a + (t + rest) =~= data);
    lemma_pad_len(encode_utf8(address).len() + 1);
    lemma_typetag_no_nul(args);
    lemma_read_string_back(a, typetag(args), rest);
    assert(a + t + rest =~= data);
    lemma_pad_len(encode_utf8(typetag(args)).len() + 1);
    let pos = (a.len() + t.len()) as int;
    assert(data.subrange(pos, data.len() as int) =~= rest);
    assert(args.skip(0) =~= args);
    assert(typetag(args)[0] == ',');
    lemma_parse_args_back(data, address, args, 0, pos);
    assert(args.take(0) =~= Seq::<OscValue>::empty());
}

} // verus!

