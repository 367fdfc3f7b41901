//! The kitty graphics protocol, as the three things rav says in it.
//!
//! An enum rather than a builder, so the combinations that mean nothing cannot
//! be written down: there is no way to ask for a delete with a width, or to
//! transmit a frame and forget its size.
//!
//! The frame itself never travels through an escape sequence. It is written to a
//! file and the *path* is the payload - base64 by the protocol's rules, because
//! the payload shares a channel with the escape that ends it.

use vstd::prelude::*;
use vstd::string::StringExecFns;
use vstd::string::StringSliceAdditionalSpecFns;
use crate::strings::{decimal, push_decimal};

verus! {

/// The image id every frame is sent under: one, reused, so the terminal does
/// not keep every frame it has ever been sent.
pub const IMAGE_ID: u32 = 1;

/// The base64 symbol for a six-bit value.
pub open spec fn sextet_char(v: int) -> char {
    if v < 26 {
        (65 + v) as char
    } else if v < 52 {
        (97 + (v - 26)) as char
    } else if v < 62 {
        (48 + (v - 52)) as char
    } else if v == 62 {
        '+'
    } else {
        '/'
    }
}

/// Byte `i` of `b`, or zero past its end: the padding a short last group gets.
pub open spec fn byte_or_zero(b: Seq<u8>, i: int) -> int {
    if 0 <= i < b.len() { b[i] as int } else { 0 }
}

/// The 24 bits of the `g`th group of three bytes.
pub open spec fn group_bits(b: Seq<u8>, g: int) -> int {
    byte_or_zero(b, 3 * g) * 65536 + byte_or_zero(b, 3 * g + 1) * 256 + byte_or_zero(b, 3 * g + 2)
}

/// The `p`th six-bit slice, from the top, of the 24 bits `n`.
pub open spec fn sextet(n: int, p: int) -> int {
    if p == 0 {
        n / 262144
    } else if p == 1 {
        (n / 4096) % 64
    } else if p == 2 {
        (n / 64) % 64
    } else {
        n % 64
    }
}

/// Symbol `k` of the encoding of `b`: a data symbol where the group reaches,
/// `=` padding where it does not.
pub open spec fn base64_symbol(b: Seq<u8>, k: int) -> char {
    let g = k / 4;
    let p = k % 4;
    if 3 * g + p <= b.len() {
        sextet_char(sextet(group_bits(b, g), p))
    } else {
        '='
    }
}

/// Standard base64 with `=` padding: four symbols for every three bytes begun.
pub open spec fn base64(b: Seq<u8>) -> Seq<char> {
    Seq::new((((b.len() + 2) / 3) * 4) as nat, |k: int| base64_symbol(b, k))
}

/// Whether `c` is one of the characters base64 is written in.
pub open spec fn is_base64_char(c: char) -> bool {
    ('A' <= c <= 'Z') || ('a' <= c <= 'z') || ('0' <= c <= '9') || c == '+' || c == '/' || c == '='
}

/// Something small enough to travel inside an escape sequence.
///
/// Base64 because the protocol says so. No frame is ever one of these.
#[derive(Debug, Clone, PartialEq, Eq)]
pub struct Payload(String);

impl Payload {
    /// The encoded text.
    pub closed spec fn text(self) -> Seq<char> {
        self.0@
    }

    /// A path to a staged frame, given as its text.
    ///
    /// Encoded rather than written out, because a path may hold a `,` or a `;`
    /// and the terminal would read those as more of the command.
    pub fn path(path: &str) -> (payload: Self)
        ensures
            payload.text() == base64(path.spec_bytes()),
    {
        Payload(encode(path.as_bytes()))
    }

    /// Raw bytes - only ever a handful, for the query below.
    pub fn bytes(raw: &[u8]) -> (payload: Self)
        ensures
            payload.text() == base64(raw@),
    {
        Payload(encode(raw))
    }

    pub fn as_str(&self) -> (text: &str)
        ensures
            text@ == self.text(),
    {
        self.0.as_str()
    }
}

/// One thing rav says to the terminal.
#[derive(Debug, Clone, PartialEq, Eq)]
pub enum Command<'a> {
    /// Draw a frame that has been staged where the terminal can read it.
    ///
    /// `frame` is the path of the staged file, as text. `bytes` is how much to
    /// read: a file does not carry its own length, so without it the terminal
    /// reads nothing, draws nothing, and reports success.
    Draw { frame: &'a str, bytes: usize, width: u32, height: u32 },
    /// Ask whether images are supported at all. Draws nothing either way.
    Ask,
    /// Take every image off the screen.
    Erase,
}

/// An APC string: `ESC _ G`, the body, `ESC \`.
pub open spec fn apc(body: Seq<char>) -> Seq<char> {
    "\x1b_G"@ + body + "\x1b\\"@
}

/// What a command says between the escape's opening and its end.
pub open spec fn command_body(command: Command) -> Seq<char> {
    match command {
        Command::Draw { frame, bytes, width, height } => "a=T,q=2,i="@ + decimal(IMAGE_ID as nat)
            + ",f=32,s="@ + decimal(width as nat) + ",v="@ + decimal(height as nat)
            + ",z=0,C=1,S="@ + decimal(bytes as nat) + ",t=t;"@ + base64(frame.spec_bytes()),
        Command::Ask => "i="@ + decimal(IMAGE_ID as nat) + ",s=1,v=1,a=q,t=d,f=24;"@ + base64(
            seq![0u8, 0u8, 0u8],
        ),
        Command::Erase => "a=d,d=A"@,
    }
}

impl Command<'_> {
    /// The escape sequence, ready to write.
    pub fn escape(&self) -> (out: String)
        ensures
            out@ == apc(command_body(*self)),
    {
        let mut out = String::from_str("\x1b_G");
        match self {
            Command::Draw { frame, bytes, width, height } => {
                // `q=2` silences the acknowledgement, `z=0` keeps the frame
                // above every cell's background, `C=1` leaves the cursor alone.
                out.append("a=T,q=2,i=");
                push_decimal(&mut out, IMAGE_ID as u64);
                out.append(",f=32,s=");
                push_decimal(&mut out, *width as u64);
                out.append(",v=");
                push_decimal(&mut out, *height as u64);
                out.append(",z=0,C=1,S=");
                push_decimal(&mut out, *bytes as u64);
                out.append(",t=t;");
                let payload = Payload::path(frame);
                out.append(payload.as_str());
            },
            Command::Ask => {
                // One opaque pixel, transmitted directly and only queried, so
                // there is nothing to stage and nothing appears.
                out.append("i=");
                push_decimal(&mut out, IMAGE_ID as u64);
                out.append(",s=1,v=1,a=q,t=d,f=24;");
                let pixel: [u8; 3] = [0u8, 0u8, 0u8];
                let payload = Payload::bytes(pixel.as_slice());
                proof {
                    assert(pixel@ =~= seq![0u8, 0u8, 0u8]);
                }
                out.append(payload.as_str());
            },
            Command::Erase => {
                out.append("a=d,d=A");
            },
        }
        out.append("\x1b\\");
        proof {
            assert(out@ =~= apc(command_body(*self)));
        }
        out
    }
}

/// The base64 symbol for a six-bit value.
fn symbol(v: u32) -> (c: char)
    requires
        v < 64,
    ensures
        c == sextet_char(v as int),
{
    if v < 26 {
        (65u8 + v as u8) as char
    } else if v < 52 {
        (97u8 + (v - 26) as u8) as char
    } else if v < 62 {
        (48u8 + (v - 52) as u8) as char
    } else if v == 62 {
        '+'
    } else {
        '/'
    }
}

/// The four symbols a group of `left` bytes (at most three of them count)
/// with bits `bits` is written as.
pub open spec fn group_text(bits: int, left: int) -> Seq<char> {
    seq![
        sextet_char(sextet(bits, 0)),
        sextet_char(sextet(bits, 1)),
        if left >= 2 { sextet_char(sextet(bits, 2)) } else { '=' },
        if left >= 3 { sextet_char(sextet(bits, 3)) } else { '=' },
    ]
}

/// Append the four symbols of one group.
fn push_group(out: &mut String, bits: u32, left: usize)
    requires
        bits < 16777216,
    ensures
        final(out)@ == old(out)@ + group_text(bits as int, left as int),
{
    out.push(symbol(bits / 262144));
    out.push(symbol((bits / 4096) % 64));
    if left >= 2 {
        out.push(symbol((bits / 64) % 64));
    } else {
        out.push('=');
    }
    if left >= 3 {
        out.push(symbol(bits % 64));
    } else {
        out.push('=');
    }
    proof {
        assert(final(out)@ =~= old(out)@ + group_text(bits as int, left as int));
    }
}

/// The encoding of `b`, up to and including group `g`, is the encoding up to
/// group `g` followed by that group's four symbols.
proof fn lemma_next_group(b: Seq<u8>, g: int)
    requires
        0 <= g,
        3 * g < b.len(),
    ensures
        4 * g + 4 <= base64(b).len(),
        base64(b).take(4 * g + 4) == base64(b).take(4 * g) + group_text(
            group_bits(b, g),
            b.len() - 3 * g,
        ),
{
    let total = base64(b);
    assert(((b.len() + 2) / 3) * 4 >= 4 * g + 4);
    let tail = group_text(group_bits(b, g), b.len() - 3 * g);
    assert forall|k: int| 4 * g <= k < 4 * g + 4 implies #[trigger] total[k] == tail[k - 4 * g] by {
        assert(k / 4 == g);
        assert(k % 4 == k - 4 * g);
    }
    assert(total.take(4 * g + 4) =~= total.take(4 * g) + tail);
}

/// Standard base64, padded with `=`.
pub fn encode(bytes: &[u8]) -> (out: String)
    ensures
        out@ == base64(bytes@),
{
    let mut out = String::new();
    let n = bytes.len();
    let mut i: usize = 0;
    while i < n
        invariant
            n == bytes@.len(),
            i % 3 == 0,
            i <= n + 2,
            out@ == base64(bytes@).take(((i / 3) * 4) as int),
        decreases n + 3 - i,
    {
        let b0: u32 = bytes[i] as u32;
        let b1: u32 = if i + 1 < n { bytes[i + 1] as u32 } else { 0 };
        let b2: u32 = if i + 2 < n { bytes[i + 2] as u32 } else { 0 };
        let bits: u32 = b0 * 65536 + b1 * 256 + b2;
        let left: usize = n - i;
        let ghost g: int = (i / 3) as int;
        proof {
            assert(bits as int == group_bits(bytes@, g));
            lemma_next_group(bytes@, g);
        }
        push_group(&mut out, bits, left);
        i = if left >= 3 { i + 3 } else { n + (3 - left) };
        proof {
            assert(i / 3 == g + 1);
        }
    }
    proof {
        assert(base64(bytes@).len() == (i / 3) * 4);
        assert(out@ =~= base64(bytes@));
    }
    out
}

/// Every character of an encoding is a base64 symbol, so nothing in it - a `,`,
/// a `;`, an escape - can be read by the terminal as part of the command.
pub proof fn lemma_base64_is_inert(b: Seq<u8>)
    ensures
        forall|k: int| 0 <= k < base64(b).len() ==> is_base64_char(#[trigger] base64(b)[k]),
{
    assert forall|k: int| 0 <= k < base64(b).len() implies is_base64_char(#[trigger] base64(b)[k]) by {
        let g = k / 4;
        let p = k % 4;
        let n = group_bits(b, g);
        assert(0 <= n < 16777216);
        assert(0 <= sextet(n, p) < 64);
    }
}

/// Every command is a complete APC string: it opens with `ESC _ G` and is
/// terminated with `ESC \`, so the terminal never reads what follows it as part
/// of it.
pub proof fn lemma_every_command_is_terminated(command: Command)
    ensures
        apc(command_body(command)).take(3) == seq!['\x1b', '_', 'G'],
        apc(command_body(command)).skip(apc(command_body(command)).len() - 2) == seq!['\x1b', '\\'],
{
    reveal_strlit("\x1b_G");
    reveal_strlit("\x1b\\");
    let body = command_body(command);
    assert(apc(body).take(3) =~= seq!['\x1b', '_', 'G']);
    assert(apc(body).skip(apc(body).len() - 2) =~= seq!['\x1b', '\\']);
}

} // verus!
