//! The panel's line protocol: one command byte and a newline per message
//! inbound, one status byte and a newline per message outbound.

use vstd::prelude::*;
use bytes::BytesMut;

verus! {

#[verifier::external_type_specification]
#[verifier::external_body]
pub struct ExBytesMut(bytes::BytesMut);

/// The bytes that a `BytesMut` holds, in order.
pub uninterp spec fn bytes_of(b: BytesMut) -> Seq<u8>;

/// Relies on `BytesMut::len`: the number of bytes held.
#[verifier::external_body]
fn buf_len(b: &BytesMut) -> (r: usize)
    ensures
        r == bytes_of(*b).len(),
{
    b.len()
}

/// Relies on `BytesMut`'s `Deref` to `[u8]`: the slice is the bytes held.
#[verifier::external_body]
fn buf_byte(b: &BytesMut, i: usize) -> (r: u8)
    requires
        i < bytes_of(*b).len(),
    ensures
        r == bytes_of(*b)[i as int],
{
    b[i]
}

/// Relies on `BytesMut::split_to`: the first `at` bytes are handed back and
/// the rest stay. It panics when `at` exceeds the length.
#[verifier::external_body]
fn buf_split_to(b: &mut BytesMut, at: usize) -> (r: BytesMut)
    requires
        at <= bytes_of(*old(b)).len(),
    ensures
        bytes_of(r) == bytes_of(*old(b)).take(at as int),
        bytes_of(*final(b)) == bytes_of(*old(b)).skip(at as int),
{
    b.split_to(at)
}

/// Relies on `BufMut::put_u8` for `BytesMut`, which appends one byte.
#[verifier::external_body]
fn buf_put_u8(b: &mut BytesMut, v: u8)
    ensures
        bytes_of(*final(b)) == bytes_of(*old(b)).push(v),
{
    bytes::BufMut::put_u8(b, v)
}

pub const NEWLINE: u8 = 0x0a;

pub const TAG_NEXT: u8 = 0x6e;

pub const TAG_PREV: u8 = 0x70;

pub const TAG_SLEEP: u8 = 0x73;

/// The status byte; both signals share it, as the panel cannot tell them apart.
pub const TAG_LIGHTS: u8 = 0x62;

/// A command sent by the panel.
#[derive(Clone, Copy, Debug, PartialEq, Eq, Structural)]
pub enum Command {
    Next,
    Prev,
    Sleep,
}

/// Which of the panel's buttons should be lit.
#[derive(Clone, Copy, Debug, PartialEq, Eq, Structural)]
pub enum PanelSignal {
    StartOnly,
    Both,
}

pub open spec fn command_of_byte(b: u8) -> Option<Command> {
    if b == TAG_NEXT {
        Some(Command::Next)
    } else if b == TAG_PREV {
        Some(Command::Prev)
    } else if b == TAG_SLEEP {
        Some(Command::Sleep)
    } else {
        None
    }
}

/// The command of a line, given its bytes before the newline: the last one
/// decides, and an empty line gives none.
pub open spec fn line_command(content: Seq<u8>) -> Option<Command> {
    if content.len() == 0 {
        None
    } else {
        command_of_byte(content.last())
    }
}

pub open spec fn is_first_newline(s: Seq<u8>, n: int) -> bool {
    &&& 0 <= n < s.len()
    &&& s[n] == NEWLINE
    &&& forall|j: int| 0 <= j < n ==> s[j] != NEWLINE
}

/// Index of the first newline of `s`, or -1 where there is none.
pub open spec fn first_newline(s: Seq<u8>) -> int {
    if exists|n: int| is_first_newline(s, n) {
        choose|n: int| is_first_newline(s, n)
    } else {
        -1
    }
}

/// What one decoding step returns on the buffer `s`.
pub open spec fn decode_result(s: Seq<u8>) -> Option<Command> {
    let n = first_newline(s);
    if n < 0 {
        None
    } else {
        line_command(s.take(n))
    }
}

/// What one decoding step leaves in the buffer `s`: all after the first
/// newline, or all of it where there is no complete line.
pub open spec fn after_decode(s: Seq<u8>) -> Seq<u8> {
    let n = first_newline(s);
    if n < 0 {
        s
    } else {
        s.skip(n + 1)
    }
}

pub open spec fn option_seq(c: Option<Command>) -> Seq<Command> {
    match c {
        Some(x) => seq![x],
        None => seq![],
    }
}

/// The commands of all complete lines of `s`, in order.
pub open spec fn commands_of(s: Seq<u8>) -> Seq<Command>
    decreases s.len(),
{
    let n = first_newline(s);
    if n < 0 || n >= s.len() {
        seq![]
    } else {
        option_seq(line_command(s.take(n))) + commands_of(s.skip(n + 1))
    }
}

/// The bytes after the last newline of `s`: an incomplete line.
pub open spec fn remainder(s: Seq<u8>) -> Seq<u8>
    decreases s.len(),
{
    let n = first_newline(s);
    if n < 0 || n >= s.len() {
        s
    } else {
        remainder(s.skip(n + 1))
    }
}

pub open spec fn signal_byte(sig: PanelSignal) -> u8 {
    match sig {
        PanelSignal::StartOnly => TAG_LIGHTS,
        PanelSignal::Both => TAG_LIGHTS,
    }
}

proof fn lemma_first_newline_is(s: Seq<u8>, n: int)
    requires
        is_first_newline(s, n),
    ensures
        first_newline(s) == n,
{
    let m = choose|m: int| is_first_newline(s, m);
    assert(is_first_newline(s, m));
    if m < n {
        assert(s[m] != NEWLINE);
    } else if n < m {
        assert(s[n] != NEWLINE);
    }
}

proof fn lemma_no_newline(s: Seq<u8>)
    requires
        forall|j: int| 0 <= j < s.len() ==> s[j] != NEWLINE,
    ensures
        first_newline(s) == -1,
{
    if exists|n: int| is_first_newline(s, n) {
        let n = choose|n: int| is_first_newline(s, n);
        assert(s[n] == NEWLINE);
    }
}

proof fn lemma_first_newline_range(s: Seq<u8>)
    ensures
        first_newline(s) == -1 || is_first_newline(s, first_newline(s)),
{
}

/// The commands produced when the bytes of `s` arrive one at a time after
/// `pending`, every complete line being decoded as soon as its newline is in.
pub open spec fn fed_bytewise(pending: Seq<u8>, s: Seq<u8>) -> Seq<Command>
    decreases s.len(),
{
    if s.len() == 0 {
        seq![]
    } else {
        let p = pending.push(s[0]);
        commands_of(p) + fed_bytewise(remainder(p), s.skip(1))
    }
}

proof fn lemma_first_newline_append(a: Seq<u8>, b: Seq<u8>)
    requires
        first_newline(a) >= 0,
    ensures
        first_newline(a + b) == first_newline(a),
{
    lemma_first_newline_range(a);
    let n = first_newline(a);
    assert(is_first_newline(a + b, n)) by {
        assert forall|j: int| 0 <= j < n implies (a + b)[j] != NEWLINE by {
            assert((a + b)[j] == a[j]);
        }
    }
    lemma_first_newline_is(a + b, n);
}

/// Splitting a byte stream in two anywhere changes nothing: the commands of
/// the whole are those of the first part followed by those of its incomplete
/// tail joined with the second part, and the same bytes are left over.
pub proof fn lemma_split_anywhere(a: Seq<u8>, b: Seq<u8>)
    ensures
        commands_of(a + b) == commands_of(a) + commands_of(remainder(a) + b),
        remainder(a + b) == remainder(remainder(a) + b),
    decreases a.len(),
{
    lemma_first_newline_range(a);
    let n = first_newline(a);
    if n < 0 {
        assert(commands_of(a) =~= seq![]);
        assert(commands_of(a) + commands_of(remainder(a) + b) =~= commands_of(a + b));
    } else {
        lemma_first_newline_append(a, b);
        let rest = a.skip(n + 1);
        assert((a + b).skip(n + 1) =~= rest + b);
        assert((a + b).take(n) =~= a.take(n));
        lemma_split_anywhere(rest, b);
        assert(commands_of(a + b) =~= option_seq(line_command(a.take(n))) + commands_of(rest
            + b));
        assert(commands_of(a) + commands_of(remainder(a) + b) =~= option_seq(
            line_command(a.take(n)),
        ) + (commands_of(rest) + commands_of(remainder(rest) + b)));
    }
}

/// Feeding a byte stream one byte at a time yields the same commands as
/// decoding it whole, when what was pending holds no complete line.
pub proof fn lemma_bytewise_from(pending: Seq<u8>, s: Seq<u8>)
    requires
        first_newline(pending) < 0,
    ensures
        fed_bytewise(pending, s) == commands_of(pending + s),
    decreases s.len(),
{
    if s.len() == 0 {
        assert(pending + s =~= pending);
        assert(commands_of(pending) =~= seq![]);
    } else {
        let p = pending.push(s[0]);
        lemma_remainder_has_no_line(p);
        lemma_bytewise_from(remainder(p), s.skip(1));
        lemma_split_anywhere(p, s.skip(1));
        assert(p + s.skip(1) =~= pending + s);
    }
}

proof fn lemma_remainder_has_no_line(s: Seq<u8>)
    ensures
        first_newline(remainder(s)) < 0,
    decreases s.len(),
{
    lemma_first_newline_range(s);
    let n = first_newline(s);
    if n >= 0 {
        lemma_remainder_has_no_line(s.skip(n + 1));
    }
}

/// Feeding a byte stream one byte at a time yields the same commands as
/// decoding the whole buffer at once.
pub proof fn lemma_bytewise_matches_whole(s: Seq<u8>)
    ensures
        fed_bytewise(seq![], s) == commands_of(s),
{
    lemma_no_newline(seq![]);
    lemma_bytewise_from(seq![], s);
    assert(seq![] + s =~= s);
}

/// A line whose last byte before the newline is no command tag gives no
/// command, and decoding it leaves exactly the bytes after that newline.
pub proof fn lemma_unknown_tag_dropped(line: Seq<u8>, rest: Seq<u8>)
    requires
        forall|j: int| 0 <= j < line.len() ==> line[j] != NEWLINE,
        line.len() == 0 || command_of_byte(line.last()) is None,
    ensures
        decode_result(line.push(NEWLINE) + rest) is None,
        after_decode(line.push(NEWLINE) + rest) == rest,
{
    let s = line.push(NEWLINE) + rest;
    let n = line.len() as int;
    assert(is_first_newline(s, n)) by {
        assert forall|j: int| 0 <= j < n implies s[j] != NEWLINE by {
            assert(s[j] == line[j]);
        }
    }
    lemma_first_newline_is(s, n);
    assert(s.take(n) =~= line);
    assert(s.skip(n + 1) =~= rest);
}

/// Decoder of the panel's inbound lines and encoder of its status lines.
pub struct LineCodec;

impl LineCodec {
    /// Takes the first complete line off `src` and returns its command, if it
    /// has one. Where `src` holds no newline, nothing is taken.
    pub fn decode(&mut self, src: &mut BytesMut) -> (r: Option<Command>)
        ensures
            r == decode_result(bytes_of(*old(src))),
            bytes_of(*final(src)) == after_decode(bytes_of(*old(src))),
    {
        let len = buf_len(src);
        let mut i: usize = 0;
        while i < len
            invariant
                *src == *old(src),
                len == bytes_of(*src).len(),
                i <= len,
                forall|j: int| 0 <= j < i ==> bytes_of(*src)[j] != NEWLINE,
            decreases len - i,
        {
            if buf_byte(src, i) == NEWLINE {
                proof {
                    lemma_first_newline_is(bytes_of(*src), i as int);
                }
                let line = buf_split_to(src, i + 1);
                if i == 0 {
                    return None;
                }
                let tag = buf_byte(&line, i - 1);
                return if tag == TAG_NEXT {
                    Some(Command::Next)
                } else if tag == TAG_PREV {
                    Some(Command::Prev)
                } else if tag == TAG_SLEEP {
                    Some(Command::Sleep)
                } else {
                    None
                };
            }
            i += 1;
        }
        proof {
            lemma_no_newline(bytes_of(*src));
        }
        None
    }

    /// Takes lines off `src` up to and including the first one that carries a
    /// command, and returns that command. Lines without one are dropped. Where
    /// no complete line carries a command, all complete lines are taken and
    /// `None` comes back.
    pub fn decode_next(&mut self, src: &mut BytesMut) -> (r: Option<Command>)
        ensures
            r == (if commands_of(bytes_of(*old(src))).len() == 0 {
                None::<Command>
            } else {
                Some(commands_of(bytes_of(*old(src)))[0])
            }),
            commands_of(bytes_of(*final(src))) == (if commands_of(bytes_of(*old(src))).len()
                == 0 {
                commands_of(bytes_of(*old(src)))
            } else {
                commands_of(bytes_of(*old(src))).drop_first()
            }),
            remainder(bytes_of(*final(src))) == remainder(bytes_of(*old(src))),
            bytes_of(*final(src)).len() <= bytes_of(*old(src)).len(),
            bytes_of(*final(src)) == bytes_of(*old(src)).skip(
                bytes_of(*old(src)).len() - bytes_of(*final(src)).len(),
            ),
    {
        loop
            invariant
                bytes_of(*src).len() <= bytes_of(*old(src)).len(),
                bytes_of(*src) == bytes_of(*old(src)).skip(
                    bytes_of(*old(src)).len() - bytes_of(*src).len(),
                ),
                commands_of(bytes_of(*src)) == commands_of(bytes_of(*old(src))),
                remainder(bytes_of(*src)) == remainder(bytes_of(*old(src))),
            decreases bytes_of(*src).len(),
        {
            let before = buf_len(src);
            let ghost s = bytes_of(*src);
            proof {
                lemma_first_newline_range(s);
            }
            let r = self.decode(src);
            assert(bytes_of(*src) =~= bytes_of(*old(src)).skip(
                bytes_of(*old(src)).len() - bytes_of(*src).len(),
            ));
            match r {
                Some(c) => {
                    return Some(c);
                },
                None => {
                    if buf_len(src) == before {
                        return None;
                    }
                },
            }
        }
    }

    /// Appends the status line of `item` to `dst`.
    pub fn encode(&mut self, item: PanelSignal, dst: &mut BytesMut)
        ensures
            bytes_of(*final(dst)) == bytes_of(*old(dst)) + seq![signal_byte(item), NEWLINE],
    {
        let tag = match item {
            PanelSignal::Both => TAG_LIGHTS,
            PanelSignal::StartOnly => TAG_LIGHTS,
        };
        buf_put_u8(dst, tag);
        buf_put_u8(dst, NEWLINE);
        assert(bytes_of(*final(dst)) =~= bytes_of(*old(dst)) + seq![signal_byte(item), NEWLINE]);
    }
}

} // verus!
