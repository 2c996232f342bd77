use vstd::prelude::*;

verus! {

/// Byte that ends a line.
pub const NEWLINE: u8 = 10;

/// Byte that a peer sends to say it is gone.
pub const NUL: u8 = 0;

/// Relies on `String::push`: the character is appended at the end.
pub assume_specification[ String::push ](s: &mut String, ch: char)
    ensures
        final(s)@ == old(s)@.push(ch),
;

/// The text of a line: every byte stands for the character with the same code.
pub open spec fn decode(bytes: Seq<u8>) -> Seq<char> {
    bytes.map_values(|b: u8| b as char)
}

pub open spec fn is_terminator(b: u8) -> bool {
    b == NEWLINE || b == NUL
}

/// `i` is the position of the first newline or NUL byte of `bytes`.
pub open spec fn first_terminator(bytes: Seq<u8>, i: int) -> bool {
    &&& 0 <= i < bytes.len()
    &&& is_terminator(bytes[i])
    &&& forall|j: int| 0 <= j < i ==> !is_terminator(#[trigger] bytes[j])
}

/// No newline or NUL byte has arrived yet.
pub open spec fn unterminated(bytes: Seq<u8>) -> bool {
    forall|j: int| 0 <= j < bytes.len() ==> !is_terminator(#[trigger] bytes[j])
}

/// The buffered bytes begin with a line cut short by a NUL byte.
pub open spec fn closes(bytes: Seq<u8>) -> bool {
    exists|i: int| first_terminator(bytes, i) && bytes[i] == NUL
}

/// The buffered bytes begin with the complete line `line`, followed by `rest`.
pub open spec fn splits_line(bytes: Seq<u8>, line: Seq<char>, rest: Seq<u8>) -> bool {
    exists|i: int|
        first_terminator(bytes, i) && bytes[i] == NEWLINE && line == decode(bytes.take(i))
            && rest == bytes.skip(i + 1)
}

/// Some terminator at or before `i` is the first one.
proof fn lemma_first_terminator_exists(bytes: Seq<u8>, i: int)
    requires
        0 <= i < bytes.len(),
        is_terminator(bytes[i]),
    ensures
        exists|k: int| k <= i && first_terminator(bytes, k),
    decreases i,
{
    if exists|j: int| 0 <= j < i && is_terminator(bytes[j]) {
        let j = choose|j: int| 0 <= j < i && is_terminator(bytes[j]);
        lemma_first_terminator_exists(bytes, j);
    } else {
        assert(first_terminator(bytes, i));
    }
}

/// A NUL byte that arrives before any newline ends the stream: the bytes in
/// front of it are never handed out as a line.
pub proof fn lemma_nul_sentinel(bytes: Seq<u8>, i: int)
    requires
        0 <= i < bytes.len(),
        bytes[i] == NUL,
        forall|j: int| 0 <= j < i ==> bytes[j] != NEWLINE,
    ensures
        closes(bytes),
        forall|line: Seq<char>, rest: Seq<u8>| !splits_line(bytes, line, rest),
{
    lemma_first_terminator_exists(bytes, i);
    let k = choose|k: int| k <= i && first_terminator(bytes, k);
    assert(bytes[k] == NUL);
    assert forall|line: Seq<char>, rest: Seq<u8>| !splits_line(bytes, line, rest) by {
        if splits_line(bytes, line, rest) {
            let m = choose|m: int|
                first_terminator(bytes, m) && bytes[m] == NEWLINE && line == decode(bytes.take(m))
                    && rest == bytes.skip(m + 1);
            if m < k {
                assert(!is_terminator(bytes[m]));
            } else if k < m {
                assert(!is_terminator(bytes[k]));
            }
        }
    }
}

/// What the framer makes of the bytes received so far.
#[derive(Debug, PartialEq, Eq)]
pub enum LineEvent {
    /// A complete line, without its newline.
    Line(String),
    /// The peer sent a NUL byte: the stream has ended abnormally.
    Closed,
    /// No complete line yet.
    Pending,
}

/// Accumulates bytes of a stream and cuts them into lines.
pub struct LineFramer {
    buf: Vec<u8>,
}

impl View for LineFramer {
    type V = Seq<u8>;

    /// The bytes received and not yet handed out as a line.
    closed spec fn view(&self) -> Seq<u8> {
        self.buf@
    }
}

impl LineFramer {
    pub fn new() -> (r: LineFramer)
        ensures
            r@ == Seq::<u8>::empty(),
    {
        LineFramer { buf: Vec::new() }
    }

    /// Appends freshly read bytes to the buffer.
    pub fn feed(&mut self, input: &[u8])
        ensures
            final(self)@ == old(self)@ + input@,
    {
        let mut k: usize = 0;
        while k < input.len()
            invariant
                k <= input@.len(),
                self@ == old(self)@ + input@.take(k as int),
            decreases input@.len() - k,
        {
            self.buf.push(input[k]);
            k = k + 1;
            assert(input@.take(k as int) == input@.take(k - 1).push(input@[k - 1]));
        }
        assert(input@.take(k as int) == input@);
    }

    /// Takes the first line out of the buffer. A NUL byte met before any
    /// newline closes the stream; the buffer is then kept, so that every later
    /// call reports the closure again.
    pub fn next_line(&mut self) -> (r: LineEvent)
        ensures
            match r {
                LineEvent::Line(line) => splits_line(old(self)@, line@, final(self)@),
                LineEvent::Closed => closes(old(self)@) && final(self)@ == old(self)@,
                LineEvent::Pending => unterminated(old(self)@) && final(self)@ == old(self)@,
            },
    {
        let n = self.buf.len();
        let mut i: usize = 0;
        let mut line = String::new();
        while i < n
            invariant
                n == self.buf@.len(),
                self@ == old(self)@,
                i <= n,
                forall|j: int| 0 <= j < i ==> !is_terminator(#[trigger] self.buf@[j]),
                line@ == decode(self.buf@.take(i as int)),
            decreases n - i,
        {
            let b = self.buf[i];
            if b == NUL {
                assert(first_terminator(self.buf@, i as int));
                return LineEvent::Closed;
            }
            if b == NEWLINE {
                assert(first_terminator(self.buf@, i as int));
                let mut rest: Vec<u8> = Vec::new();
                let mut k: usize = i + 1;
                while k < n
                    invariant
                        n == self.buf@.len(),
                        i < k <= n,
                        rest@ == self.buf@.subrange(i + 1, k as int),
                    decreases n - k,
                {
                    rest.push(self.buf[k]);
                    k = k + 1;
                    assert(rest@ == self.buf@.subrange(i + 1, k as int));
                }
                let ghost whole = self.buf@;
                self.buf = rest;
                assert(self@ == whole.skip(i + 1));
                return LineEvent::Line(line);
            }
            line.push(b as char);
            i = i + 1;
            assert(self.buf@.take(i as int) == self.buf@.take(i - 1).push(b));
            assert(decode(self.buf@.take(i as int)) == decode(self.buf@.take(i - 1)).push(
                b as char,
            ));
        }
        LineEvent::Pending
    }
}

/// Hands freshly read bytes to the framer and takes out the next line.
pub fn read_line(framer: &mut LineFramer, input: &[u8]) -> (r: LineEvent)
    ensures
        match r {
            LineEvent::Line(line) => splits_line(old(framer)@ + input@, line@, final(framer)@),
            LineEvent::Closed => closes(old(framer)@ + input@) && final(framer)@ == old(framer)@
                + input@,
            LineEvent::Pending => unterminated(old(framer)@ + input@) && final(framer)@ == old(
                framer,
            )@ + input@,
        },
{
    framer.feed(input);
    framer.next_line()
}

} // verus!
