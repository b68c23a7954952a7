//! Cutting a byte stream into lines, whatever terminator style it uses.

use vstd::prelude::*;

verus! {

/// The terminator that closed a line of output.
#[derive(Clone, Copy, Debug, PartialEq, Eq, Structural)]
pub enum LineEnding {
    /// Line feed (`\n`, `0x0a`).
    Lf,
    /// Carriage return (`\r`, `0x0d`) that no line feed follows.
    Cr,
    /// Carriage return directly followed by a line feed.
    Crlf,
}

impl LineEnding {
    /// True if and only if `self` is a line feed.
    pub fn is_line_feed(&self) -> (b: bool)
        ensures
            b == (*self == LineEnding::Lf),
    {
        matches!(self, LineEnding::Lf)
    }

    /// True if and only if `self` is a lone carriage return.
    pub fn is_carriage_return(&self) -> (b: bool)
        ensures
            b == (*self == LineEnding::Cr),
    {
        matches!(self, LineEnding::Cr)
    }

    /// True if and only if `self` is a carriage return followed by a line feed.
    pub fn is_carriage_return_line_feed(&self) -> (b: bool)
        ensures
            b == (*self == LineEnding::Crlf),
    {
        matches!(self, LineEnding::Crlf)
    }
}

/// The byte `\n`.
pub const LINE_FEED: u8 = 10;

/// The byte `\r`.
pub const CARRIAGE_RETURN: u8 = 13;

/// Whether `b` can end a line.
pub open spec fn is_terminator(b: u8) -> bool {
    b == LINE_FEED || b == CARRIAGE_RETURN
}

/// The position of the first terminator byte of `s` at or after `from`, or
/// the length of `s` if there is none.
pub open spec fn first_terminator(s: Seq<u8>, from: int) -> int
    decreases s.len() - from,
{
    if from >= s.len() {
        s.len() as int
    } else if is_terminator(s[from]) {
        from
    } else {
        first_terminator(s, from + 1)
    }
}

/// The style of the terminator that starts at position `n` of `s`: a line
/// feed is `Lf`, a carriage return with a line feed right behind it is
/// `Crlf`, and any other carriage return is `Cr`.
pub open spec fn ending_at(s: Seq<u8>, n: int) -> LineEnding {
    if s[n] == LINE_FEED {
        LineEnding::Lf
    } else if n + 1 < s.len() && s[n + 1] == LINE_FEED {
        LineEnding::Crlf
    } else {
        LineEnding::Cr
    }
}

/// The first line of the complete stream `s`, without its terminator.
///
/// An empty stream has no line. A stream without any terminator is a single
/// line, reported as ended by a line feed.
pub open spec fn next_line(s: Seq<u8>) -> Option<(LineEnding, Seq<u8>)> {
    let n = first_terminator(s, 0);
    if n < s.len() {
        Some((ending_at(s, n), s.take(n)))
    } else if s.len() > 0 {
        Some((LineEnding::Lf, s))
    } else {
        None
    }
}

/// How many bytes of the complete stream `s` its first line takes up,
/// terminator included.
pub open spec fn next_line_len(s: Seq<u8>) -> int {
    let n = first_terminator(s, 0);
    if n < s.len() {
        if ending_at(s, n) == LineEnding::Crlf {
            n + 2
        } else {
            n + 1
        }
    } else {
        s.len() as int
    }
}

/// Whether the first line of `s` is settled by `s` alone, so that no bytes
/// arriving after `s` can change it: `s` holds a terminator, and a carriage
/// return is not its last byte.
pub open spec fn line_decided(s: Seq<u8>) -> bool {
    let n = first_terminator(s, 0);
    n < s.len() && (s[n] == LINE_FEED || n + 1 < s.len())
}

/// All lines of the complete stream `s`, in order.
pub open spec fn lines(s: Seq<u8>) -> Seq<(LineEnding, Seq<u8>)>
    decreases s.len(),
    via lines_decreases
{
    match next_line(s) {
        None => Seq::empty(),
        Some(line) => seq![line] + lines(s.skip(next_line_len(s))),
    }
}

#[via_fn]
proof fn lines_decreases(s: Seq<u8>) {
    lemma_first_terminator(s, 0);
}

/// `first_terminator(s, from)` lies between `from` and the end of `s`, no
/// byte before it is a terminator, and the byte at it is one.
pub proof fn lemma_first_terminator(s: Seq<u8>, from: int)
    requires
        0 <= from <= s.len(),
    ensures
        from <= first_terminator(s, from) <= s.len(),
        forall|i: int| from <= i < first_terminator(s, from) ==> !is_terminator(#[trigger] s[i]),
        first_terminator(s, from) < s.len() ==> is_terminator(s[first_terminator(s, from)]),
    decreases s.len() - from,
{
    if from < s.len() && !is_terminator(s[from]) {
        lemma_first_terminator(s, from + 1);
    }
}

/// A position `n` that no terminator precedes, and that is the end of `s` or
/// holds a terminator, is the first terminator of `s`.
pub proof fn lemma_first_terminator_is(s: Seq<u8>, from: int, n: int)
    requires
        0 <= from <= n <= s.len(),
        forall|i: int| from <= i < n ==> !is_terminator(#[trigger] s[i]),
        n < s.len() ==> is_terminator(s[n]),
    ensures
        first_terminator(s, from) == n,
    decreases n - from,
{
    if from < n {
        lemma_first_terminator_is(s, from + 1, n);
    }
}

/// Once the first line of `s` is decided, it is the first line of every
/// stream that begins with `s`.
pub proof fn lemma_decided_line_is_stable(s: Seq<u8>, rest: Seq<u8>)
    requires
        line_decided(s),
    ensures
        line_decided(s + rest),
        next_line(s + rest) == next_line(s),
        next_line_len(s + rest) == next_line_len(s),
{
    let n = first_terminator(s, 0);
    let t = s + rest;
    lemma_first_terminator(s, 0);
    assert forall|i: int| 0 <= i < n implies !is_terminator(#[trigger] t[i]) by {
        assert(t[i] == s[i]);
    }
    assert(t[n] == s[n]);
    lemma_first_terminator_is(t, 0, n);
    if n + 1 < s.len() {
        assert(t[n + 1] == s[n + 1]);
    }
    assert(t.take(n) =~= s.take(n));
}

/// An empty stream has no line at all.
pub proof fn lemma_empty_stream_has_no_line()
    ensures
        next_line(Seq::<u8>::empty()) is None,
        lines(Seq::<u8>::empty()) == Seq::<(LineEnding, Seq<u8>)>::empty(),
{
}

/// Whether no byte of `s` is a terminator.
pub open spec fn is_line_content(s: Seq<u8>) -> bool {
    forall|i: int| 0 <= i < s.len() ==> !is_terminator(#[trigger] s[i])
}

/// A line feed ends the line before it as `Lf`, whatever follows.
pub proof fn lemma_line_feed_ends_a_line(content: Seq<u8>, rest: Seq<u8>)
    requires
        is_line_content(content),
    ensures
        next_line(content + seq![LINE_FEED] + rest) == Some((LineEnding::Lf, content)),
        next_line_len(content + seq![LINE_FEED] + rest) == content.len() + 1,
        line_decided(content + seq![LINE_FEED]),
{
    let head = content + seq![LINE_FEED];
    let n = content.len() as int;
    assert forall|i: int| 0 <= i < n implies !is_terminator(#[trigger] head[i]) by {
        assert(head[i] == content[i]);
    }
    assert(head[n] == LINE_FEED);
    lemma_first_terminator_is(head, 0, n);
    assert(head.take(n) =~= content);
    lemma_decided_line_is_stable(head, rest);
}

/// A carriage return with a line feed right behind it ends the line before
/// it as `Crlf`, whatever follows. The carriage return alone does not
/// decide the line: whoever has read the stream up to it must see the next
/// byte, so the two bytes may arrive in different pieces.
pub proof fn lemma_crlf_ends_a_line(content: Seq<u8>, rest: Seq<u8>)
    requires
        is_line_content(content),
    ensures
        !line_decided(content + seq![CARRIAGE_RETURN]),
        line_decided(content + seq![CARRIAGE_RETURN] + seq![LINE_FEED]),
        next_line(content + seq![CARRIAGE_RETURN] + seq![LINE_FEED] + rest) == Some(
            (LineEnding::Crlf, content),
        ),
        next_line_len(content + seq![CARRIAGE_RETURN] + seq![LINE_FEED] + rest) == content.len()
            + 2,
{
    let n = content.len() as int;
    let open = content + seq![CARRIAGE_RETURN];
    assert forall|i: int| 0 <= i < n implies !is_terminator(#[trigger] open[i]) by {
        assert(open[i] == content[i]);
    }
    assert(open[n] == CARRIAGE_RETURN);
    lemma_first_terminator_is(open, 0, n);
    let head = open + seq![LINE_FEED];
    assert forall|i: int| 0 <= i < n implies !is_terminator(#[trigger] head[i]) by {
        assert(head[i] == content[i]);
    }
    assert(head[n] == CARRIAGE_RETURN);
    assert(head[n + 1] == LINE_FEED);
    lemma_first_terminator_is(head, 0, n);
    assert(head.take(n) =~= content);
    lemma_decided_line_is_stable(head, rest);
}

/// A carriage return that another byte than a line feed follows ends the
/// line before it as `Cr`, and that byte is the first of what comes next.
pub proof fn lemma_lone_cr_ends_a_line(content: Seq<u8>, follower: u8, rest: Seq<u8>)
    requires
        is_line_content(content),
        follower != LINE_FEED,
    ensures
        next_line(content + seq![CARRIAGE_RETURN] + seq![follower] + rest) == Some(
            (LineEnding::Cr, content),
        ),
        next_line_len(content + seq![CARRIAGE_RETURN] + seq![follower] + rest) == content.len()
            + 1,
        (content + seq![CARRIAGE_RETURN] + seq![follower] + rest).skip(content.len() as int + 1)
            == seq![follower] + rest,
{
    let n = content.len() as int;
    let head = content + seq![CARRIAGE_RETURN] + seq![follower];
    assert forall|i: int| 0 <= i < n implies !is_terminator(#[trigger] head[i]) by {
        assert(head[i] == content[i]);
    }
    assert(head[n] == CARRIAGE_RETURN);
    assert(head[n + 1] == follower);
    lemma_first_terminator_is(head, 0, n);
    assert(head.take(n) =~= content);
    lemma_decided_line_is_stable(head, rest);
    assert((head + rest).skip(n + 1) =~= seq![follower] + rest);
}

/// At the end of the stream, bytes without a terminator are a last line
/// that is reported as ended by a line feed, and a carriage return ends the
/// line before it as `Cr`.
pub proof fn lemma_end_of_stream(content: Seq<u8>)
    requires
        is_line_content(content),
    ensures
        content.len() > 0 ==> next_line(content) == Some((LineEnding::Lf, content)),
        next_line_len(content) == content.len(),
        next_line(content + seq![CARRIAGE_RETURN]) == Some((LineEnding::Cr, content)),
        next_line_len(content + seq![CARRIAGE_RETURN]) == content.len() + 1,
{
    let n = content.len() as int;
    lemma_first_terminator_is(content, 0, n);
    let closed = content + seq![CARRIAGE_RETURN];
    assert forall|i: int| 0 <= i < n implies !is_terminator(#[trigger] closed[i]) by {
        assert(closed[i] == content[i]);
    }
    assert(closed[n] == CARRIAGE_RETURN);
    lemma_first_terminator_is(closed, 0, n);
    assert(closed.take(n) =~= content);
}

/// The bytes of the terminator of the style `ending`.
pub open spec fn terminator_bytes(ending: LineEnding) -> Seq<u8> {
    match ending {
        LineEnding::Lf => seq![LINE_FEED],
        LineEnding::Cr => seq![CARRIAGE_RETURN],
        LineEnding::Crlf => seq![CARRIAGE_RETURN, LINE_FEED],
    }
}

/// The stream that the lines `ls` make when each is written out with its
/// terminator.
pub open spec fn written(ls: Seq<(LineEnding, Seq<u8>)>) -> Seq<u8>
    decreases ls.len(),
{
    if ls.len() == 0 {
        Seq::empty()
    } else {
        ls[0].1 + terminator_bytes(ls[0].0) + written(ls.skip(1))
    }
}

/// The lines of a stream hold every byte of it once and in order: written
/// out again with their terminators they are the stream itself, with a line
/// feed added where the stream ended without a terminator.
pub proof fn lemma_lines_keep_every_byte(s: Seq<u8>)
    ensures
        written(lines(s)) == if s.len() == 0 || is_terminator(s.last()) {
            s
        } else {
            s + seq![LINE_FEED]
        },
    decreases s.len(),
{
    lemma_first_terminator(s, 0);
    let n = first_terminator(s, 0);
    let k = next_line_len(s);
    if s.len() > 0 {
        let line = next_line(s).unwrap();
        let rest = s.skip(k);
        lemma_lines_keep_every_byte(rest);
        assert(lines(s) == seq![line] + lines(rest));
        assert((seq![line] + lines(rest)).skip(1) =~= lines(rest));
        assert(written(lines(s)) == line.1 + terminator_bytes(line.0) + written(lines(rest)));
        if n < s.len() {
            assert(line.1 + terminator_bytes(line.0) =~= s.take(k));
            assert(s.take(k) + rest =~= s);
            if rest.len() > 0 {
                assert(rest.last() == s.last());
                assert(s.take(k) + (rest + seq![LINE_FEED]) =~= s + seq![LINE_FEED]);
            } else {
                assert(s.last() == s[k - 1]);
                assert(rest =~= Seq::<u8>::empty());
            }
        } else {
            assert(rest =~= Seq::<u8>::empty());
            assert(line.1 + terminator_bytes(line.0) + written(lines(rest)) =~= s + seq![
                LINE_FEED,
            ]);
        }
    }
}

/// The stream that arrives in the pieces `pieces`, one after the other.
pub open spec fn joined(pieces: Seq<Seq<u8>>) -> Seq<u8>
    decreases pieces.len(),
{
    if pieces.len() == 0 {
        Seq::empty()
    } else {
        pieces[0] + joined(pieces.skip(1))
    }
}

/// The line that a reader which holds `held` reads from a stream that
/// arrives in the pieces `pieces` and then ends, and what is left unread
/// of the stream after it. The pieces are taken in one by one, as
/// [`LineReader::feed`] takes them, until one completes a line; where the
/// stream ends first, what is held is finished, as by
/// [`LineReader::finish`].
pub open spec fn line_from_pieces(held: Seq<u8>, pieces: Seq<Seq<u8>>) -> (
    Option<(LineEnding, Seq<u8>)>,
    Seq<u8>,
)
    decreases pieces.len(),
{
    if pieces.len() == 0 {
        (next_line(held), Seq::empty())
    } else {
        let t = held + pieces[0];
        if line_decided(t) {
            (
                next_line(t),
                pieces[0].skip(next_line_len(t) - held.len()) + joined(pieces.skip(1)),
            )
        } else {
            line_from_pieces(t, pieces.skip(1))
        }
    }
}

/// How a stream is cut into pieces does not matter: read piece by piece,
/// the line is the first line of the whole stream and what is left is the
/// whole stream without that line and its terminator, whatever the number
/// and the sizes of the pieces and wherever a cut falls, be it between a
/// carriage return and its line feed. `held` is what a reader holds, which
/// never decides a line.
pub proof fn lemma_pieces_do_not_matter(held: Seq<u8>, pieces: Seq<Seq<u8>>)
    requires
        !line_decided(held),
    ensures
        line_from_pieces(held, pieces).0 == next_line(held + joined(pieces)),
        line_from_pieces(held, pieces).1 == (held + joined(pieces)).skip(
            next_line_len(held + joined(pieces)),
        ),
    decreases pieces.len(),
{
    let stream = held + joined(pieces);
    lemma_first_terminator(held, 0);
    if pieces.len() == 0 {
        assert(stream =~= held);
        assert(held.skip(next_line_len(held)) =~= Seq::<u8>::empty());
    } else {
        let t = held + pieces[0];
        let rest = joined(pieces.skip(1));
        assert(stream =~= t + rest);
        if line_decided(t) {
            lemma_decided_line_is_stable(t, rest);
            lemma_first_terminator(t, 0);
            let n = first_terminator(t, 0);
            let nh = first_terminator(held, 0);
            if n < nh {
                assert(t[n] == held[n]);
            }
            let k = next_line_len(t);
            assert(k >= held.len());
            assert(stream.skip(k) =~= pieces[0].skip(k - held.len()) + rest);
        } else {
            lemma_pieces_do_not_matter(t, pieces.skip(1));
        }
    }
}

/// Two ways of cutting one stream into pieces give the same line and leave
/// the same unread.
pub proof fn lemma_any_two_splits_agree(first: Seq<Seq<u8>>, second: Seq<Seq<u8>>)
    requires
        joined(first) == joined(second),
    ensures
        line_from_pieces(Seq::empty(), first) == line_from_pieces(Seq::empty(), second),
{
    let held = Seq::<u8>::empty();
    lemma_pieces_do_not_matter(held, first);
    lemma_pieces_do_not_matter(held, second);
    assert(held + joined(first) =~= joined(first));
    assert(held + joined(second) =~= joined(second));
}

/// The scanning state of one line that is being read from a stream which
/// arrives in pieces: the bytes taken in so far that belong to the line, and
/// whether a carriage return came after them whose follower is not yet known.
pub struct LineReader {
    pending: Vec<u8>,
    seen_cr: bool,
}

impl LineReader {
    /// The bytes taken from the stream since the last line was handed out.
    pub closed spec fn held(&self) -> Seq<u8> {
        if self.seen_cr {
            self.pending@.push(CARRIAGE_RETURN)
        } else {
            self.pending@
        }
    }

    /// The held bytes are line content, possibly followed by one carriage
    /// return: they never settle a line by themselves.
    pub closed spec fn wf(&self) -> bool {
        forall|i: int| 0 <= i < self.pending@.len() ==> !is_terminator(#[trigger] self.pending@[i])
    }

    /// A well-formed reader has not yet seen enough to decide its line.
    pub proof fn lemma_held_undecided(&self)
        requires
            self.wf(),
        ensures
            !line_decided(self.held()),
    {
        let h = self.held();
        let n = self.pending@.len() as int;
        assert forall|i: int| 0 <= i < n implies !is_terminator(#[trigger] h[i]) by {
            assert(h[i] == self.pending@[i]);
        }
        lemma_first_terminator_is(h, 0, n);
    }

    /// A reader that holds nothing.
    pub fn new() -> (r: LineReader)
        ensures
            r.wf(),
            r.held() == Seq::<u8>::empty(),
    {
        LineReader { pending: Vec::new(), seen_cr: false }
    }

    /// Takes in the next piece `buf` of the stream.
    ///
    /// Returns how many bytes of `buf` were used up, and the line if those
    /// bytes completed one. With `t` the held bytes followed by `buf`: if `t`
    /// decides its first line, that line is returned, the bytes used are
    /// exactly the rest of the line with its terminator, and the reader holds
    /// nothing afterwards. A byte that follows a lone carriage return is left
    /// in `buf`. Otherwise all of `buf` is taken in and held.
    pub fn feed(&mut self, buf: &[u8]) -> (r: (usize, Option<(LineEnding, Vec<u8>)>))
        requires
            old(self).wf(),
        ensures
            final(self).wf(),
            r.0 <= buf@.len(),
            line_decided(old(self).held() + buf@) ==> {
                &&& r.1 matches Some(line)
                &&& next_line(old(self).held() + buf@) == Some((line.0, line.1@))
                &&& old(self).held().len() + r.0 == next_line_len(old(self).held() + buf@)
                &&& final(self).held() == Seq::<u8>::empty()
            },
            !line_decided(old(self).held() + buf@) ==> {
                &&& r.1 is None
                &&& r.0 == buf@.len()
                &&& final(self).held() == old(self).held() + buf@
            },
    {
        let ghost t = old(self).held() + buf@;
        let mut i: usize = 0;
        while i < buf.len()
            invariant
                i <= buf@.len(),
                self.wf(),
                t == old(self).held() + buf@,
                self.held() == old(self).held() + buf@.take(i as int),
            decreases buf@.len() - i,
        {
            let b = buf[i];
            let ghost n = self.pending@.len() as int;
            proof {
                assert(t =~= self.held() + buf@.skip(i as int));
                assert forall|k: int| 0 <= k < n implies !is_terminator(#[trigger] t[k]) by {
                    assert(t[k] == self.pending@[k]);
                }
            }
            if self.seen_cr {
                proof {
                    assert(t[n] == CARRIAGE_RETURN);
                    assert(t[n + 1] == b);
                    lemma_first_terminator_is(t, 0, n);
                    assert(t.take(n) =~= self.pending@);
                }
                let bytes = self.take_pending();
                if b == LINE_FEED {
                    return (i + 1, Some((LineEnding::Crlf, bytes)));
                } else {
                    return (i, Some((LineEnding::Cr, bytes)));
                }
            } else if b == CARRIAGE_RETURN {
                self.seen_cr = true;
                i = i + 1;
                proof {
                    assert(buf@.take(i as int) =~= buf@.take(i - 1).push(b));
                    assert(self.held() =~= old(self).held() + buf@.take(i as int));
                }
            } else if b == LINE_FEED {
                proof {
                    assert(t[n] == b);
                    lemma_first_terminator_is(t, 0, n);
                    assert(t.take(n) =~= self.pending@);
                }
                let bytes = self.take_pending();
                return (i + 1, Some((LineEnding::Lf, bytes)));
            } else {
                self.pending.push(b);
                i = i + 1;
                proof {
                    assert(buf@.take(i as int) =~= buf@.take(i - 1).push(b));
                    assert(self.held() =~= old(self).held() + buf@.take(i as int));
                }
            }
        }
        proof {
            assert(buf@.take(i as int) =~= buf@);
            self.lemma_held_undecided();
        }
        (i, None)
    }

    /// Ends the stream: hands out what the held bytes amount to when nothing
    /// follows them. Held content becomes a last line, ended by the carriage
    /// return that came after it, or else reported as ended by a line feed;
    /// with nothing held there is no line.
    pub fn finish(&mut self) -> (r: Option<(LineEnding, Vec<u8>)>)
        requires
            old(self).wf(),
        ensures
            final(self).wf(),
            final(self).held() == Seq::<u8>::empty(),
            match r {
                Some(line) => next_line(old(self).held()) == Some((line.0, line.1@)),
                None => next_line(old(self).held()) is None,
            },
    {
        let ghost h = self.held();
        let ghost n = self.pending@.len() as int;
        proof {
            assert forall|k: int| 0 <= k < n implies !is_terminator(#[trigger] h[k]) by {
                assert(h[k] == self.pending@[k]);
            }
            lemma_first_terminator_is(h, 0, n);
            assert(h.take(n) =~= self.pending@);
        }
        if self.seen_cr {
            let bytes = self.take_pending();
            Some((LineEnding::Cr, bytes))
        } else if self.pending.len() > 0 {
            let bytes = self.take_pending();
            Some((LineEnding::Lf, bytes))
        } else {
            None
        }
    }

    /// Empties the reader and hands out its line content.
    fn take_pending(&mut self) -> (bytes: Vec<u8>)
        ensures
            bytes@ == old(self).pending@,
            final(self).pending@ == Seq::<u8>::empty(),
            !final(self).seen_cr,
    {
        let mut bytes: Vec<u8> = Vec::new();
        std::mem::swap(&mut bytes, &mut self.pending);
        self.seen_cr = false;
        bytes
    }
}

/// A byte stream held in memory that hands its bytes out in refills of a
/// bounded size, as a buffered reader over a pipe does.
pub struct ByteStream {
    data: Vec<u8>,
    pos: usize,
    refill: usize,
}

impl ByteStream {
    /// The read position lies inside the data and a refill is never empty
    /// while bytes remain.
    pub closed spec fn wf(&self) -> bool {
        self.pos <= self.data@.len() && self.refill > 0
    }

    /// The bytes not yet consumed.
    pub closed spec fn remaining(&self) -> Seq<u8> {
        self.data@.skip(self.pos as int)
    }

    /// The largest number of bytes that one refill hands out.
    pub closed spec fn refill_size(&self) -> nat {
        self.refill as nat
    }

    /// A stream over `data` whose refills hold at most `refill` bytes. A
    /// size of 0 counts as 1.
    pub fn new(data: Vec<u8>, refill: usize) -> (r: ByteStream)
        ensures
            r.wf(),
            r.remaining() == data@,
            r.refill_size() == if refill == 0 { 1 } else { refill as nat },
    {
        let refill: usize = if refill == 0 { 1 } else { refill };
        proof {
            assert(data@.skip(0) =~= data@);
        }
        ByteStream { data, pos: 0, refill }
    }

    /// The next refill: the first bytes that remain, as many as a refill
    /// holds. It is empty only at the end of the stream.
    pub fn fill_buf(&self) -> (buf: &[u8])
        requires
            self.wf(),
        ensures
            buf@.len() <= self.refill_size(),
            buf@.len() <= self.remaining().len(),
            buf@ == self.remaining().take(buf@.len() as int),
            buf@.len() == self.refill_size() || buf@.len() == self.remaining().len(),
    {
        let left: usize = self.data.len() - self.pos;
        let n: usize = if left < self.refill { left } else { self.refill };
        let buf = &self.data.as_slice()[self.pos..self.pos + n];
        proof {
            assert(buf@ =~= self.remaining().take(n as int));
        }
        buf
    }

    /// Marks the first `n` remaining bytes as read.
    pub fn consume(&mut self, n: usize)
        requires
            old(self).wf(),
            n <= old(self).remaining().len(),
        ensures
            final(self).wf(),
            final(self).refill_size() == old(self).refill_size(),
            final(self).remaining() == old(self).remaining().skip(n as int),
    {
        let len: usize = self.data.len();
        proof {
            assert(self.remaining().len() == len - self.pos);
        }
        self.pos = self.pos + n;
        proof {
            assert(self.remaining() =~= old(self).remaining().skip(n as int));
        }
    }
}

/// Reads the next line from `reader`, one refill at a time.
///
/// The result is the first line of what remained in the stream, whatever the
/// refill size and wherever a refill cuts through a terminator; `None` means
/// that nothing remained. The reader has then consumed that line and its
/// terminator and nothing else.
pub fn get_line(reader: &mut ByteStream) -> (r: Option<(LineEnding, Vec<u8>)>)
    requires
        old(reader).wf(),
    ensures
        final(reader).wf(),
        final(reader).refill_size() == old(reader).refill_size(),
        match r {
            Some(line) => next_line(old(reader).remaining()) == Some((line.0, line.1@)),
            None => next_line(old(reader).remaining()) is None,
        },
        final(reader).remaining() == old(reader).remaining().skip(
            next_line_len(old(reader).remaining()),
        ),
{
    let ghost stream = reader.remaining();
    let mut scanner = LineReader::new();
    proof {
        assert(scanner.held() + reader.remaining() =~= stream);
    }
    loop
        invariant
            reader.wf(),
            scanner.wf(),
            reader.refill_size() == old(reader).refill_size(),
            stream == old(reader).remaining(),
            scanner.held() + reader.remaining() == stream,
        decreases reader.remaining().len(),
    {
        let ghost held = scanner.held();
        let ghost left = reader.remaining();
        let buf = reader.fill_buf();
        if buf.len() == 0 {
            proof {
                assert(left =~= Seq::<u8>::empty());
                assert(held =~= stream);
                scanner.lemma_held_undecided();
                lemma_first_terminator(stream, 0);
                assert(left.skip(next_line_len(stream) - held.len()) =~= left);
                assert(stream.skip(next_line_len(stream)) =~= left);
            }
            return scanner.finish();
        }
        let ghost piece = buf@;
        let (used, line) = scanner.feed(buf);
        reader.consume(used);
        proof {
            assert(stream =~= (held + piece) + left.skip(piece.len() as int));
            if line_decided(held + piece) {
                lemma_decided_line_is_stable(held + piece, left.skip(piece.len() as int));
                assert(left.skip(used as int) =~= stream.skip(next_line_len(stream)));
            } else {
                assert(scanner.held() + reader.remaining() =~= stream);
            }
        }
        if line.is_some() {
            return line;
        }
    }
}

/// The pieces of `v` as values.
pub open spec fn pieces_view(v: Seq<Vec<u8>>) -> Seq<Seq<u8>> {
    v.map_values(|p: Vec<u8>| p@)
}

/// Reads the first line of a stream that arrives in `pieces` and then
/// ends, piece by piece. The result is the first line of the whole stream,
/// however the stream is cut.
pub fn get_line_in_pieces(pieces: &Vec<Vec<u8>>) -> (r: Option<(LineEnding, Vec<u8>)>)
    ensures
        match r {
            Some(line) => next_line(joined(pieces_view(pieces@))) == Some((line.0, line.1@)),
            None => next_line(joined(pieces_view(pieces@))) is None,
        },
{
    let ghost all = pieces_view(pieces@);
    let mut scanner = LineReader::new();
    let mut i: usize = 0;
    proof {
        assert(all.skip(0) =~= all);
        lemma_pieces_do_not_matter(Seq::empty(), all);
        assert(Seq::<u8>::empty() + joined(all) =~= joined(all));
    }
    while i < pieces.len()
        invariant
            i <= pieces@.len(),
            all == pieces_view(pieces@),
            scanner.wf(),
            line_from_pieces(scanner.held(), all.skip(i as int)).0 == next_line(joined(all)),
        decreases pieces@.len() - i,
    {
        let ghost held = scanner.held();
        proof {
            assert(all.skip(i as int)[0] == pieces@[i as int]@);
            assert(all.skip(i as int).skip(1) =~= all.skip(i + 1));
        }
        let (_, line) = scanner.feed(pieces[i].as_slice());
        if line.is_some() {
            return line;
        }
        i = i + 1;
    }
    proof {
        assert(all.skip(i as int) =~= Seq::<Seq<u8>>::empty());
    }
    scanner.finish()
}

} // verus!
