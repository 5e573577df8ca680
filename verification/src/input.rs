//! The position-tracked character stream lexers consume: a named source
//! buffer decoded into `(BytePos, char)` pairs, a forward cursor over
//! them ([`FileMapInput`]), and a one-codepoint-buffered layer on top
//! ([`LexerInput`]) that separates "position of the last consumed
//! codepoint" from "position of the buffered codepoint", so spans can be
//! built retroactively.

use crate::pos::BytePos;
use vstd::prelude::*;
use vstd::string::StrSliceExecFns;

verus! {

broadcast use vstd::seq::group_seq_axioms, vstd::std_specs::vec::group_vec_axioms;

/// The width in bytes of one codepoint's UTF-8 encoding.
pub open spec fn utf8_width(c: char) -> nat {
    if (c as u32) < 0x80 {
        1
    } else if (c as u32) < 0x800 {
        2
    } else if (c as u32) < 0x10000 {
        3
    } else {
        4
    }
}

pub fn utf8_width_exec(c: char) -> (r: u32)
    ensures
        r == utf8_width(c),
{
    let u = c as u32;
    if u < 0x80 {
        1
    } else if u < 0x800 {
        2
    } else if u < 0x10000 {
        3
    } else {
        4
    }
}

/// Total UTF-8 byte length of the codepoints from index `i` on.
pub open spec fn byte_len(chars: Seq<char>, i: int) -> int
    decreases chars.len() - i,
{
    if 0 <= i < chars.len() {
        utf8_width(chars[i]) + byte_len(chars, i + 1)
    } else {
        0
    }
}

pub proof fn lemma_byte_len_nonneg(chars: Seq<char>, i: int)
    ensures
        byte_len(chars, i) >= 0,
    decreases chars.len() - i,
{
    if 0 <= i < chars.len() {
        lemma_byte_len_nonneg(chars, i + 1);
    }
}

/// A coherent stream of `(position, codepoint)` pairs: each position is
/// the previous one advanced by the previous codepoint's byte width, and
/// every advance stays within the position space.
pub open spec fn stream_wf(s: Seq<(BytePos, char)>) -> bool {
    &&& (forall|i: int|
        0 < i < s.len() ==> (#[trigger] s[i]).0.0 == s[i - 1].0.0 + utf8_width(s[i - 1].1))
    &&& (forall|i: int| 0 <= i < s.len() ==> (#[trigger] s[i]).0.0 + utf8_width(s[i].1) <= u32::MAX)
}

pub proof fn lemma_stream_wf_drop_first(s: Seq<(BytePos, char)>)
    requires
        stream_wf(s),
        s.len() > 0,
    ensures
        stream_wf(s.drop_first()),
{
    let t = s.drop_first();
    assert forall|i: int| 0 < i < t.len() implies (#[trigger] t[i]).0.0 == t[i - 1].0.0
        + utf8_width(t[i - 1].1) by {
        assert(t[i] == s[i + 1]);
        assert(t[i - 1] == s[i]);
        assert(s[i + 1].0.0 == s[i].0.0 + utf8_width(s[i].1));
    }
    assert forall|i: int| 0 <= i < t.len() implies (#[trigger] t[i]).0.0 + utf8_width(t[i].1)
        <= u32::MAX by {
        assert(t[i] == s[i + 1]);
    }
}

/// Successive positions of a coherent stream strictly increase; one step
/// increases by exactly the consumed codepoint's UTF-8 byte width.
pub proof fn lemma_positions_strictly_increase(s: Seq<(BytePos, char)>, i: int, j: int)
    requires
        stream_wf(s),
        0 <= i < j < s.len(),
    ensures
        s[i].0.0 < s[j].0.0,
        j == i + 1 ==> s[j].0.0 == s[i].0.0 + utf8_width(s[i].1),
    decreases j - i,
{
    if j == i + 1 {
        assert(s[j].0.0 == s[j - 1].0.0 + utf8_width(s[j - 1].1));
        assert(utf8_width(s[i].1) >= 1);
    } else {
        lemma_positions_strictly_increase(s, i, j - 1);
        lemma_positions_strictly_increase(s, j - 1, j);
    }
}

/// The pairs a buffer's suffix yields: codepoints from `i` on, positions
/// starting at `p`.
pub open spec fn stream_of(chars: Seq<char>, i: int, p: int) -> Seq<(BytePos, char)>
    decreases chars.len() - i,
{
    if 0 <= i < chars.len() {
        seq![(BytePos(p as u32), chars[i])] + stream_of(chars, i + 1, p + utf8_width(chars[i]))
    } else {
        Seq::empty()
    }
}

pub proof fn lemma_stream_of_wf(chars: Seq<char>, i: int, p: int)
    requires
        0 <= p,
        p + byte_len(chars, i) <= u32::MAX,
    ensures
        stream_wf(stream_of(chars, i, p)),
        stream_of(chars, i, p).len() == if 0 <= i <= chars.len() {
            chars.len() - i
        } else {
            0
        },
        0 <= i < chars.len() ==> stream_of(chars, i, p)[0] == (BytePos(p as u32), chars[i]),
    decreases chars.len() - i,
{
    if 0 <= i < chars.len() {
        lemma_byte_len_nonneg(chars, i + 1);
        lemma_stream_of_wf(chars, i + 1, p + utf8_width(chars[i]) as int);
        let s = stream_of(chars, i, p);
        let t = stream_of(chars, i + 1, p + utf8_width(chars[i]) as int);
        assert forall|k: int| 0 < k < s.len() implies (#[trigger] s[k]).0.0 == s[k - 1].0.0
            + utf8_width(s[k - 1].1) by {
            if k == 1 {
                assert(s[0] == (BytePos(p as u32), chars[i]));
                assert(i + 1 < chars.len());
                assert(t[0] == (BytePos((p + utf8_width(chars[i])) as u32), chars[i + 1]));
                assert(0 <= p + utf8_width(chars[i]) <= u32::MAX);
                assert(s[1] == t[0]);
            } else {
                assert(s[k] == t[k - 1]);
                assert(s[k - 1] == t[k - 2]);
                assert(t[k - 1].0.0 == t[k - 2].0.0 + utf8_width(t[k - 2].1));
            }
        }
        assert forall|k: int| 0 <= k < s.len() implies (#[trigger] s[k]).0.0 + utf8_width(s[k].1)
            <= u32::MAX by {
            if k > 0 {
                assert(s[k] == t[k - 1]);
            }
        }
    }
}

/// The underlying forward sequence a lexer input needs: iteration
/// yielding `(position, codepoint)` pairs in source order, with one- and
/// two-ahead lookahead computed without advancing, and an optional bulk
/// consume that implementations may decline.
pub trait Input: Sized {
    /// The pairs not yet yielded.
    spec fn stream(&self) -> Seq<(BytePos, char)>;

    /// The implementation's own well-formedness.
    spec fn inv(&self) -> bool;

    fn next(&mut self) -> (r: Option<(BytePos, char)>)
        requires
            old(self).inv(),
        ensures
            final(self).inv(),
            old(self).stream().len() == 0 ==> r is None && final(self).stream() == old(self).stream(),
            old(self).stream().len() > 0 ==> r == Some(old(self).stream()[0]) && final(self).stream() == old(self).stream().drop_first(),
    ;

    fn peek(&mut self) -> (r: Option<(BytePos, char)>)
        requires
            old(self).inv(),
        ensures
            final(self).inv(),
            final(self).stream() == old(self).stream(),
            old(self).stream().len() == 0 ==> r is None,
            old(self).stream().len() > 0 ==> r == Some(old(self).stream()[0]),
    ;

    fn peek_ahead(&mut self) -> (r: Option<(BytePos, char)>)
        requires
            old(self).inv(),
        ensures
            final(self).inv(),
            final(self).stream() == old(self).stream(),
            old(self).stream().len() <= 1 ==> r is None,
            old(self).stream().len() > 1 ==> r == Some(old(self).stream()[1]),
    ;

    /// Bulk consume while the predicate holds: a performance option
    /// only. An implementation may return `None` and change nothing;
    /// callers must degrade to per-codepoint consumption.
    fn uncons_while<F: Fn(char) -> bool>(&mut self, f: F) -> (r: Option<String>)
        requires
            old(self).inv(),
        ensures
            final(self).inv(),
            r is None ==> final(self).stream() == old(self).stream(),
    ;
}

/// A named source buffer with an absolute starting offset into the
/// shared position space, and its decoded text. Absence of the text is
/// unrecoverable.
pub struct SourceFile {
    pub name: String,
    pub start_pos: BytePos,
    pub src: Option<String>,
}

impl SourceFile {
    /// The decoded text, where present.
    pub open spec fn spec_src(self) -> Seq<char> {
        match self.src {
            Some(s) => s@,
            None => Seq::empty(),
        }
    }
}

/// The forward cursor over one source file's codepoints.
pub struct FileMapInput {
    chars: Vec<char>,
    idx: usize,
    pos: u32,
}

impl FileMapInput {
    /// Builds the cursor for a file. The text must be present (a missing
    /// buffer is unrecoverable), and the file must fit in the `u32`
    /// position space from its starting offset.
    pub fn from_file(fm: &SourceFile) -> (r: FileMapInput)
        requires
            fm.src is Some,
            fm.start_pos.0 + byte_len(fm.spec_src(), 0) <= u32::MAX,
        ensures
            r.inv(),
            r.stream() == stream_of(fm.spec_src(), 0, fm.start_pos.0 as int),
            stream_wf(r.stream()),
    {
        match &fm.src {
            Some(src) => {
                let s = src.as_str();
                let n = s.unicode_len();
                let mut chars: Vec<char> = Vec::new();
                let mut i: usize = 0;
                while i < n
                    invariant
                        n == s@.len(),
                        i <= n,
                        chars@.len() == i,
                        forall|j: int| 0 <= j < i ==> chars@[j] == s@[j],
                    decreases n - i,
                {
                    chars.push(s.get_char(i));
                    i = i + 1;
                }
                proof {
                    assert(chars@ =~= s@);
                    lemma_byte_len_nonneg(fm.spec_src(), 0);
                    lemma_stream_of_wf(fm.spec_src(), 0, fm.start_pos.0 as int);
                }
                FileMapInput { chars, idx: 0, pos: fm.start_pos.0 }
            },
            None => {
                proof {
                    assert(false);
                }
                FileMapInput { chars: Vec::new(), idx: 0, pos: 0 }
            },
        }
    }
}

impl Input for FileMapInput {
    closed spec fn stream(&self) -> Seq<(BytePos, char)> {
        stream_of(self.chars@, self.idx as int, self.pos as int)
    }

    closed spec fn inv(&self) -> bool {
        self.idx <= self.chars@.len() && self.pos + byte_len(self.chars@, self.idx as int)
            <= u32::MAX
    }

    fn next(&mut self) -> (r: Option<(BytePos, char)>)
        ensures
            final(self).inv(),
            old(self).stream().len() == 0 ==> r is None && final(self).stream() == old(self).stream(),
            old(self).stream().len() > 0 ==> r == Some(old(self).stream()[0]) && final(self).stream() == old(self).stream().drop_first(),
    {
        proof {
            lemma_byte_len_nonneg(self.chars@, self.idx as int);
            lemma_stream_of_wf(self.chars@, self.idx as int, self.pos as int);
        }
        if self.idx < self.chars.len() {
            let c = self.chars[self.idx];
            let p = BytePos(self.pos);
            proof {
                lemma_byte_len_nonneg(self.chars@, self.idx as int + 1);
            }
            let w = utf8_width_exec(c);
            self.pos = self.pos + w;
            self.idx = self.idx + 1;
            proof {
                assert(final(self).stream() =~= old(self).stream().drop_first());
            }
            Some((p, c))
        } else {
            None
        }
    }

    fn peek(&mut self) -> (r: Option<(BytePos, char)>)
        ensures
            final(self).inv(),
            final(self).stream() == old(self).stream(),
            old(self).stream().len() == 0 ==> r is None,
            old(self).stream().len() > 0 ==> r == Some(old(self).stream()[0]),
    {
        if self.idx < self.chars.len() {
            Some((BytePos(self.pos), self.chars[self.idx]))
        } else {
            None
        }
    }

    fn peek_ahead(&mut self) -> (r: Option<(BytePos, char)>)
        ensures
            final(self).inv(),
            final(self).stream() == old(self).stream(),
            old(self).stream().len() <= 1 ==> r is None,
            old(self).stream().len() > 1 ==> r == Some(old(self).stream()[1]),
    {
        proof {
            lemma_byte_len_nonneg(self.chars@, self.idx as int + 1);
            lemma_byte_len_nonneg(self.chars@, self.idx as int + 2);
            lemma_stream_of_wf(self.chars@, self.idx as int, self.pos as int);
        }
        if self.chars.len() - self.idx > 1 {
            let c0 = self.chars[self.idx];
            let w = utf8_width_exec(c0);
            proof {
                lemma_stream_of_wf(
                    self.chars@,
                    self.idx as int + 1,
                    self.pos as int + utf8_width(c0) as int,
                );
            }
            let r = Some((BytePos(self.pos + w), self.chars[self.idx + 1]));
            proof {
                let s = old(self).stream();
                let t = stream_of(
                    self.chars@,
                    self.idx as int + 1,
                    self.pos as int + utf8_width(c0) as int,
                );
                assert(t[0] == (
                    BytePos((self.pos as int + utf8_width(c0) as int) as u32),
                    self.chars@[self.idx as int + 1],
                ));
                assert(s[1] == t[0]);
            }
            r
        } else {
            None
        }
    }

    /// Declined: this cursor always falls back to per-codepoint
    /// consumption.
    fn uncons_while<F: Fn(char) -> bool>(&mut self, f: F) -> (r: Option<String>)
        ensures
            final(self).inv(),
            r is None ==> final(self).stream() == old(self).stream(),
    {
        None
    }
}


/// One-codepoint-buffered stream atop an [`Input`]: what the lexer
/// consumes. `last_pos` is the position immediately after the most
/// recently consumed codepoint, used to build spans retroactively.
pub struct LexerInput<I: Input> {
    cur: Option<(BytePos, char)>,
    last_pos: BytePos,
    input: I,
}

impl<I: Input> LexerInput<I> {
    /// The `(position, codepoint)` pairs not yet consumed, the buffered
    /// one (if any) first.
    pub closed spec fn full_stream(self) -> Seq<(BytePos, char)> {
        match self.cur {
            Some(pc) => seq![pc] + self.input.stream(),
            None => self.input.stream(),
        }
    }

    /// The buffered pair, if one is buffered.
    pub closed spec fn buffered(self) -> Option<(BytePos, char)> {
        self.cur
    }

    pub closed spec fn spec_last_pos(self) -> BytePos {
        self.last_pos
    }

    pub closed spec fn inv(self) -> bool {
        self.input.inv() && stream_wf(self.full_stream())
    }

    /// What `current()` returns: the first pending codepoint.
    pub open spec fn current_value(self) -> Option<char> {
        if self.full_stream().len() > 0 {
            Some(self.full_stream()[0].1)
        } else {
            None
        }
    }

    /// What `peek()` returns: the codepoint after the buffered one, or
    /// the one `current()` would buffer when nothing is buffered yet.
    pub open spec fn peek_value(self) -> Option<char> {
        let k: int = if self.buffered() is Some {
            1
        } else {
            0
        };
        if self.full_stream().len() > k {
            Some(self.full_stream()[k].1)
        } else {
            None
        }
    }

    /// What `peek_ahead()` returns: one codepoint further than `peek()`.
    pub open spec fn peek_ahead_value(self) -> Option<char> {
        let k: int = if self.buffered() is Some {
            2
        } else {
            1
        };
        if self.full_stream().len() > k {
            Some(self.full_stream()[k].1)
        } else {
            None
        }
    }

    pub fn new(input: I) -> (r: Self)
        requires
            input.inv(),
            stream_wf(input.stream()),
        ensures
            r.inv(),
            r.full_stream() == input.stream(),
            r.buffered() is None,
            r.spec_last_pos() == BytePos(0),
    {
        LexerInput { input, last_pos: BytePos(0), cur: None }
    }

    /// Advances exactly one codepoint: the new last position is the
    /// buffered position advanced by the buffered codepoint's UTF-8 byte
    /// width, and the next buffered position (if any) equals it, so
    /// advance-derived positions strictly increase by exactly that
    /// width. Advancing with nothing buffered is a contract violation.
    pub fn bump(&mut self)
        requires
            old(self).inv(),
            old(self).buffered() is Some,
        ensures
            final(self).inv(),
            final(self).full_stream() == old(self).full_stream().drop_first(),
            (match old(self).buffered() {
                Some(pc) => final(self).spec_last_pos().0 == pc.0.0 + utf8_width(pc.1),
                None => false,
            }),
            final(self).buffered() == (if old(self).full_stream().len() > 1 {
                Some(old(self).full_stream()[1])
            } else {
                None::<(BytePos, char)>
            }),
            (match final(self).buffered() {
                Some(pc2) => pc2.0 == final(self).spec_last_pos(),
                None => true,
            }),
    {
        let pc = match self.cur {
            Some(x) => x,
            None => {
                proof {
                    assert(false);
                }
                (BytePos(0), ' ')
            },
        };
        proof {
            assert(old(self).full_stream()[0] == pc);
            assert(pc.0.0 + utf8_width(pc.1) <= u32::MAX);
            if old(self).full_stream().len() > 1 {
                assert(old(self).full_stream()[1].0.0 == old(self).full_stream()[0].0.0
                    + utf8_width(old(self).full_stream()[0].1));
            }
        }
        let w = utf8_width_exec(pc.1);
        let npos = BytePos(pc.0.0 + w);
        self.cur = self.input.next();
        self.last_pos = npos;
        proof {
            assert(self.full_stream() =~= old(self).full_stream().drop_first());
            lemma_stream_wf_drop_first(old(self).full_stream());
        }
    }

    /// Lazily fetches and caches the codepoint at the cursor. Idempotent
    /// until the next `bump`: with a codepoint already buffered, the
    /// state is unchanged, and the returned value is always
    /// `current_value()` of the state before the call.
    pub fn current(&mut self) -> (r: Option<char>)
        requires
            old(self).inv(),
        ensures
            final(self).inv(),
            final(self).full_stream() == old(self).full_stream(),
            final(self).spec_last_pos() == old(self).spec_last_pos(),
            r == old(self).current_value(),
            old(self).buffered() is Some ==> *final(self) == *old(self),
            final(self).buffered() == (if old(self).full_stream().len() > 0 {
                Some(old(self).full_stream()[0])
            } else {
                None::<(BytePos, char)>
            }),
    {
        match self.cur {
            Some(pc) => Some(pc.1),
            None => {
                let nx = self.input.next();
                self.cur = nx;
                proof {
                    assert(self.full_stream() =~= old(self).full_stream());
                }
                match self.cur {
                    Some(pc) => Some(pc.1),
                    None => None,
                }
            },
        }
    }

    /// Byte position of the buffered codepoint (fetching it if needed),
    /// or the last consumed position when the stream is exhausted.
    pub fn cur_pos(&mut self) -> (r: BytePos)
        requires
            old(self).inv(),
        ensures
            final(self).inv(),
            final(self).full_stream() == old(self).full_stream(),
            final(self).spec_last_pos() == old(self).spec_last_pos(),
            r == (if old(self).full_stream().len() > 0 {
                old(self).full_stream()[0].0
            } else {
                old(self).spec_last_pos()
            }),
    {
        let _c = self.current();
        match self.cur {
            Some(pc) => pc.0,
            None => self.last_pos,
        }
    }

    /// The next codepoint after the buffered one, without advancing.
    pub fn peek(&mut self) -> (r: Option<char>)
        requires
            old(self).inv(),
        ensures
            final(self).inv(),
            final(self).full_stream() == old(self).full_stream(),
            final(self).spec_last_pos() == old(self).spec_last_pos(),
            final(self).buffered() == old(self).buffered(),
            r == old(self).peek_value(),
    {
        let r = match self.input.peek() {
            Some(pc) => Some(pc.1),
            None => None,
        };
        proof {
            assert(self.full_stream() =~= old(self).full_stream());
        }
        r
    }

    /// The codepoint two ahead of the cursor (`cur + 2`), for
    /// disambiguating multi-character operators, without advancing.
    pub fn peek_ahead(&mut self) -> (r: Option<char>)
        requires
            old(self).inv(),
        ensures
            final(self).inv(),
            final(self).full_stream() == old(self).full_stream(),
            final(self).spec_last_pos() == old(self).spec_last_pos(),
            final(self).buffered() == old(self).buffered(),
            r == old(self).peek_ahead_value(),
    {
        let r = match self.input.peek_ahead() {
            Some(pc) => Some(pc.1),
            None => None,
        };
        proof {
            assert(self.full_stream() =~= old(self).full_stream());
        }
        r
    }

    /// Position immediately after the most recently consumed codepoint.
    pub fn last_pos(&self) -> (r: BytePos)
        ensures
            r == self.spec_last_pos(),
    {
        self.last_pos
    }
}

/// Two consecutive single-pair drops, as two `bump`s perform by their
/// contracts, remove exactly the first two pairs.
pub proof fn lemma_two_drops_are_skip_two(s: Seq<(BytePos, char)>)
    requires
        s.len() >= 2,
    ensures
        s.drop_first().drop_first() == s.skip(2),
{
    assert(s.drop_first().drop_first() =~= s.skip(2));
}

/// Two-ahead lookahead agrees with consuming twice: with a codepoint
/// buffered and at least three pending, `peek_ahead()` now returns
/// exactly what `current()` returns once two `bump`s have removed the
/// first two pending pairs (each `bump` drops one, by its contract).
pub proof fn lemma_peek_ahead_is_current_after_two<I: Input>(
    before: LexerInput<I>,
    after: LexerInput<I>,
)
    requires
        before.buffered() is Some,
        before.full_stream().len() >= 3,
        after.full_stream() == before.full_stream().skip(2),
    ensures
        before.peek_ahead_value() == after.current_value(),
{
    assert(before.full_stream().skip(2)[0] == before.full_stream()[2]);
}

} // verus!
