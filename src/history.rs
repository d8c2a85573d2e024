//! The received text of one view: an append-only buffer that keeps at most
//! a fixed number of complete lines, dropping the oldest whole lines first.

use vstd::prelude::*;

verus! {

/// The most complete lines a history keeps.
pub const HISTORY_MAX_LINES: usize = 5000;

/// The number of line feeds in a text.
pub open spec fn newline_count(s: Seq<char>) -> nat
    decreases s.len(),
{
    if s.len() == 0 {
        0
    } else {
        newline_count(s.drop_last()) + if s.last() == '\n' {
            1nat
        } else {
            0nat
        }
    }
}

/// A text without its first line: everything up to and including the
/// first line feed is gone.
pub open spec fn drop_first_line(s: Seq<char>) -> Seq<char>
    decreases s.len(),
{
    if s.len() == 0 {
        s
    } else if s[0] == '\n' {
        s.drop_first()
    } else {
        drop_first_line(s.drop_first())
    }
}

/// A text without its first `k` lines.
pub open spec fn drop_lines(s: Seq<char>, k: nat) -> Seq<char>
    decreases k,
{
    if k == 0 {
        s
    } else {
        drop_lines(drop_first_line(s), (k - 1) as nat)
    }
}

/// A text cut down to its last `HISTORY_MAX_LINES` complete lines and
/// whatever partial line follows them.
pub open spec fn bounded(s: Seq<char>) -> Seq<char> {
    if newline_count(s) > HISTORY_MAX_LINES {
        drop_lines(s, (newline_count(s) - HISTORY_MAX_LINES) as nat)
    } else {
        s
    }
}

proof fn lemma_count_concat(a: Seq<char>, b: Seq<char>)
    ensures
        newline_count(a + b) == newline_count(a) + newline_count(b),
    decreases b.len(),
{
    if b.len() == 0 {
        assert(a + b =~= a);
    } else {
        lemma_count_concat(a, b.drop_last());
        assert((a + b).drop_last() =~= a + b.drop_last());
    }
}

proof fn lemma_count_bounded(s: Seq<char>)
    ensures
        newline_count(s) <= s.len(),
    decreases s.len(),
{
    if s.len() > 0 {
        lemma_count_bounded(s.drop_last());
    }
}

proof fn lemma_no_newline_count(s: Seq<char>)
    requires
        forall|j: int| 0 <= j < s.len() ==> s[j] != '\n',
    ensures
        newline_count(s) == 0,
    decreases s.len(),
{
    if s.len() > 0 {
        lemma_no_newline_count(s.drop_last());
    }
}

proof fn lemma_first_newline_exists(s: Seq<char>)
    requires
        newline_count(s) > 0,
    ensures
        exists|i: int|
            0 <= i < s.len() && s[i] == '\n' && forall|j: int| 0 <= j < i ==> s[j] != '\n',
    decreases s.len(),
{
    if newline_count(s.drop_last()) > 0 {
        lemma_first_newline_exists(s.drop_last());
        let i = choose|i: int|
            0 <= i < s.drop_last().len() && s.drop_last()[i] == '\n' && forall|j: int|
                0 <= j < i ==> s.drop_last()[j] != '\n';
        assert(s[i] == s.drop_last()[i]);
        assert forall|j: int| 0 <= j < i implies s[j] != '\n' by {
            assert(s[j] == s.drop_last()[j]);
        }
    } else {
        lemma_zero_count(s.drop_last());
        let i = s.len() - 1;
        assert(s.last() == '\n');
        assert forall|j: int| 0 <= j < i implies s[j] != '\n' by {
            assert(s[j] == s.drop_last()[j]);
        }
    }
}

proof fn lemma_zero_count(s: Seq<char>)
    requires
        newline_count(s) == 0,
    ensures
        forall|j: int| 0 <= j < s.len() ==> s[j] != '\n',
    decreases s.len(),
{
    if s.len() > 0 {
        lemma_zero_count(s.drop_last());
        assert forall|j: int| 0 <= j < s.len() implies s[j] != '\n' by {
            if j < s.len() - 1 {
                assert(s[j] == s.drop_last()[j]);
            }
        }
    }
}

/// With the first line feed at `i`, dropping the first line leaves what
/// follows `i`, and one line feed fewer.
proof fn lemma_drop_first_line_at(s: Seq<char>, i: int)
    requires
        0 <= i < s.len(),
        s[i] == '\n',
        forall|j: int| 0 <= j < i ==> s[j] != '\n',
    ensures
        drop_first_line(s) == s.subrange(i + 1, s.len() as int),
        newline_count(drop_first_line(s)) + 1 == newline_count(s),
    decreases i,
{
    if i > 0 {
        lemma_drop_first_line_at(s.drop_first(), i - 1);
        assert(s.drop_first().subrange(i, s.len() - 1) =~= s.subrange(i + 1, s.len() as int));
    } else {
        assert(s.drop_first() =~= s.subrange(1, s.len() as int));
    }
    let head = s.subrange(0, i + 1);
    let tail = s.subrange(i + 1, s.len() as int);
    assert(s =~= head + tail);
    lemma_count_concat(head, tail);
    lemma_no_newline_count(head.drop_last());
}

/// Counts the line feeds in a text.
fn count_newlines(s: &str) -> (n: usize)
    ensures
        n == newline_count(s@),
{
    let len = s.unicode_len();
    let mut n: usize = 0;
    let mut i: usize = 0;
    for c in it: s.chars()
        invariant
            len == s@.len(),
            it.seq() == s@,
            i == it.index(),
            n == newline_count(s@.take(i as int)),
            n <= i,
    {
        assert(s@.take(i + 1).drop_last() =~= s@.take(i as int));
        if c == '\n' {
            n = n + 1;
        }
        i = i + 1;
    }
    assert(s@.take(i as int) =~= s@);
    n
}

/// The position of the first line feed in a text that has one.
fn first_newline(s: &str) -> (i: usize)
    requires
        newline_count(s@) > 0,
    ensures
        i < s@.len(),
        s@[i as int] == '\n',
        forall|j: int| 0 <= j < i ==> s@[j] != '\n',
{
    let len = s.unicode_len();
    let mut found: Option<usize> = None;
    let mut i: usize = 0;
    for c in it: s.chars()
        invariant
            len == s@.len(),
            it.seq() == s@,
            i == it.index(),
            match found {
                Some(k) => k < i && s@[k as int] == '\n' && forall|j: int|
                    0 <= j < k ==> s@[j] != '\n',
                None => forall|j: int| 0 <= j < i ==> s@[j] != '\n',
            },
    {
        if c == '\n' && found.is_none() {
            found = Some(i);
        }
        i = i + 1;
    }
    match found {
        Some(k) => k,
        None => {
            proof {
                lemma_no_newline_count(s@);
            }
            0
        },
    }
}

/// Received text, with the number of complete lines it holds.
pub struct LineHistory {
    received_text: String,
    received_line_count: usize,
}

impl View for LineHistory {
    type V = Seq<char>;

    closed spec fn view(&self) -> Seq<char> {
        self.received_text@
    }
}

impl LineHistory {
    /// The count of complete lines matches the text, and stays within the
    /// bound.
    pub closed spec fn wf(&self) -> bool {
        &&& self.received_line_count == newline_count(self.received_text@)
        &&& self.received_line_count <= HISTORY_MAX_LINES
    }

    /// An empty history.
    pub fn new() -> (r: Self)
        ensures
            r.wf(),
            r@ == Seq::<char>::empty(),
    {
        LineHistory { received_text: String::new(), received_line_count: 0 }
    }

    /// The text kept.
    pub fn text(&self) -> (r: &String)
        ensures
            r@ == self@,
    {
        &self.received_text
    }

    /// The number of complete lines kept.
    pub fn line_count(&self) -> (r: usize)
        requires
            self.wf(),
        ensures
            r == newline_count(self@),
    {
        self.received_line_count
    }

    /// Appends received text, then drops the oldest complete lines, each
    /// with its line feed, until at most `HISTORY_MAX_LINES` are left.
    pub fn append(&mut self, chunk: &str)
        requires
            old(self).wf(),
            chunk@.len() <= usize::MAX - HISTORY_MAX_LINES,
        ensures
            final(self).wf(),
            final(self)@ == bounded(old(self)@ + chunk@),
    {
        let added = count_newlines(chunk);
        proof {
            lemma_count_bounded(chunk@);
            lemma_count_concat(self@, chunk@);
        }
        let ghost all = self@ + chunk@;
        self.received_text.append(chunk);
        self.received_line_count = self.received_line_count + added;
        assert(bounded(all) == if self.received_line_count > HISTORY_MAX_LINES {
            drop_lines(self@, (self.received_line_count - HISTORY_MAX_LINES) as nat)
        } else {
            self@
        });
        while self.received_line_count > HISTORY_MAX_LINES
            invariant
                self.received_line_count == newline_count(self@),
                bounded(all) == if self.received_line_count > HISTORY_MAX_LINES {
                    drop_lines(self@, (self.received_line_count - HISTORY_MAX_LINES) as nat)
                } else {
                    self@
                },
            decreases self.received_line_count,
        {
            let at = first_newline(self.received_text.as_str());
            let len = self.received_text.as_str().unicode_len();
            let rest = self.received_text.as_str().substring_char(at + 1, len).to_owned();
            let ghost k = (self.received_line_count - HISTORY_MAX_LINES) as nat;
            proof {
                lemma_drop_first_line_at(self@, at as int);
                assert(drop_lines(self@, k) == drop_lines(drop_first_line(self@), (k - 1) as nat));
            }
            self.received_text = rest;
            self.received_line_count = self.received_line_count - 1;
            assert(drop_lines(self@, 0) == self@);
        }
    }

    /// Empties the history.
    pub fn clear(&mut self)
        ensures
            final(self).wf(),
            final(self)@ == Seq::<char>::empty(),
    {
        self.received_text = String::new();
        self.received_line_count = 0;
    }
}

/// Appending text without a line feed drops nothing: the text is kept
/// whole, as a partial last line.
pub proof fn lemma_partial_line_kept(text: Seq<char>, chunk: Seq<char>)
    requires
        newline_count(text) <= HISTORY_MAX_LINES,
        forall|j: int| 0 <= j < chunk.len() ==> chunk[j] != '\n',
    ensures
        bounded(text + chunk) == text + chunk,
{
    lemma_no_newline_count(chunk);
    lemma_count_concat(text, chunk);
}

/// When the text is one complete line over the bound, exactly its oldest
/// line goes, whole, with its line feed, and the bound is met.
pub proof fn lemma_oldest_line_evicted(line: Seq<char>, rest: Seq<char>)
    requires
        line.len() > 0,
        line.last() == '\n',
        forall|j: int| 0 <= j < line.len() - 1 ==> line[j] != '\n',
        newline_count(line + rest) == HISTORY_MAX_LINES + 1,
    ensures
        bounded(line + rest) == rest,
        newline_count(rest) == HISTORY_MAX_LINES,
{
    let s = line + rest;
    let i = line.len() - 1;
    assert(forall|j: int| 0 <= j < i ==> s[j] == line[j]);
    lemma_drop_first_line_at(s, i);
    assert(s.subrange(i + 1, s.len() as int) =~= rest);
    assert(drop_lines(s, 1) == drop_lines(drop_first_line(s), 0));
}

/// A history never keeps more than `HISTORY_MAX_LINES` complete lines.
pub proof fn lemma_bounded_line_count(s: Seq<char>)
    ensures
        newline_count(bounded(s)) <= HISTORY_MAX_LINES,
{
    if newline_count(s) > HISTORY_MAX_LINES {
        lemma_drop_lines_count(s, (newline_count(s) - HISTORY_MAX_LINES) as nat);
    }
}

proof fn lemma_drop_lines_count(s: Seq<char>, k: nat)
    requires
        k <= newline_count(s),
    ensures
        newline_count(drop_lines(s, k)) + k == newline_count(s),
    decreases k,
{
    if k > 0 {
        lemma_first_newline_exists(s);
        let i = choose|i: int|
            0 <= i < s.len() && s[i] == '\n' && forall|j: int| 0 <= j < i ==> s[j] != '\n';
        lemma_drop_first_line_at(s, i);
        lemma_drop_lines_count(drop_first_line(s), (k - 1) as nat);
    }
}

} // verus!
