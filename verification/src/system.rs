//! System endpoints: reading the tail of the log in chunks from its end,
//! and the static file a front-end path maps to.
use vstd::prelude::*;
use crate::paths::{slashes, strip_leading_slashes};
use crate::text::{append_chars, chars_of, join, join_chars, split, split_chars, string_of, views};

verus! {

// ==================== lines ====================

/// A line without a carriage return at its end.
pub open spec fn strip_cr(l: Seq<char>) -> Seq<char> {
    if l.len() > 0 && l.last() == '\r' {
        l.drop_last()
    } else {
        l
    }
}

/// The lines of a text as `str::lines` gives them: split at `\n`, a `\r`
/// before a `\n` dropped, and no empty line after a final `\n`.
pub open spec fn text_lines(s: Seq<char>) -> Seq<Seq<char>> {
    let p = split(s, '\n');
    let k: int = if s.len() == 0 || s.last() == '\n' {
        p.len() - 1
    } else {
        p.len() as int
    };
    Seq::new(k as nat, |i: int| if i < p.len() - 1 { strip_cr(p[i]) } else { p[i] })
}

/// The lines of a text.
pub fn lines_of(text: &str) -> (r: Vec<String>)
    ensures
        r@.map_values(|s: String| s@) == text_lines(text@),
{
    let chars = chars_of(text);
    let parts = split_chars(&chars, '\n');
    proof {
        crate::text::lemma_split_nonempty(text@, '\n');
    }
    let n = parts.len();
    let k: usize = if chars.len() == 0 || chars[chars.len() - 1] == '\n' {
        n - 1
    } else {
        n
    };
    let ghost want = text_lines(text@);
    let mut r: Vec<String> = Vec::new();
    let mut i: usize = 0;
    while i < k
        invariant
            k <= n == parts@.len(),
            views(parts@) == split(text@, '\n'),
            want == text_lines(text@),
            want.len() == k,
            i <= k,
            r@.map_values(|s: String| s@) == want.subrange(0, i as int),
        decreases k - i,
    {
        let p = &parts[i];
        let line = if i + 1 < n && p.len() > 0 && p[p.len() - 1] == '\r' {
            crate::text::sub_chars(p, 0, p.len() - 1)
        } else {
            crate::text::sub_chars(p, 0, p.len())
        };
        assert(p@.subrange(0, p@.len() as int) =~= p@);
        assert(line@ == want[i as int]);
        let ghost before = r@.map_values(|s: String| s@);
        let line_text = string_of(&line);
        r.push(line_text);
        assert(r@.map_values(|s: String| s@) =~= before.push(want[i as int]));
        assert(want.subrange(0, i + 1) =~= want.subrange(0, i as int).push(want[i as int]));
        i = i + 1;
    }
    r
}

// ==================== log tail ====================

/// How many lines of the log a request asks for (500 when unset).
pub struct LogQuery {
    pub lines: Option<usize>,
}

impl LogQuery {
    /// The number of lines to show.
    pub fn line_count(&self) -> (r: usize)
        ensures
            r == match self.lines {
                Some(n) => n,
                None => 500,
            },
    {
        match self.lines {
            Some(n) => n,
            None => 500,
        }
    }
}

/// The size of the chunks read from the end of the log.
pub const TAIL_CHUNK: u64 = 8192;

/// Reads the last lines of a file in chunks from its end: each chunk read is
/// put before the text read so far (so a line that crosses a chunk boundary
/// is joined again), until that text holds more lines than asked for or the
/// start of the file is reached.
pub struct TailReader {
    remaining: u64,
    buf_size: u64,
    max_lines: usize,
    text: String,
    lines: Vec<String>,
}

/// The mathematical state of a [`TailReader`]: the bytes not read yet, the
/// chunk size, the number of lines asked for and the text read so far (the
/// end of the file).
pub struct TailView {
    pub remaining: nat,
    pub buf_size: nat,
    pub max_lines: nat,
    pub text: Seq<char>,
}

impl View for TailReader {
    type V = TailView;

    closed spec fn view(&self) -> TailView {
        TailView {
            remaining: self.remaining as nat,
            buf_size: self.buf_size as nat,
            max_lines: self.max_lines as nat,
            text: self.text@,
        }
    }
}

/// Whether the reader wants another chunk: the text read so far holds no
/// more lines than asked for, and there is more to read.
pub open spec fn wants_chunk(v: TailView) -> bool {
    text_lines(v.text).len() <= v.max_lines && v.remaining > 0
}

/// The size of the next chunk.
pub open spec fn chunk_size(v: TailView) -> nat {
    if v.buf_size < v.remaining {
        v.buf_size
    } else {
        v.remaining
    }
}

/// The last `n` lines (all of them when there are fewer).
pub open spec fn last_lines(lines: Seq<Seq<char>>, n: nat) -> Seq<Seq<char>> {
    if lines.len() > n {
        lines.subrange(lines.len() - n, lines.len() as int)
    } else {
        lines
    }
}

impl TailReader {
    /// The lines held are those of the text read so far.
    #[verifier::type_invariant]
    spec fn lines_match(self) -> bool {
        self.lines@.map_values(|s: String| s@) == text_lines(self.text@)
    }

    /// A reader for a file of `file_size` bytes that keeps `max_lines`
    /// lines; chunks are 8192 bytes, or the whole file when smaller.
    pub fn new(file_size: u64, max_lines: usize) -> (r: TailReader)
        ensures
            r@.remaining == file_size,
            r@.buf_size == (if file_size < TAIL_CHUNK {
                file_size
            } else {
                TAIL_CHUNK
            }),
            r@.max_lines == max_lines,
            r@.text.len() == 0,
    {
        let buf_size = if file_size < TAIL_CHUNK {
            file_size
        } else {
            TAIL_CHUNK
        };
        let text = String::new();
        let lines = lines_of(text.as_str());
        TailReader { remaining: file_size, buf_size, max_lines, text, lines }
    }

    /// The next chunk to read, as (offset, length), or none when reading is
    /// over.
    pub fn next_read(&self) -> (r: Option<(u64, u64)>)
        ensures
            wants_chunk(self@) ==> r == Some(
                ((self@.remaining - chunk_size(self@)) as u64, chunk_size(self@) as u64),
            ),
            !wants_chunk(self@) ==> r is None,
    {
        proof {
            use_type_invariant(self);
        }
        assert(self.lines@.len() == text_lines(self@.text).len());
        if self.lines.len() <= self.max_lines && self.remaining > 0 {
            let size = if self.buf_size < self.remaining {
                self.buf_size
            } else {
                self.remaining
            };
            Some((self.remaining - size, size))
        } else {
            None
        }
    }

    /// Takes the chunk read at the offset [`next_read`](Self::next_read)
    /// gave, decoded as text: it goes before the text read so far, and the
    /// unread part ends where the chunk began.
    pub fn add_chunk(&mut self, chunk: &str)
        requires
            wants_chunk(old(self)@),
        ensures
            final(self)@.text == chunk@ + old(self)@.text,
            final(self)@.remaining == old(self)@.remaining - chunk_size(old(self)@),
            final(self)@.buf_size == old(self)@.buf_size,
            final(self)@.max_lines == old(self)@.max_lines,
    {
        let size = if self.buf_size < self.remaining {
            self.buf_size
        } else {
            self.remaining
        };
        let mut joined = chars_of(chunk);
        append_chars(&mut joined, &chars_of(self.text.as_str()));
        let text = string_of(&joined);
        let lines = lines_of(text.as_str());
        *self = TailReader {
            remaining: self.remaining - size,
            buf_size: self.buf_size,
            max_lines: self.max_lines,
            text,
            lines,
        };
    }

    /// The text shown: the last lines asked for of the text read, joined
    /// with `\n`.
    pub fn finish(&self) -> (r: String)
        ensures
            r@ == join(last_lines(text_lines(self@.text), self@.max_lines), "\n"@),
    {
        proof {
            use_type_invariant(self);
        }
        let n = self.lines.len();
        let from: usize = if n > self.max_lines {
            n - self.max_lines
        } else {
            0
        };
        let ghost all = text_lines(self@.text);
        let mut parts: Vec<Vec<char>> = Vec::new();
        let mut i: usize = from;
        while i < n
            invariant
                from <= i <= n == self.lines@.len(),
                all == self.lines@.map_values(|s: String| s@),
                views(parts@) == all.subrange(from as int, i as int),
            decreases n - i,
        {
            let ghost before = views(parts@);
            parts.push(chars_of(self.lines[i].as_str()));
            assert(views(parts@) =~= before.push(all[i as int]));
            assert(all.subrange(from as int, i + 1) =~= all.subrange(from as int, i as int).push(
                all[i as int],
            ));
            i = i + 1;
        }
        assert(last_lines(all, self@.max_lines) =~= all.subrange(from as int, n as int));
        string_of(&join_chars(&parts, &chars_of("\n")))
    }
}

/// Law: a log no larger than one chunk is read in a single chunk, after
/// which the reader holds the whole text.
pub proof fn law_small_log_tail(file_size: nat, max_lines: nat, text: Seq<char>)
    requires
        0 < file_size <= TAIL_CHUNK,
    ensures
        ({
            let start = TailView {
                remaining: file_size,
                buf_size: file_size,
                max_lines,
                text: Seq::empty(),
            };
            &&& wants_chunk(start)
            &&& chunk_size(start) == file_size
            &&& !wants_chunk(
                TailView { remaining: (file_size - chunk_size(start)) as nat, text: text + start.text, ..start },
            )
            &&& text + start.text == text
        }),
{
    assert(text + Seq::<char>::empty() =~= text);
    crate::text::lemma_split_nonempty(Seq::<char>::empty(), '\n');
}

proof fn lemma_split_append(a: Seq<char>, b: Seq<char>, sep: char)
    ensures
        split(a + b, sep).len() == split(a, sep).len() + split(b, sep).len() - 1,
        forall|i: int|
            1 <= i < split(b, sep).len() ==> split(a + b, sep)[split(a, sep).len() - 1 + i] == #[trigger] split(
                b,
                sep,
            )[i],
    decreases b.len(),
{
    crate::text::lemma_split_nonempty(a, sep);
    crate::text::lemma_split_nonempty(b, sep);
    if b.len() == 0 {
        assert(a + b =~= a);
    } else {
        let b0 = b.drop_last();
        let x = b.last();
        lemma_split_append(a, b0, sep);
        crate::text::lemma_split_nonempty(b0, sep);
        crate::text::lemma_split_nonempty(a + b0, sep);
        assert((a + b).drop_last() =~= a + b0);
        assert((a + b).last() == x);
        let sw = split(a + b0, sep);
        let sb = split(b0, sep);
        let la = split(a, sep).len();
        if x == sep {
            assert forall|i: int| 1 <= i < split(b, sep).len() implies split(a + b, sep)[la - 1 + i]
                == #[trigger] split(b, sep)[i] by {
                if i < sb.len() {
                    assert(split(a + b, sep)[la - 1 + i] == sw[la - 1 + i]);
                    assert(split(b, sep)[i] == sb[i]);
                }
            }
        } else {
            assert forall|i: int| 1 <= i < split(b, sep).len() implies split(a + b, sep)[la - 1 + i]
                == #[trigger] split(b, sep)[i] by {
                if i < sb.len() - 1 {
                    assert(split(a + b, sep)[la - 1 + i] == sw[la - 1 + i]);
                    assert(split(b, sep)[i] == sb[i]);
                } else {
                    assert(sw.last() == sw[la - 1 + (sb.len() - 1)]);
                    assert(sb.last() == sb[sb.len() - 1]);
                }
            }
        }
    }
}

/// Law: once the text read from the end of a file holds more lines than
/// asked for, its last lines are the last lines of the whole file, whatever
/// precedes it (the first line read may be cut, but it is never among the
/// lines shown).
pub proof fn law_tail_lines_of_whole_file(before: Seq<char>, read: Seq<char>, max_lines: nat)
    requires
        text_lines(read).len() > max_lines,
    ensures
        last_lines(text_lines(before + read), max_lines) == last_lines(text_lines(read), max_lines),
{
    let w = before + read;
    crate::text::lemma_split_nonempty(read, '\n');
    crate::text::lemma_split_nonempty(before, '\n');
    assert(read.len() > 0) by {
        if read.len() == 0 {
            assert(split(read, '\n') =~= seq![Seq::<char>::empty()]);
        }
    }
    assert(w.last() == read.last());
    lemma_split_append(before, read, '\n');
    let pw = split(w, '\n');
    let ph = split(read, '\n');
    let a = split(before, '\n').len();
    let tw = text_lines(w);
    let th = text_lines(read);
    let n = max_lines as int;
    let kh = th.len() as int;
    assert(tw.len() == a - 1 + kh);
    let lw = last_lines(tw, max_lines);
    let lh = last_lines(th, max_lines);
    assert(lw.len() == n && lh.len() == n);
    assert forall|m: int| 0 <= m < n implies lw[m] == lh[m] by {
        let j = kh - n + m;
        assert(1 <= j < kh);
        assert(lh[m] == th[j]);
        assert(lw[m] == tw[a - 1 + j]);
        assert(pw[a - 1 + j] == ph[j]);
    }
    assert(lw =~= lh);
}

// ==================== static files ====================

/// A text with every `..` removed, scanning from the left (`str::replace`
/// with `".."` and `""`).
pub open spec fn remove_dot_dot(s: Seq<char>) -> Seq<char>
    decreases s.len(),
{
    if s.len() == 0 {
        s
    } else if s.len() >= 2 && s[0] == '.' && s[1] == '.' {
        remove_dot_dot(s.subrange(2, s.len() as int))
    } else {
        seq![s[0]] + remove_dot_dot(s.subrange(1, s.len() as int))
    }
}

/// The file under `static/` that a front-end path names: `..` removed,
/// backslashes made slashes, leading slashes dropped.
pub open spec fn static_path(path: Seq<char>) -> Seq<char> {
    "static/"@ + strip_leading_slashes(slashes(remove_dot_dot(path)))
}

/// Whether a text holds `..`.
pub open spec fn has_dot_dot(s: Seq<char>) -> bool {
    exists|i: int| 0 <= i < s.len() - 1 && #[trigger] s[i] == '.' && s[i + 1] == '.'
}

fn remove_dot_dot_chars(s: &Vec<char>) -> (r: Vec<char>)
    ensures
        r@ == remove_dot_dot(s@),
{
    let mut r: Vec<char> = Vec::new();
    let mut i: usize = 0;
    assert(s@.subrange(0, s@.len() as int) =~= s@);
    assert(r@ + remove_dot_dot(s@) =~= remove_dot_dot(s@));
    while i < s.len()
        invariant
            i <= s@.len(),
            r@ + remove_dot_dot(s@.subrange(i as int, s@.len() as int)) == remove_dot_dot(s@),
        decreases s@.len() - i,
    {
        let ghost rest = s@.subrange(i as int, s@.len() as int);
        if i + 1 < s.len() && s[i] == '.' && s[i + 1] == '.' {
            assert(rest.subrange(2, rest.len() as int) =~= s@.subrange(i + 2, s@.len() as int));
            i = i + 2;
        } else {
            assert(rest.subrange(1, rest.len() as int) =~= s@.subrange(i + 1, s@.len() as int));
            let ghost before = r@;
            r.push(s[i]);
            assert(r@ + remove_dot_dot(s@.subrange(i + 1, s@.len() as int)) =~= before + (seq![
                s@[i as int],
            ] + remove_dot_dot(s@.subrange(i + 1, s@.len() as int))));
            i = i + 1;
        }
    }
    assert(r@ + remove_dot_dot(s@.subrange(i as int, s@.len() as int)) =~= r@);
    r
}

/// The `static/` file for a front-end path.
pub fn static_file_path(path: &str) -> (r: String)
    ensures
        r@ == static_path(path@),
{
    let cleaned = remove_dot_dot_chars(&chars_of(path));
    let mut fwd: Vec<char> = Vec::new();
    let mut i: usize = 0;
    while i < cleaned.len()
        invariant
            i <= cleaned@.len(),
            fwd@ == slashes(cleaned@.subrange(0, i as int)),
        decreases cleaned@.len() - i,
    {
        let c = cleaned[i];
        fwd.push(
            if c == '\\' {
                '/'
            } else {
                c
            },
        );
        assert(fwd@ =~= slashes(cleaned@.subrange(0, i + 1)));
        i = i + 1;
    }
    assert(cleaned@.subrange(0, cleaned@.len() as int) =~= cleaned@);
    let mut a: usize = 0;
    assert(fwd@.subrange(0, fwd@.len() as int) =~= fwd@);
    while a < fwd.len() && fwd[a] == '/'
        invariant
            a <= fwd@.len(),
            strip_leading_slashes(fwd@.subrange(a as int, fwd@.len() as int)) == strip_leading_slashes(
                fwd@,
            ),
        decreases fwd@.len() - a,
    {
        assert(fwd@.subrange(a as int, fwd@.len() as int).subrange(
            1,
            fwd@.len() - a,
        ) =~= fwd@.subrange(a + 1, fwd@.len() as int));
        a = a + 1;
    }
    let mut v = chars_of("static/");
    append_chars(&mut v, &crate::text::sub_chars(&fwd, a, fwd.len()));
    string_of(&v)
}

proof fn lemma_remove_dot_dot(s: Seq<char>)
    ensures
        !has_dot_dot(remove_dot_dot(s)),
        s.len() > 0 && s[0] != '.' ==> remove_dot_dot(s).len() > 0 && remove_dot_dot(s)[0]
            == s[0],
    decreases s.len(),
{
    if s.len() == 0 {
    } else if s.len() >= 2 && s[0] == '.' && s[1] == '.' {
        lemma_remove_dot_dot(s.subrange(2, s.len() as int));
    } else {
        let rest = s.subrange(1, s.len() as int);
        lemma_remove_dot_dot(rest);
        let r = seq![s[0]] + remove_dot_dot(rest);
        let t = remove_dot_dot(rest);
        assert forall|i: int| 0 <= i < r.len() - 1 && #[trigger] r[i] == '.' implies r[i + 1]
            != '.' by {
            if i == 0 {
                if rest.len() > 0 {
                    assert(rest[0] == s[1]);
                    if s[1] == '.' {
                        assert(s[0] != '.');
                    }
                }
            } else {
                assert(r[i] == t[i - 1]);
                assert(r[i + 1] == t[i]);
            }
        }
    }
}

proof fn lemma_strip_slashes_suffix(s: Seq<char>)
    ensures
        exists|k: int| 0 <= k <= s.len() && strip_leading_slashes(s) == s.subrange(k, s.len() as int),
    decreases s.len(),
{
    if s.len() > 0 && s[0] == '/' {
        let rest = s.subrange(1, s.len() as int);
        lemma_strip_slashes_suffix(rest);
        let k = choose|k: int| 0 <= k <= rest.len() && strip_leading_slashes(rest) == rest.subrange(
            k,
            rest.len() as int,
        );
        assert(rest.subrange(k, rest.len() as int) =~= s.subrange(k + 1, s.len() as int));
    } else {
        assert(s.subrange(0, s.len() as int) =~= s);
    }
}

/// Law: the static file a front-end path names never holds `..`, so it
/// cannot leave the `static/` directory.
pub proof fn law_static_path_stays_inside(path: Seq<char>)
    ensures
        !has_dot_dot(static_path(path)),
        static_path(path).subrange(0, 7) == "static/"@,
{
    reveal_strlit("static/");
    let cleaned = remove_dot_dot(path);
    lemma_remove_dot_dot(path);
    let fwd = slashes(cleaned);
    assert forall|i: int| 0 <= i < fwd.len() - 1 && #[trigger] fwd[i] == '.' implies fwd[i + 1]
        != '.' by {
        assert(cleaned[i] == '.');
        if cleaned[i + 1] == '.' {
            assert(has_dot_dot(cleaned));
        }
    }
    lemma_strip_slashes_suffix(fwd);
    let t = strip_leading_slashes(fwd);
    let k = choose|k: int| 0 <= k <= fwd.len() && t == fwd.subrange(k, fwd.len() as int);
    let r = static_path(path);
    assert(r == "static/"@ + t);
    assert forall|i: int| 0 <= i < r.len() - 1 && #[trigger] r[i] == '.' implies r[i + 1]
        != '.' by {
        if i >= 7 {
            assert(r[i] == fwd[i - 7 + k]);
            assert(r[i + 1] == fwd[i - 7 + k + 1]);
        } else {
            assert(i <= 5 || r[i] == '/');
        }
    }
    assert(r.subrange(0, 7) =~= "static/"@);
}

} // verus!
