use vstd::prelude::*;

use crate::geometry::Rgba;
use crate::text::{chars_of, slice_chars, string_of};

verus! {

/// Pixel width assumed for the widest glyph when fitting text into a width.
pub const WIDEST_CHARACTER_PIXEL_WIDTH: i32 = 9;

/// The character views of a sequence of strings.
pub open spec fn views(v: Seq<String>) -> Seq<Seq<char>> {
    v.map_values(|s: String| s@)
}

/// How many characters fit on one logger line of pixel width `w` with
/// left padding `padding`: one glyph width is kept free at the right edge.
pub open spec fn spec_max_num_chars(w: int, padding: int) -> int {
    let room = w - padding - WIDEST_CHARACTER_PIXEL_WIDTH;
    if room <= 0 {
        0
    } else {
        room / WIDEST_CHARACTER_PIXEL_WIDTH as int
    }
}

/// How many lines of text of the given font size fit in height `h`.
pub open spec fn spec_max_lines(h: int, font_size: int) -> int {
    if h <= 0 || font_size + 2 <= 0 {
        0
    } else {
        h / (font_size + 2)
    }
}

/// `l` cut into consecutive pieces of `n` characters, the last one possibly
/// shorter; a width of zero leaves the line whole.
pub open spec fn chunks(l: Seq<char>, n: nat) -> Seq<Seq<char>>
    decreases l.len(),
{
    if n == 0 || l.len() <= n {
        seq![l]
    } else {
        seq![l.take(n as int)] + chunks(l.skip(n as int), n)
    }
}

/// A line without the carriage return that may precede its newline.
pub open spec fn strip_cr(l: Seq<char>) -> Seq<char> {
    if l.len() > 0 && l.last() == '\r' {
        l.drop_last()
    } else {
        l
    }
}

/// Reading `s` left to right: the wrapped lines of every line already ended
/// by a newline, and the characters of the line still open.
pub open spec fn wrap_acc(s: Seq<char>, n: nat) -> (Seq<Seq<char>>, Seq<char>)
    decreases s.len(),
{
    if s.len() == 0 {
        (seq![], seq![])
    } else {
        let (done, cur) = wrap_acc(s.drop_last(), n);
        if s.last() == '\n' {
            (done + chunks(strip_cr(cur), n), seq![])
        } else {
            (done, cur.push(s.last()))
        }
    }
}

/// The display lines of `s`: split at line endings as `str::lines` does
/// (no empty line after a final newline), then each line cut to width `n`.
pub open spec fn spec_wrap(s: Seq<char>, n: nat) -> Seq<Seq<char>> {
    let (done, cur) = wrap_acc(s, n);
    if cur.len() == 0 {
        done
    } else {
        done + chunks(cur, n)
    }
}

/// A scrollback buffer of text lines drawn in a rectangle, each new entry
/// prefixed with a tag and wrapped to the rectangle's width.
pub struct Logger {
    pub x: i32,
    pub y: i32,
    pub w: i32,
    pub h: i32,
    pub x_padding: i32,
    pub lines: Vec<String>,
    pub string_colour: Rgba,
    pub font_size: i32,
    pub line_tag: String,
    pub max_num_chars: usize,
}

impl Clone for Logger {
    fn clone(&self) -> (r: Self)
        ensures
            r.lines_view() == self.lines_view(),
            r.same_frame(*self),
    {
        let r = Logger {
            x: self.x,
            y: self.y,
            w: self.w,
            h: self.h,
            x_padding: self.x_padding,
            lines: clone_lines(&self.lines),
            string_colour: self.string_colour,
            font_size: self.font_size,
            line_tag: self.line_tag.clone(),
            max_num_chars: self.max_num_chars,
        };
        assert(r.lines@ =~= self.lines@);
        r
    }
}

fn clone_lines(v: &Vec<String>) -> (r: Vec<String>)
    ensures
        r@ == v@,
{
    let mut r: Vec<String> = Vec::new();
    let mut i: usize = 0;
    while i < v.len()
        invariant
            0 <= i <= v@.len(),
            r@ == v@.subrange(0, i as int),
        decreases v@.len() - i,
    {
        r.push(v[i].clone());
        i = i + 1;
        assert(r@ =~= v@.subrange(0, i as int));
    }
    assert(v@.subrange(0, v@.len() as int) =~= v@);
    r
}

proof fn lemma_chunks_skip(l: Seq<char>, start: int, n: nat)
    requires
        0 <= start <= l.len(),
        n > 0,
        l.len() - start > n,
    ensures
        chunks(l.skip(start), n) == seq![l.subrange(start, start + n)] + chunks(
            l.skip(start + n),
            n,
        ),
{
    assert(l.skip(start).take(n as int) =~= l.subrange(start, start + n));
    assert(l.skip(start).skip(n as int) =~= l.skip(start + n));
}

/// Appends the pieces of `l` cut to width `n` to `out`.
fn push_chunks(out: &mut Vec<String>, l: &Vec<char>, n: usize)
    ensures
        views(final(out)@) == views(old(out)@) + chunks(l@, n as nat),
{
    let len: usize = l.len();
    let mut start: usize = 0;
    assert(l@.skip(0) =~= l@);
    if n > 0 {
        while len - start > n
            invariant
                n > 0,
                len == l@.len(),
                start <= len,
                views(out@) + chunks(l@.skip(start as int), n as nat) == views(old(out)@)
                    + chunks(l@, n as nat),
            decreases len - start,
        {
            let piece = slice_chars(l, start, start + n);
            let s = string_of(&piece);
            proof {
                lemma_chunks_skip(l@, start as int, n as nat);
            }
            out.push(s);
            let ghost prev = views(out@).drop_last();
            assert(views(out@) =~= prev.push(s@));
            assert(prev + seq![l@.subrange(start as int, start + n)] + chunks(
                l@.skip(start + n),
                n as nat,
            ) =~= prev.push(s@) + chunks(l@.skip(start + n), n as nat));
            start = start + n;
        }
    }
    let piece = slice_chars(l, start, len);
    let s = string_of(&piece);
    let ghost before = views(out@);
    assert(chunks(l@.skip(start as int), n as nat) == seq![l@.skip(start as int)]);
    assert(l@.skip(start as int) =~= piece@);
    out.push(s);
    assert(views(out@) =~= before.push(s@));
    assert(before.push(s@) =~= before + chunks(l@.skip(start as int), n as nat));
}

proof fn lemma_chunks_fit(l: Seq<char>, n: nat)
    requires
        n > 0,
    ensures
        forall|k: int| 0 <= k < chunks(l, n).len() ==> #[trigger] chunks(l, n)[k].len() <= n,
        l.len() > n ==> chunks(l, n).len() >= 2,
    decreases l.len(),
{
    if l.len() > n {
        lemma_chunks_fit(l.skip(n as int), n);
        let c = chunks(l, n);
        assert forall|k: int| 0 <= k < c.len() implies #[trigger] c[k].len() <= n by {
            if k > 0 {
                assert(c[k] == chunks(l.skip(n as int), n)[k - 1]);
            }
        }
    }
}

proof fn lemma_wrap_acc_fit(s: Seq<char>, n: nat)
    requires
        n > 0,
    ensures
        forall|k: int|
            0 <= k < wrap_acc(s, n).0.len() ==> #[trigger] wrap_acc(s, n).0[k].len() <= n,
        (forall|i: int| 0 <= i < s.len() ==> s[i] != '\n') ==> wrap_acc(s, n) == (
            Seq::<Seq<char>>::empty(),
            s,
        ),
    decreases s.len(),
{
    if s.len() > 0 {
        lemma_wrap_acc_fit(s.drop_last(), n);
        let (done, cur) = wrap_acc(s.drop_last(), n);
        if s.last() == '\n' {
            lemma_chunks_fit(strip_cr(cur), n);
            let c = chunks(strip_cr(cur), n);
            assert forall|k: int|
                0 <= k < (done + c).len() implies #[trigger] (done + c)[k].len() <= n by {
                if k >= done.len() {
                    assert((done + c)[k] == c[k - done.len()]);
                }
            }
        } else {
            if forall|i: int| 0 <= i < s.len() ==> s[i] != '\n' {
                assert(forall|i: int|
                    0 <= i < s.drop_last().len() ==> s.drop_last()[i] == s[i]);
                assert(cur.push(s.last()) =~= s);
            }
        }
    }
}

/// Every line that logging adds fits the logger's width, tag included, and
/// a single line of text wider than that is split over several lines.
pub proof fn lemma_logged_lines_fit(l: Logger, inp: Seq<char>)
    requires
        l.max_num_chars() > 0,
    ensures
        forall|k: int|
            0 <= k < spec_wrap(l.line_tag() + inp, l.max_num_chars()).len() ==> (#[trigger] spec_wrap(
                l.line_tag() + inp,
                l.max_num_chars(),
            )[k]).len() <= l.max_num_chars(),
        (forall|i: int| 0 <= i < (l.line_tag() + inp).len() ==> (l.line_tag() + inp)[i] != '\n')
            && (l.line_tag() + inp).len() > l.max_num_chars() ==> spec_wrap(
            l.line_tag() + inp,
            l.max_num_chars(),
        ).len() >= 2,
{
    let s = l.line_tag() + inp;
    let n = l.max_num_chars();
    lemma_wrap_acc_fit(s, n);
    let (done, cur) = wrap_acc(s, n);
    if cur.len() > 0 {
        lemma_chunks_fit(cur, n);
        let c = chunks(cur, n);
        assert forall|k: int| 0 <= k < (done + c).len() implies #[trigger] (done + c)[k].len() <= n by {
            if k >= done.len() {
                assert((done + c)[k] == c[k - done.len()]);
            }
        }
    }
}

proof fn lemma_wrap_acc_grows(s: Seq<char>, k: int, n: nat)
    requires
        0 <= k <= s.len(),
    ensures
        wrap_acc(s, n).0.len() >= wrap_acc(s.take(k), n).0.len(),
    decreases s.len(),
{
    if k < s.len() {
        assert(s.drop_last().take(k) =~= s.take(k));
        lemma_wrap_acc_grows(s.drop_last(), k, n);
    } else {
        assert(s.take(k) =~= s);
    }
}

/// A line of text wider than the logger is split, wherever it stands: when
/// the first line of the tagged text, ended by a newline, is wider than
/// `max_num_chars` (not counting a carriage return before the newline),
/// logging adds at least two lines.
pub proof fn lemma_wide_first_line_is_split(l: Logger, inp: Seq<char>, k: int)
    requires
        l.max_num_chars() > 0,
        0 <= k < (l.line_tag() + inp).len(),
        (l.line_tag() + inp)[k] == '\n',
        forall|i: int| 0 <= i < k ==> (l.line_tag() + inp)[i] != '\n',
        strip_cr((l.line_tag() + inp).take(k)).len() > l.max_num_chars(),
    ensures
        spec_wrap(l.line_tag() + inp, l.max_num_chars()).len() >= 2,
{
    let s = l.line_tag() + inp;
    let n = l.max_num_chars();
    let p = s.take(k);
    lemma_wrap_acc_fit(p, n);
    assert(s.take(k + 1).drop_last() =~= p);
    lemma_chunks_fit(strip_cr(p), n);
    assert(wrap_acc(s.take(k + 1), n).0 =~= chunks(strip_cr(p), n));
    lemma_wrap_acc_grows(s, k + 1, n);
}

impl Logger {
    pub fn new(
        x: i32,
        y: i32,
        w: i32,
        h: i32,
        padding: i32,
        size: i32,
        colour: Rgba,
        tag: String,
    ) -> (r: Logger)
        ensures
            r.x == x && r.y == y && r.w == w && r.h == h,
            r.x_padding == padding,
            r.font_size == size,
            r.string_colour == colour,
            r.line_tag() == tag@,
            r.lines_view() == Seq::<Seq<char>>::empty(),
            r.max_num_chars() == spec_max_num_chars(w as int, padding as int),
    {
        let room: i64 = w as i64 - padding as i64 - WIDEST_CHARACTER_PIXEL_WIDTH as i64;
        let max: usize = if room <= 0 {
            0
        } else {
            (room / WIDEST_CHARACTER_PIXEL_WIDTH as i64) as usize
        };
        let r = Logger {
            x,
            y,
            w,
            h,
            x_padding: padding,
            lines: Vec::new(),
            string_colour: colour,
            font_size: size,
            line_tag: tag,
            max_num_chars: max,
        };
        assert(r.lines_view() =~= Seq::<Seq<char>>::empty());
        r
    }

    /// The logged lines, oldest first.
    pub open spec fn lines_view(&self) -> Seq<Seq<char>> {
        views(self.lines@)
    }

    pub open spec fn line_tag(&self) -> Seq<char> {
        self.line_tag@
    }

    pub open spec fn max_num_chars(&self) -> nat {
        self.max_num_chars as nat
    }

    /// The width, in characters, that logged lines are cut to.
    pub fn get_max_num_chars(&self) -> (r: usize)
        ensures
            r == self.max_num_chars(),
    {
        self.max_num_chars
    }

    pub fn get_lines(&self) -> (r: Vec<String>)
        ensures
            views(r@) == self.lines_view(),
    {
        clone_lines(&self.lines)
    }

    /// Logs `inp` behind the line tag: the tagged text is split at its line
    /// endings and every line is cut into pieces of at most
    /// `max_num_chars` characters.
    pub fn add_line(&mut self, inp: &str)
        ensures
            final(self).lines_view() == old(self).lines_view() + spec_wrap(
                old(self).line_tag() + inp@,
                old(self).max_num_chars(),
            ),
            final(self).same_frame(*old(self)),
    {
        let mut text: Vec<char> = chars_of(self.line_tag.as_str());
        let rest: Vec<char> = chars_of(inp);
        crate::text::extend_chars(&mut text, &rest);
        let ghost s = text@;
        let n: usize = self.max_num_chars;
        let mut cur: Vec<char> = Vec::new();
        let mut i: usize = 0;
        while i < text.len()
            invariant
                s == text@,
                n == self.max_num_chars,
                0 <= i <= s.len(),
                self.same_frame(*old(self)),
                wrap_acc(s.take(i as int), n as nat) == (
                    views(self.lines@).skip(views(old(self).lines@).len() as int),
                    cur@,
                ),
                views(self.lines@).len() >= views(old(self).lines@).len(),
                views(self.lines@).take(views(old(self).lines@).len() as int) == views(
                    old(self).lines@,
                ),
            decreases s.len() - i,
        {
            let c = text[i];
            let ghost before = views(self.lines@);
            assert(s.take(i + 1).drop_last() =~= s.take(i as int));
            if c == '\n' {
                let mut piece = cur;
                let plen = piece.len();
                if plen > 0 && piece[plen - 1] == '\r' {
                    piece.pop();
                    assert(piece@ =~= strip_cr(cur@));
                }
                push_chunks(&mut self.lines, &piece, n);
                cur = Vec::new();
                assert(views(self.lines@).skip(views(old(self).lines@).len() as int) =~= before.skip(
                    views(old(self).lines@).len() as int,
                ) + chunks(piece@, n as nat));
                assert(views(self.lines@).take(views(old(self).lines@).len() as int) =~= before.take(
                    views(old(self).lines@).len() as int,
                ));
            } else {
                cur.push(c);
            }
            i = i + 1;
            assert(cur@ == wrap_acc(s.take(i as int), n as nat).1);
        }
        assert(s.take(s.len() as int) =~= s);
        let ghost before = views(self.lines@);
        if cur.len() > 0 {
            push_chunks(&mut self.lines, &cur, n);
        }
        assert(views(self.lines@) =~= views(old(self).lines@) + spec_wrap(s, n as nat)) by {
            assert(before =~= views(old(self).lines@) + before.skip(views(old(self).lines@).len() as int));
        }
    }

    /// Empties the scrollback.
    pub fn clear_lines(&mut self)
        ensures
            final(self).lines_view() == Seq::<Seq<char>>::empty(),
            final(self).same_frame(*old(self)),
    {
        self.lines = Vec::new();
        assert(self.lines_view() =~= Seq::<Seq<char>>::empty());
    }

    /// Everything but the lines is unchanged.
    pub open spec fn same_frame(&self, other: Logger) -> bool {
        &&& self.x == other.x && self.y == other.y && self.w == other.w && self.h == other.h
        &&& self.x_padding == other.x_padding
        &&& self.string_colour == other.string_colour
        &&& self.font_size == other.font_size
        &&& self.line_tag() == other.line_tag()
        &&& self.max_num_chars() == other.max_num_chars()
    }

    /// Index of the first line drawn: only the most recent lines that fit
    /// are shown.
    pub open spec fn first_visible(&self) -> int {
        let n = self.lines_view().len() as int;
        let m = spec_max_lines(self.h as int, self.font_size as int);
        if n > m {
            n - m
        } else {
            0
        }
    }

    /// The lines to draw, oldest first.
    pub fn visible_lines(&self) -> (r: Vec<String>)
        ensures
            views(r@) == self.lines_view().skip(self.first_visible()),
    {
        let max: i64 = if self.h <= 0 || self.font_size as i64 + 2 <= 0 {
            0
        } else {
            self.h as i64 / (self.font_size as i64 + 2)
        };
        assert(0 <= max <= i32::MAX);
        let m: usize = max as usize;
        let n: usize = self.lines.len();
        let lower: usize = if n > m {
            n - m
        } else {
            0
        };
        let mut r: Vec<String> = Vec::new();
        let mut i: usize = lower;
        while i < n
            invariant
                lower <= i <= n,
                n == self.lines@.len(),
                lower == self.first_visible(),
                r@ == self.lines@.subrange(lower as int, i as int),
            decreases n - i,
        {
            r.push(self.lines[i].clone());
            i = i + 1;
            assert(r@ =~= self.lines@.subrange(lower as int, i as int));
        }
        assert(views(r@) =~= self.lines_view().skip(self.first_visible()));
        r
    }
}

} // verus!
