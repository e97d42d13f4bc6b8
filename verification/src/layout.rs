//! Text layout for the screen: definitions wrapped to a reading width,
//! fitted into the rows available, and key hints that drop from the end
//! rather than clip.

use vstd::prelude::*;

use crate::text::{chars_of, is_whitespace, is_ws, push_chars, string_of};

verus! {

/// Definitions under the board wrap at a comfortable reading width.
pub fn gloss_width(screen: u16) -> (w: u16)
    ensures
        w == if screen < 4 {
            0
        } else if screen - 4 < 60 {
            screen - 4
        } else {
            60
        },
{
    let w = screen.saturating_sub(4);
    if w < 60 {
        w
    } else {
        60
    }
}

/// The words of `s`, the current word so far being `cur`, the way
/// `str::split_whitespace` yields them: runs of non-whitespace characters.
pub open spec fn words_from(s: Seq<char>, cur: Seq<char>) -> Seq<Seq<char>>
    decreases s.len(),
{
    if s.len() == 0 {
        if cur.len() == 0 {
            Seq::empty()
        } else {
            seq![cur]
        }
    } else if is_ws(s[0]) {
        (if cur.len() == 0 {
            Seq::empty()
        } else {
            seq![cur]
        }) + words_from(s.drop_first(), Seq::empty())
    } else {
        words_from(s.drop_first(), cur.push(s[0]))
    }
}

pub open spec fn split_whitespace(s: Seq<char>) -> Seq<Seq<char>> {
    words_from(s, Seq::empty())
}

/// The sense separator of a definition.
pub open spec fn separator() -> Seq<char> {
    seq!['·']
}

/// The words with each separator `·` joined to the end of the word before
/// it, so a line never starts with one.
pub open spec fn merge_separators(ws: Seq<Seq<char>>) -> Seq<Seq<char>>
    decreases ws.len(),
{
    if ws.len() == 0 {
        Seq::empty()
    } else {
        let prev = merge_separators(ws.drop_last());
        if ws.last() == separator() && prev.len() > 0 {
            prev.drop_last().push(prev.last() + seq![' '] + separator())
        } else {
            prev.push(ws.last())
        }
    }
}

/// Cut lines of exactly `w` characters off the front of `line` while it is
/// longer than `w`.
pub open spec fn cut(lines: Seq<Seq<char>>, line: Seq<char>, w: nat) -> (Seq<Seq<char>>, Seq<char>)
    decreases line.len(),
{
    if w > 0 && line.len() > w {
        cut(lines.push(line.take(w as int)), line.skip(w as int), w)
    } else {
        (lines, line)
    }
}

/// Place one word: start a new line if it does not fit after the current
/// one, then split whatever is still too long.
pub open spec fn place(st: (Seq<Seq<char>>, Seq<char>), word: Seq<char>, w: nat) -> (
    Seq<Seq<char>>,
    Seq<char>,
) {
    let (lines, line) = st;
    let fits = line.len() + 1 + word.len() <= w;
    let (lines, line) = if line.len() > 0 && !fits {
        (lines.push(line), Seq::<char>::empty())
    } else {
        (lines, line)
    };
    let line = if line.len() > 0 {
        line + seq![' '] + word
    } else {
        word
    };
    cut(lines, line, w)
}

/// Finished lines and the current line after placing each word in turn.
pub open spec fn wrap_state(words: Seq<Seq<char>>, w: nat) -> (Seq<Seq<char>>, Seq<char>)
    decreases words.len(),
{
    if words.len() == 0 {
        (Seq::empty(), Seq::empty())
    } else {
        place(wrap_state(words.drop_last(), w), words.last(), w)
    }
}

/// `text` wrapped greedily to lines of at most `width` characters (at least
/// one): words fill a line while they fit, a separator stays at the end of a
/// line, and a word too long for a line is split.
pub open spec fn spec_wrap(text: Seq<char>, width: u16) -> Seq<Seq<char>> {
    let w: nat = if width == 0 {
        1
    } else {
        width as nat
    };
    let (lines, line) = wrap_state(merge_separators(split_whitespace(text)), w);
    if line.len() > 0 {
        lines.push(line)
    } else {
        lines
    }
}

/// Every line holds between one and `w` characters.
pub open spec fn lines_fit(lines: Seq<Seq<char>>, w: nat) -> bool {
    forall|i: int| 0 <= i < lines.len() ==> 0 < #[trigger] lines[i].len() <= w
}

/// Every word holds at least one character.
pub open spec fn no_empty(ws: Seq<Seq<char>>) -> bool {
    forall|i: int| 0 <= i < ws.len() ==> #[trigger] ws[i].len() > 0
}

proof fn lemma_words_nonempty(s: Seq<char>, cur: Seq<char>)
    ensures
        no_empty(words_from(s, cur)),
    decreases s.len(),
{
    if s.len() > 0 {
        if is_ws(s[0]) {
            lemma_words_nonempty(s.drop_first(), Seq::empty());
        } else {
            lemma_words_nonempty(s.drop_first(), cur.push(s[0]));
        }
    }
}

proof fn lemma_merge_nonempty(ws: Seq<Seq<char>>)
    requires
        no_empty(ws),
    ensures
        no_empty(merge_separators(ws)),
    decreases ws.len(),
{
    if ws.len() > 0 {
        lemma_merge_nonempty(ws.drop_last());
    }
}

proof fn lemma_cut_fits(lines: Seq<Seq<char>>, line: Seq<char>, w: nat)
    requires
        w > 0,
        lines_fit(lines, w),
    ensures
        lines_fit(cut(lines, line, w).0, w),
        cut(lines, line, w).1.len() <= w,
        line.len() > 0 ==> cut(lines, line, w).0.len() > lines.len() || cut(lines, line, w).1.len() > 0,
    decreases line.len(),
{
    if line.len() > w {
        lemma_cut_fits(lines.push(line.take(w as int)), line.skip(w as int), w);
    }
}

proof fn lemma_wrap_state_fits(words: Seq<Seq<char>>, w: nat)
    requires
        w > 0,
        no_empty(words),
    ensures
        lines_fit(wrap_state(words, w).0, w),
        wrap_state(words, w).1.len() <= w,
    decreases words.len(),
{
    if words.len() > 0 {
        lemma_wrap_state_fits(words.drop_last(), w);
        let (lines, line) = wrap_state(words.drop_last(), w);
        let word = words.last();
        let fits = line.len() + 1 + word.len() <= w;
        let (l2, c2) = if line.len() > 0 && !fits {
            (lines.push(line), Seq::<char>::empty())
        } else {
            (lines, line)
        };
        assert(lines_fit(l2, w));
        let c3 = if c2.len() > 0 {
            c2 + seq![' '] + word
        } else {
            word
        };
        lemma_cut_fits(l2, c3, w);
    }
}

/// Every wrapped line holds between one and `width` characters (at least one).
pub proof fn lemma_wrapped_lines_fit(text: Seq<char>, width: u16)
    ensures
        lines_fit(spec_wrap(text, width), if width == 0 {
            1
        } else {
            width as nat
        }),
{
    let w: nat = if width == 0 {
        1
    } else {
        width as nat
    };
    lemma_words_nonempty(text, Seq::empty());
    lemma_merge_nonempty(split_whitespace(text));
    lemma_wrap_state_fits(merge_separators(split_whitespace(text)), w);
}

/// The character views of a list of strings.
pub open spec fn views(v: Seq<String>) -> Seq<Seq<char>> {
    v.map_values(|s: String| s@)
}

/// The words of `text`, as `str::split_whitespace` yields them.
fn words_of(text: &[char]) -> (r: Vec<Vec<char>>)
    ensures
        r@.map_values(|v: Vec<char>| v@) == split_whitespace(text@),
{
    let mut r: Vec<Vec<char>> = Vec::new();
    let mut cur: Vec<char> = Vec::new();
    let mut i: usize = 0;
    assert(text@.skip(0) =~= text@);
    assert(r@.map_values(|v: Vec<char>| v@) =~= Seq::<Seq<char>>::empty());
    assert(cur@ =~= Seq::<char>::empty());
    while i < text.len()
        invariant
            i <= text@.len(),
            split_whitespace(text@) == r@.map_values(|v: Vec<char>| v@) + words_from(
                text@.skip(i as int),
                cur@,
            ),
        decreases text@.len() - i,
    {
        let ghost rest = text@.skip(i as int);
        let ghost before = r@.map_values(|v: Vec<char>| v@);
        assert(rest.drop_first() =~= text@.skip(i + 1));
        if is_whitespace(text[i]) {
            if cur.len() > 0 {
                let piece = cur;
                cur = Vec::new();
                r.push(piece);
                assert(r@.map_values(|v: Vec<char>| v@) =~= before + seq![piece@]);
            }
            assert(cur@ =~= Seq::<char>::empty());
        } else {
            cur.push(text[i]);
        }
        i += 1;
    }
    assert(text@.skip(i as int) =~= Seq::<char>::empty());
    if cur.len() > 0 {
        let ghost before = r@.map_values(|v: Vec<char>| v@);
        let piece = cur;
        r.push(piece);
        assert(r@.map_values(|v: Vec<char>| v@) =~= before + seq![piece@]);
    } else {
        assert(r@.map_values(|v: Vec<char>| v@) =~= r@.map_values(|v: Vec<char>| v@) + Seq::<Seq<char>>::empty());
    }
    r
}

/// Join each separator `·` to the word before it.
fn merge_words(words: Vec<Vec<char>>) -> (r: Vec<Vec<char>>)
    ensures
        r@.map_values(|v: Vec<char>| v@) == merge_separators(words@.map_values(|v: Vec<char>| v@)),
{
    let ghost ws = words@.map_values(|v: Vec<char>| v@);
    let mut r: Vec<Vec<char>> = Vec::new();
    let mut i: usize = 0;
    assert(ws.take(0) =~= Seq::<Seq<char>>::empty());
    assert(r@.map_values(|v: Vec<char>| v@) =~= Seq::<Seq<char>>::empty());
    while i < words.len()
        invariant
            i <= words@.len(),
            ws == words@.map_values(|v: Vec<char>| v@),
            r@.map_values(|v: Vec<char>| v@) == merge_separators(ws.take(i as int)),
        decreases words@.len() - i,
    {
        let ghost before = r@.map_values(|v: Vec<char>| v@);
        let w = &words[i];
        let ghost t = ws.take(i + 1);
        assert(t.drop_last() =~= ws.take(i as int));
        assert(t.last() == w@);
        let is_sep = w.len() == 1 && w[0] == '·';
        assert(is_sep == (w@ == separator())) by {
            if w@.len() == 1 && w@[0] == '·' {
                assert(w@ =~= separator());
            }
        }
        if is_sep && r.len() > 0 {
            let n = r.len();
            let mut last = r.pop().unwrap();
            assert(last@ == before.last());
            last.push(' ');
            last.push('·');
            assert(last@ =~= before.last() + seq![' '] + separator());
            r.push(last);
            assert(r@.map_values(|v: Vec<char>| v@) =~= before.drop_last().push(
                before.last() + seq![' '] + separator(),
            ));
        } else {
            r.push(w.clone());
            assert(r@.map_values(|v: Vec<char>| v@) =~= before.push(w@));
        }
        i += 1;
    }
    assert(ws.take(i as int) =~= ws);
    r
}

/// Word-wrap `text` to lines of at most `width` characters. A sense separator
/// `·` stays on the end of a line rather than starting the next one, and a
/// word too long for a line is split.
pub fn wrap(text: &str, width: u16) -> (lines: Vec<String>)
    ensures
        views(lines@) == spec_wrap(text@, width),
        lines_fit(views(lines@), if width == 0 {
            1
        } else {
            width as nat
        }),
{
    let w: usize = if width == 0 {
        1
    } else {
        width as usize
    };
    let chars = chars_of(text);
    let words = merge_words(words_of(chars.as_slice()));
    let ghost ws = words@.map_values(|v: Vec<char>| v@);
    let mut lines: Vec<Vec<char>> = Vec::new();
    let mut line: Vec<char> = Vec::new();
    let mut k: usize = 0;
    assert(ws.take(0) =~= Seq::<Seq<char>>::empty());
    assert(lines@.map_values(|v: Vec<char>| v@) =~= Seq::<Seq<char>>::empty());
    assert(line@ =~= Seq::<char>::empty());
    while k < words.len()
        invariant
            k <= words@.len(),
            w as nat == (if width == 0 {
                1
            } else {
                width as nat
            }),
            ws == words@.map_values(|v: Vec<char>| v@),
            (lines@.map_values(|v: Vec<char>| v@), line@) == wrap_state(ws.take(k as int), w as nat),
        decreases words@.len() - k,
    {
        let ghost t = ws.take(k + 1);
        assert(t.drop_last() =~= ws.take(k as int));
        assert(t.last() == words@[k as int]@);
        let word = &words[k];
        let fits = line.len() as u128 + 1 + word.len() as u128 <= w as u128;
        if line.len() > 0 && !fits {
            let ghost before = lines@.map_values(|v: Vec<char>| v@);
            let done = line;
            line = Vec::new();
            lines.push(done);
            assert(lines@.map_values(|v: Vec<char>| v@) =~= before.push(done@));
            assert(line@ =~= Seq::<char>::empty());
        }
        if line.len() > 0 {
            line.push(' ');
        }
        let mut j: usize = 0;
        let ghost base = line@;
        while j < word.len()
            invariant
                j <= word@.len(),
                line@ == base + word@.take(j as int),
            decreases word@.len() - j,
        {
            line.push(word[j]);
            j += 1;
            assert(line@ =~= base + word@.take(j as int));
        }
        assert(word@.take(j as int) =~= word@);
        // Split whatever no longer fits.
        let ghost goal = cut(lines@.map_values(|v: Vec<char>| v@), line@, w as nat);
        while line.len() > w
            invariant
                w > 0,
                cut(lines@.map_values(|v: Vec<char>| v@), line@, w as nat) == goal,
            decreases line@.len(),
        {
            let ghost before = lines@.map_values(|v: Vec<char>| v@);
            let mut head: Vec<char> = Vec::new();
            let mut rest: Vec<char> = Vec::new();
            let mut m: usize = 0;
            while m < line.len()
                invariant
                    w < line@.len(),
                    m <= line@.len(),
                    head@ == line@.take(if m < w {
                        m as int
                    } else {
                        w as int
                    }),
                    rest@ == (if m <= w {
                        Seq::empty()
                    } else {
                        line@.subrange(w as int, m as int)
                    }),
                decreases line@.len() - m,
            {
                if m < w {
                    head.push(line[m]);
                } else {
                    rest.push(line[m]);
                }
                m += 1;
                assert(head@ =~= line@.take(
                    if m < w {
                        m as int
                    } else {
                        w as int
                    },
                ));
                assert(rest@ =~= (if m <= w {
                    Seq::empty()
                } else {
                    line@.subrange(w as int, m as int)
                }));
            }
            assert(rest@ =~= line@.skip(w as int));
            lines.push(head);
            line = rest;
            assert(lines@.map_values(|v: Vec<char>| v@) =~= before.push(head@));
        }
        k += 1;
    }
    assert(ws.take(k as int) =~= ws);
    if line.len() > 0 {
        let ghost before = lines@.map_values(|v: Vec<char>| v@);
        lines.push(line);
        assert(lines@.map_values(|v: Vec<char>| v@) =~= before.push(line@));
    }
    let ghost spec_lines = lines@.map_values(|v: Vec<char>| v@);
    assert(spec_lines == spec_wrap(text@, width));
    let mut out: Vec<String> = Vec::new();
    let mut i: usize = 0;
    while i < lines.len()
        invariant
            i <= lines@.len(),
            spec_lines == lines@.map_values(|v: Vec<char>| v@),
            views(out@) == spec_lines.take(i as int),
        decreases lines@.len() - i,
    {
        let ghost before = out@;
        let s = string_of(lines[i].as_slice());
        assert(s@ == spec_lines[i as int]);
        out.push(s);
        assert(views(out@) =~= views(before).push(s@));
        i += 1;
        assert(views(out@) =~= spec_lines.take(i as int));
    }
    assert(spec_lines.take(i as int) =~= spec_lines);
    proof {
        lemma_wrapped_lines_fit(text@, width);
    }
    out
}

/// Lines joined by single spaces.
pub open spec fn join_spaced(ls: Seq<Seq<char>>) -> Seq<char>
    decreases ls.len(),
{
    if ls.len() == 0 {
        Seq::empty()
    } else if ls.len() == 1 {
        ls[0]
    } else {
        join_spaced(ls.drop_last()) + seq![' '] + ls.last()
    }
}

/// `s` cut to at most `max` characters, the last one kept becoming `…` when
/// anything is cut.
pub open spec fn spec_truncate(s: Seq<char>, max: nat) -> Seq<char> {
    if s.len() <= max {
        s
    } else {
        s.take(if max > 0 {
            max - 1
        } else {
            0
        }) + seq!['…']
    }
}

/// At most `rows` of the lines; when some are cut, the last line kept is
/// refilled with all the remaining text and truncated to `width`.
pub open spec fn spec_fit(ls: Seq<Seq<char>>, rows: nat, width: nat) -> Seq<Seq<char>> {
    if ls.len() > rows && rows > 0 {
        ls.take(rows - 1).push(spec_truncate(join_spaced(ls.skip(rows - 1)), width))
    } else if ls.len() > rows {
        Seq::empty()
    } else {
        ls
    }
}

pub fn truncate(s: &str, max: usize) -> (r: String)
    ensures
        r@ == spec_truncate(s@, max as nat),
        max > 0 ==> r@.len() <= max,
{
    let n = s.unicode_len();
    if n <= max {
        return string_of(chars_of(s).as_slice());
    }
    let keep = if max > 0 {
        max - 1
    } else {
        0
    };
    let mut out = String::new();
    let mut i: usize = 0;
    while i < keep
        invariant
            keep < n,
            n == s@.len(),
            i <= keep,
            out@ == s@.take(i as int),
        decreases keep - i,
    {
        crate::text::push_char(&mut out, s.get_char(i));
        i += 1;
        assert(out@ =~= s@.take(i as int));
    }
    crate::text::push_char(&mut out, '…');
    assert(out@ =~= spec_truncate(s@, max as nat));
    out
}

/// Keep at most `rows` wrapped lines; when some are cut, the last line kept is
/// refilled with the remaining text and ends in an ellipsis.
pub fn fit(lines: Vec<String>, rows: usize, width: u16) -> (r: Vec<String>)
    ensures
        views(r@) == spec_fit(views(lines@), rows as nat, width as nat),
        r@.len() == if lines@.len() < rows {
            lines@.len()
        } else {
            rows as nat
        },
{
    let ghost ls = views(lines@);
    let n = lines.len();
    if n <= rows {
        return lines;
    }
    if rows == 0 {
        return Vec::new();
    }
    let mut out: Vec<String> = Vec::new();
    let mut i: usize = 0;
    while i < rows - 1
        invariant
            0 < rows < n,
            n == lines@.len(),
            ls == views(lines@),
            i <= rows - 1,
            views(out@) == ls.take(i as int),
            out@.len() == i,
        decreases rows - 1 - i,
    {
        let ghost before = out@;
        out.push(lines[i].clone());
        assert(views(out@) =~= views(before).push(lines@[i as int]@));
        i += 1;
        assert(views(out@) =~= ls.take(i as int));
    }
    // Join the rest with single spaces.
    let mut rest = String::new();
    let mut j: usize = rows - 1;
    let ghost tail = ls.skip(rows - 1);
    assert(rest@ =~= join_spaced(tail.take(0)));
    while j < n
        invariant
            0 < rows < n,
            n == lines@.len(),
            ls == views(lines@),
            tail == ls.skip(rows - 1),
            rows - 1 <= j <= n,
            rest@ == join_spaced(tail.take(j - (rows - 1))),
        decreases n - j,
    {
        let ghost t = tail.take(j + 1 - (rows - 1));
        assert(t.drop_last() =~= tail.take(j - (rows - 1)));
        assert(t.last() == lines@[j as int]@);
        if j > rows - 1 {
            crate::text::push_char(&mut rest, ' ');
        } else {
            assert(rest@ =~= Seq::<char>::empty());
        }
        rest.append(lines[j].as_str());
        j += 1;
        assert(rest@ =~= join_spaced(tail.take(j - (rows - 1))));
    }
    assert(tail.take(n - (rows - 1)) =~= tail);
    let ghost before = out@;
    let last = truncate(rest.as_str(), width as usize);
    out.push(last);
    assert(views(out@) =~= views(before).push(last@));
    out
}

/// A definition wrapped to `width` and fitted into `rows` lines takes no
/// more than `rows` lines, none of them wider than `width`.
pub proof fn lemma_fitted_lines_fit(text: Seq<char>, width: u16, rows: nat)
    requires
        width > 0,
    ensures
        spec_fit(spec_wrap(text, width), rows, width as nat).len() <= rows,
        forall|i: int|
            0 <= i < spec_fit(spec_wrap(text, width), rows, width as nat).len() ==> #[trigger] spec_fit(
                spec_wrap(text, width),
                rows,
                width as nat,
            )[i].len() <= width,
{
    let ls = spec_wrap(text, width);
    lemma_wrapped_lines_fit(text, width);
    let r = spec_fit(ls, rows, width as nat);
    if ls.len() > rows && rows > 0 {
        let last = spec_truncate(join_spaced(ls.skip(rows - 1)), width as nat);
        assert(last.len() <= width);
        assert forall|i: int| 0 <= i < r.len() implies #[trigger] r[i].len() <= width by {
            if i < rows - 1 {
                assert(r[i] == ls[i]);
            }
        }
    }
}

/// Joining two runs of words is joining each, with a space between.
proof fn lemma_join_split(a: Seq<Seq<char>>, b: Seq<Seq<char>>)
    requires
        a.len() > 0,
        b.len() > 0,
    ensures
        join_spaced(a + b) == join_spaced(a) + seq![' '] + join_spaced(b),
    decreases b.len(),
{
    if b.len() == 1 {
        assert((a + b).drop_last() =~= a);
    } else {
        lemma_join_split(a, b.drop_last());
        assert((a + b).drop_last() =~= a + b.drop_last());
        assert(join_spaced(a) + seq![' '] + join_spaced(b.drop_last()) + seq![' '] + b.last()
            =~= join_spaced(a) + seq![' '] + (join_spaced(b.drop_last()) + seq![' '] + b.last()));
    }
}

/// Break points: strictly increasing from 0, none past the end of `ws`.
pub open spec fn breaks_of(ws: Seq<Seq<char>>, b: Seq<int>) -> bool {
    &&& b.len() > 0
    &&& b[0] == 0
    &&& b.last() <= ws.len()
    &&& forall|i: int, j: int| 0 <= i < j < b.len() ==> #[trigger] b[i] < #[trigger] b[j]
}

proof fn lemma_join_nonempty(s: Seq<Seq<char>>)
    requires
        s.len() > 0,
        s[0].len() > 0,
    ensures
        join_spaced(s).len() > 0,
    decreases s.len(),
{
    if s.len() > 1 {
        lemma_join_nonempty(s.drop_last());
    }
}

/// Where `wrap_state` breaks a run of words that each fit a line: line `i`
/// holds words `b[i]` up to `b[i + 1]`, the current line the rest, and
/// each finished line had no room for the first word of the next.
#[verifier::spinoff_prover]
#[verifier::rlimit(60)]
proof fn lemma_wrap_state_breaks(ws: Seq<Seq<char>>, w: nat) -> (b: Seq<int>)
    requires
        w > 0,
        no_empty(ws),
        forall|k: int| 0 <= k < ws.len() ==> #[trigger] ws[k].len() <= w,
    ensures
        ({
            let (lines, line) = wrap_state(ws, w);
            &&& b.len() == lines.len() + 1
            &&& breaks_of(ws, b)
            &&& ws.len() > 0 ==> b.last() < ws.len()
            &&& forall|i: int|
                0 <= i < lines.len() ==> #[trigger] lines[i] == join_spaced(ws.subrange(b[i], b[i + 1]))
            &&& line == join_spaced(ws.subrange(b.last(), ws.len() as int))
            &&& line.len() <= w
            &&& forall|i: int|
                0 <= i < lines.len() ==> #[trigger] lines[i].len() + 1 + ws[b[i + 1]].len() > w
        }),
    decreases ws.len(),
{
    if ws.len() == 0 {
        assert(ws.subrange(0, 0) =~= Seq::<Seq<char>>::empty());
        seq![0int]
    } else {
        let prev = ws.drop_last();
        assert forall|k: int| 0 <= k < prev.len() implies #[trigger] prev[k].len() <= w && prev[k].len() > 0 by {
            assert(prev[k] == ws[k]);
        }
        let b0 = lemma_wrap_state_breaks(prev, w);
        let (lines, line) = wrap_state(prev, w);
        let word = ws.last();
        let n = prev.len() as int;
        assert forall|i: int| 0 <= i < lines.len() implies #[trigger] lines[i] == join_spaced(
            ws.subrange(b0[i], b0[i + 1]),
        ) && #[trigger] lines[i].len() + 1 + ws[b0[i + 1]].len() > w by {
            assert(b0[0] <= b0[i] && b0[i] < b0[i + 1]);
            assert(b0[i + 1] <= b0.last());
            assert(ws.subrange(b0[i], b0[i + 1]) =~= prev.subrange(b0[i], b0[i + 1]));
            assert(ws[b0[i + 1]] == prev[b0[i + 1]]);
        }
        let fits = line.len() + 1 + word.len() <= w;
        if n == 0 {
            assert(lines.len() == 0);
            assert(ws.subrange(0, 1) =~= seq![word]);
            b0
        } else {
            let run = prev.subrange(b0.last(), n);
            assert(run.len() > 0 && run[0] == prev[b0.last()]);
            lemma_join_nonempty(run);
            assert(ws.subrange(b0.last(), n) =~= run);
            if !fits {
                let b = b0.push(n);
                assert(ws.subrange(n, ws.len() as int) =~= seq![word]);
                let (l2, c2) = wrap_state(ws, w);
                assert(l2 == lines.push(line));
                assert(c2 == word);
                assert forall|i: int, j: int| 0 <= i < j < b.len() implies #[trigger] b[i] < #[trigger] b[j] by {
                    if j < b0.len() {
                        assert(b[i] == b0[i] && b[j] == b0[j]);
                    } else {
                        assert(b[i] == b0[i]);
                        assert(b0[i] <= b0.last());
                    }
                }
                assert forall|i: int| 0 <= i < l2.len() implies #[trigger] l2[i] == join_spaced(
                    ws.subrange(b[i], b[i + 1]),
                ) && #[trigger] l2[i].len() + 1 + ws[b[i + 1]].len() > w by {
                    if i < lines.len() {
                        assert(b[i] == b0[i] && b[i + 1] == b0[i + 1]);
                    }
                }
                b
            } else {
                let whole = ws.subrange(b0.last(), ws.len() as int);
                assert(whole.drop_last() =~= run);
                assert(whole.last() == word);
                assert(join_spaced(whole) == join_spaced(run) + seq![' '] + word);
                b0
            }
        }
    }
}

/// Past the first word, a word after merging is never a separator standing
/// alone: each one is joined to the word before it.
proof fn lemma_separators_merged(ws: Seq<Seq<char>>, k: int)
    requires
        0 < k < merge_separators(ws).len(),
    ensures
        merge_separators(ws)[k] != separator(),
    decreases ws.len(),
{
    let prev = merge_separators(ws.drop_last());
    let m = merge_separators(ws);
    if ws.last() == separator() && prev.len() > 0 {
        if k < prev.len() - 1 {
            lemma_separators_merged(ws.drop_last(), k);
        } else {
            assert(m[k] == prev.last() + seq![' '] + separator());
            assert(m[k].len() != separator().len());
        }
    } else {
        if k < prev.len() {
            lemma_separators_merged(ws.drop_last(), k);
        }
    }
}

proof fn lemma_rejoin(ws: Seq<Seq<char>>, b: Seq<int>, ls: Seq<Seq<char>>, k: int)
    requires
        b.len() == ls.len() + 1,
        0 <= k < ls.len(),
        breaks_of(ws, b),
        forall|i: int| 0 <= i < ls.len() ==> #[trigger] ls[i] == join_spaced(ws.subrange(b[i], b[i + 1])),
    ensures
        join_spaced(ls.subrange(k, ls.len() as int)) == join_spaced(ws.subrange(b[k], b.last())),
    decreases ls.len() - k,
{
    let tail = ls.subrange(k, ls.len() as int);
    assert(b[0] <= b[k] && b[k] < b[k + 1] && b[k + 1] <= b.last());
    if k == ls.len() - 1 {
        assert(tail =~= seq![ls[k]]);
    } else {
        lemma_rejoin(ws, b, ls, k + 1);
        let rest = ls.subrange(k + 1, ls.len() as int);
        assert(tail =~= seq![ls[k]] + rest);
        lemma_join_split(seq![ls[k]], rest);
        assert(b[k + 1] < b[k + 2]);
        let a1 = ws.subrange(b[k], b[k + 1]);
        let a2 = ws.subrange(b[k + 1], b.last());
        lemma_join_split(a1, a2);
        assert(a1 + a2 =~= ws.subrange(b[k], b.last()));
    }
}

/// How a definition wraps when each of its words fits a line. The lines
/// break only between words, and rejoined with spaces they are the words in
/// order, each sense separator `·` kept on the end of the word before it.
/// Lines are filled greedily: no line had room for the first word of the
/// next. And no line but the first opens with a separator. The result is
/// where the lines break: line `i` holds words `b[i]` up to `b[i + 1]`.
#[verifier::spinoff_prover]
#[verifier::rlimit(60)]
pub proof fn lemma_wrap_keeps_words_in_order(text: Seq<char>, width: u16) -> (b: Seq<int>)
    requires
        width > 0,
        forall|k: int|
            0 <= k < merge_separators(split_whitespace(text)).len() ==> #[trigger] merge_separators(
                split_whitespace(text),
            )[k].len() <= width,
    ensures
        ({
            let ws = merge_separators(split_whitespace(text));
            let ls = spec_wrap(text, width);
            &&& b.len() == ls.len() + 1
            &&& breaks_of(ws, b)
            &&& b.last() == ws.len()
            &&& forall|i: int|
                0 <= i < ls.len() ==> #[trigger] ls[i] == join_spaced(ws.subrange(b[i], b[i + 1]))
            &&& join_spaced(ls) == join_spaced(ws)
            &&& forall|i: int|
                0 <= i < ls.len() - 1 ==> #[trigger] ls[i].len() + 1 + ws[b[i + 1]].len() > width
            &&& forall|i: int| 0 < i < ls.len() ==> #[trigger] ws[b[i]] != separator()
        }),
{
    let ws = merge_separators(split_whitespace(text));
    let w = width as nat;
    lemma_words_nonempty(text, Seq::empty());
    lemma_merge_nonempty(split_whitespace(text));
    let b0 = lemma_wrap_state_breaks(ws, w);
    let (lines, line) = wrap_state(ws, w);
    let ls = spec_wrap(text, width);
    let b = if line.len() > 0 {
        b0.push(ws.len() as int)
    } else {
        b0
    };
    if line.len() > 0 {
        assert(ls == lines.push(line));
        assert(ws.len() > 0);
        assert forall|i: int, j: int| 0 <= i < j < b.len() implies #[trigger] b[i] < #[trigger] b[j] by {
            if j < b0.len() {
                assert(b[i] == b0[i] && b[j] == b0[j]);
            } else {
                assert(b[i] == b0[i]);
                assert(b0[i] <= b0.last());
            }
        }
        assert forall|i: int| 0 <= i < ls.len() implies #[trigger] ls[i] == join_spaced(
            ws.subrange(b[i], b[i + 1]),
        ) by {
            if i < lines.len() {
                assert(b[i] == b0[i] && b[i + 1] == b0[i + 1]);
            }
        }
        assert forall|i: int| 0 <= i < ls.len() - 1 implies #[trigger] ls[i].len() + 1 + ws[b[i
            + 1]].len() > width by {
            assert(b[i + 1] == b0[i + 1]);
        }
    } else {
        assert(ls == lines);
        if ws.len() > 0 {
            let run = ws.subrange(b0.last(), ws.len() as int);
            assert(run[0] == ws[b0.last()]);
            lemma_join_nonempty(run);
        }
    }
    assert forall|i: int| 0 < i < ls.len() implies #[trigger] ws[b[i]] != separator() by {
        assert(b[0] < b[i] && b[i] < b.last());
        lemma_separators_merged(split_whitespace(text), b[i]);
    }
    if ls.len() > 0 {
        lemma_rejoin(ws, b, ls, 0);
        assert(ls.subrange(0, ls.len() as int) =~= ls);
        assert(ws.subrange(0, ws.len() as int) =~= ws);
    }
    b
}

/// The width of the first `n` key hints: each `key action`, separated by ` · `.
pub open spec fn hints_width(keys: Seq<(Seq<char>, Seq<char>)>, n: int) -> int
    decreases n,
{
    if n <= 0 {
        0
    } else {
        hints_width(keys, n - 1) + keys[n - 1].0.len() + 1 + keys[n - 1].1.len() + if n > 1 {
            3int
        } else {
            0int
        }
    }
}

/// The character views of key hints.
pub open spec fn hint_views(keys: Seq<(&str, &str)>) -> Seq<(Seq<char>, Seq<char>)> {
    keys.map_values(|k: (&str, &str)| (k.0@, k.1@))
}

proof fn lemma_hints_width_grows(keys: Seq<(Seq<char>, Seq<char>)>, n: int, m: int)
    requires
        0 <= n <= m <= keys.len(),
    ensures
        hints_width(keys, n) <= hints_width(keys, m),
    decreases m - n,
{
    if n < m {
        lemma_hints_width_grows(keys, n, m - 1);
    }
}

/// How many key hints, most important first, fit in `width` columns: as
/// many as fit, but always the first.
pub fn hint_count(keys: &[(&str, &str)], width: u16) -> (n: usize)
    requires
        keys@.len() > 0,
    ensures
        1 <= n <= keys@.len(),
        n == 1 || hints_width(hint_views(keys@), n as int) <= width,
        forall|m: int|
            n < m <= keys@.len() ==> hints_width(hint_views(keys@), m) > width,
{
    let ghost kv = hint_views(keys@);
    // The width of each prefix, saturating once it is past any screen.
    let mut widths: Vec<u64> = Vec::new();
    let mut total: u64 = 0;
    let mut i: usize = 0;
    while i < keys.len()
        invariant
            kv == hint_views(keys@),
            i <= keys@.len(),
            widths@.len() == i,
            total == (if hints_width(kv, i as int) < 0x10000 {
                hints_width(kv, i as int)
            } else {
                0x10000
            }),
            forall|k: int|
                0 <= k < i ==> #[trigger] widths@[k] == (if hints_width(kv, k + 1) < 0x10000 {
                    hints_width(kv, k + 1)
                } else {
                    0x10000
                }),
        decreases keys@.len() - i,
    {
        let (k, a) = keys[i];
        assert(kv[i as int] == (k@, a@));
        let kl = k.unicode_len() as u64;
        let al = a.unicode_len() as u64;
        let sep: u64 = if i > 0 {
            3
        } else {
            0
        };
        proof {
            if hints_width(kv, i as int) >= 0x10000 {
                assert(hints_width(kv, i + 1) >= hints_width(kv, i as int));
            }
        }
        if total >= 0x10000 || kl >= 0x10000 || al >= 0x10000 {
            total = 0x10000;
        } else {
            let t = total + kl + 1 + al + sep;
            total = if t < 0x10000 {
                t
            } else {
                0x10000
            };
        }
        widths.push(total);
        i += 1;
    }
    let mut n: usize = keys.len();
    while n > 1 && widths[n - 1] > width as u64
        invariant
            1 <= n <= keys@.len(),
            widths@.len() == keys@.len(),
            kv == hint_views(keys@),
            forall|k: int|
                0 <= k < keys@.len() ==> #[trigger] widths@[k] == (if hints_width(kv, k + 1) < 0x10000 {
                    hints_width(kv, k + 1)
                } else {
                    0x10000
                }),
            forall|m: int| n < m <= keys@.len() ==> hints_width(kv, m) > width,
        decreases n,
    {
        n -= 1;
    }
    proof {
        if n > 1 {
            assert(widths@[n - 1] <= width);
        }
    }
    n
}

} // verus!
