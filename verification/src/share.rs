//! The spoiler-free result grid, and the escape sequence that copies text to
//! the clipboard.
//!
//! Copying uses OSC 52, the escape sequence that asks the terminal itself to
//! set the system clipboard; it works over SSH, with no clipboard tool.

use vstd::prelude::*;

use crate::game::{Game, Mark, Status, MAX_GUESSES};
use crate::calendar::{civil_date, spec_civil_date};
use crate::text::{decimal, push_char, push_chars, push_decimal, push_str, string_of};

verus! {

/// The square a mark is shared as.
pub open spec fn square(m: Mark) -> char {
    match m {
        Mark::Correct => '🟩',
        Mark::Present => '🟨',
        Mark::Absent => '⬛',
    }
}

/// One row of squares per guess, each row after a line break.
pub open spec fn grid(rows: Seq<Seq<Mark>>) -> Seq<char>
    decreases rows.len(),
{
    if rows.len() == 0 {
        Seq::empty()
    } else {
        grid(rows.drop_last()) + seq!['\n'] + rows.last().map_values(|m: Mark| square(m))
    }
}

/// A number of at least two digits, zero-padded as `{:02}` writes it.
pub open spec fn pad2(n: nat) -> Seq<char> {
    if n < 10 {
        seq!['0'] + decimal(n)
    } else {
        decimal(n)
    }
}

/// `dd/mm/yyyy`.
pub open spec fn date_text(days: u64) -> Seq<char> {
    let (y, m, d) = spec_civil_date(days);
    pad2(d as nat) + seq!['/'] + pad2(m as nat) + seq!['/'] + decimal(y as nat)
}

/// The marks of each guess, in order.
pub open spec fn guess_marks(game: &Game) -> Seq<Seq<Mark>> {
    game.guesses@.map_values(|g: crate::game::Guess| g.marks@)
}

/// The shared text: a header with the date in daily mode and the score, a
/// blank line, then one row of squares per guess and never a letter.
pub open spec fn spec_result(rows: Seq<Seq<Mark>>, won: bool, daily: Option<u64>) -> Seq<char> {
    "Ελληνικό Wordle"@ + match daily {
        Some(day) => seq![' '] + date_text(day),
        None => Seq::empty(),
    } + seq![' '] + (if won {
        decimal(rows.len())
    } else {
        seq!['X']
    }) + seq!['/'] + decimal(MAX_GUESSES as nat) + seq!['\n'] + grid(rows)
}

/// The result as Wordle players share it: a header, then one row of coloured
/// squares per guess, never the letters themselves.
pub fn result(game: &Game, daily: Option<u64>) -> (text: String)
    requires
        daily matches Some(day) ==> day <= i64::MAX - 719_468,
    ensures
        text@ == spec_result(guess_marks(game), game.status == Status::Won, daily),
{
    let mut out: Vec<char> = Vec::new();
    push_str(&mut out, "Ελληνικό Wordle");
    let ghost head = out@;
    if let Some(day) = daily {
        out.push(' ');
        push_date(&mut out, day);
    }
    let ghost dated = out@;
    assert(dated =~= head + match daily {
        Some(day) => seq![' '] + date_text(day),
        None => Seq::empty(),
    });
    out.push(' ');
    match game.status {
        Status::Won => push_decimal(&mut out, game.guesses.len() as u64),
        _ => out.push('X'),
    }
    out.push('/');
    push_decimal(&mut out, MAX_GUESSES as u64);
    out.push('\n');
    let ghost header = out@;
    push_grid(&mut out, game);
    let text = string_of(out.as_slice());
    assert(text@ =~= spec_result(guess_marks(game), game.status == Status::Won, daily));
    text
}

/// Appends `dd/mm/yyyy` for a day number.
fn push_date(out: &mut Vec<char>, day: u64)
    requires
        day <= i64::MAX - 719_468,
    ensures
        final(out)@ == old(out)@ + date_text(day),
{
    let (y, m, d) = civil_date(day);
    push_pad2(out, d);
    out.push('/');
    push_pad2(out, m);
    out.push('/');
    push_decimal(out, y as u64);
    assert(final(out)@ =~= old(out)@ + date_text(day));
}

/// Appends a line break and the squares of one guess.
fn push_row(out: &mut Vec<char>, marks: &[Mark; 5])
    ensures
        final(out)@ == old(out)@ + seq!['\n'] + marks@.map_values(|m: Mark| square(m)),
{
    out.push('\n');
    let ghost before = out@;
    let mut k: usize = 0;
    while k < 5
        invariant
            k <= 5,
            marks@.len() == 5,
            out@ == before + marks@.take(k as int).map_values(|m: Mark| square(m)),
        decreases 5 - k,
    {
        let sq = match marks[k] {
            Mark::Correct => '🟩',
            Mark::Present => '🟨',
            Mark::Absent => '⬛',
        };
        out.push(sq);
        k += 1;
        assert(out@ =~= before + marks@.take(k as int).map_values(|m: Mark| square(m)));
    }
    assert(marks@.take(5) =~= marks@);
}

/// Appends one row of squares per guess.
fn push_grid(out: &mut Vec<char>, game: &Game)
    ensures
        final(out)@ == old(out)@ + grid(guess_marks(game)),
{
    let ghost header = out@;
    let mut i: usize = 0;
    assert(guess_marks(game).take(0) =~= Seq::<Seq<Mark>>::empty());
    assert(out@ =~= header + grid(guess_marks(game).take(0)));
    while i < game.guesses.len()
        invariant
            i <= game.guesses@.len(),
            out@ == header + grid(guess_marks(game).take(i as int)),
        decreases game.guesses@.len() - i,
    {
        push_row(out, &game.guesses[i].marks);
        let ghost rows = guess_marks(game).take(i + 1);
        assert(rows.drop_last() =~= guess_marks(game).take(i as int));
        assert(rows.last() == game.guesses@[i as int].marks@);
        i += 1;
        assert(out@ =~= header + grid(guess_marks(game).take(i as int)));
    }
    assert(guess_marks(game).take(i as int) =~= guess_marks(game));
}

/// Appends `n` zero-padded to two digits.
fn push_pad2(out: &mut Vec<char>, n: u32)
    ensures
        final(out)@ == old(out)@ + pad2(n as nat),
{
    if n < 10 {
        out.push('0');
    }
    push_decimal(out, n as u64);
    assert(final(out)@ =~= old(out)@ + pad2(n as nat));
}

/// The base64 digit for a six-bit value.
pub open spec fn b64_digit(v: int) -> char {
    if v < 26 {
        ('A' as int + v) as char
    } else if v < 52 {
        ('a' as int + v - 26) as char
    } else if v < 62 {
        ('0' as int + v - 52) as char
    } else if v == 62 {
        '+'
    } else {
        '/'
    }
}

/// The four digits of the first group of `b`: its first three bytes, read
/// as a 24-bit number with missing bytes as zero, become four six-bit digits,
/// and the digits no byte reached are `=`.
pub open spec fn b64_group(b: Seq<u8>) -> Seq<char> {
    let b1: int = if b.len() > 1 {
        b[1] as int
    } else {
        0
    };
    let b2: int = if b.len() > 2 {
        b[2] as int
    } else {
        0
    };
    let n = b[0] as int * 65536 + b1 * 256 + b2;
    seq![
        b64_digit(n / 262144),
        b64_digit(n / 4096 % 64),
        if b.len() > 1 {
            b64_digit(n / 64 % 64)
        } else {
            '='
        },
        if b.len() > 2 {
            b64_digit(n % 64)
        } else {
            '='
        },
    ]
}

/// Standard base64 (RFC 4648) with `=` padding, group by group.
pub open spec fn spec_base64(b: Seq<u8>) -> Seq<char>
    decreases b.len(),
{
    if b.len() == 0 {
        Seq::empty()
    } else if b.len() <= 3 {
        b64_group(b)
    } else {
        b64_group(b) + spec_base64(b.skip(3))
    }
}

fn base64_digit(v: u32) -> (c: char)
    requires
        v < 64,
    ensures
        c == b64_digit(v as int),
{
    if v < 62 {
        let code: u8 = if v < 26 {
            65 + v as u8
        } else if v < 52 {
            97 + (v - 26) as u8
        } else {
            48 + (v - 52) as u8
        };
        code as char
    } else if v == 62 {
        '+'
    } else {
        '/'
    }
}

/// Appends the four digits of the group of `bytes` starting at `i`.
fn push_group(out: &mut Vec<char>, bytes: &[u8], i: usize)
    requires
        i < bytes@.len(),
    ensures
        final(out)@ == old(out)@ + b64_group(bytes@.skip(i as int)),
{
    let rest = bytes.len() - i;
    let ghost s = bytes@.skip(i as int);
    assert(s[0] == bytes@[i as int]);
    assert(rest > 1 ==> s[1] == bytes@[i + 1]);
    assert(rest > 2 ==> s[2] == bytes@[i + 2]);
    let b0 = bytes[i] as u32;
    let b1 = if rest > 1 {
        bytes[i + 1] as u32
    } else {
        0
    };
    let b2 = if rest > 2 {
        bytes[i + 2] as u32
    } else {
        0
    };
    let v = b0 * 65536 + b1 * 256 + b2;
    out.push(base64_digit(v / 262144));
    out.push(base64_digit(v / 4096 % 64));
    if rest > 1 {
        out.push(base64_digit(v / 64 % 64));
    } else {
        out.push('=');
    }
    if rest > 2 {
        out.push(base64_digit(v % 64));
    } else {
        out.push('=');
    }
    assert(final(out)@ =~= old(out)@ + b64_group(s));
}

/// Encode bytes as base64.
pub fn base64(bytes: &[u8]) -> (text: String)
    ensures
        text@ == spec_base64(bytes@),
{
    let mut out: Vec<char> = Vec::new();
    let mut i: usize = 0;
    let n = bytes.len();
    assert(bytes@.skip(0) =~= bytes@);
    while i < n
        invariant
            n == bytes@.len(),
            i <= n,
            spec_base64(bytes@) == out@ + spec_base64(bytes@.skip(i as int)),
        decreases n - i,
    {
        let ghost s = bytes@.skip(i as int);
        let ghost before = out@;
        push_group(&mut out, bytes, i);
        if n - i > 3 {
            assert(s.skip(3) =~= bytes@.skip(i + 3));
            i += 3;
        } else {
            assert(bytes@.skip(n as int) =~= Seq::<u8>::empty());
            i = n;
        }
        assert(before + spec_base64(s) =~= out@ + spec_base64(bytes@.skip(i as int)));
    }
    let text = string_of(out.as_slice());
    assert(bytes@.skip(i as int) =~= Seq::<u8>::empty());
    assert(text@ =~= spec_base64(bytes@));
    text
}

/// The escape sequence that puts `text` on the system clipboard: OSC 52 with
/// the UTF-8 bytes of the text in base64, ended by BEL.
pub open spec fn spec_osc52(text: Seq<char>) -> Seq<char> {
    seq!['\x1b', ']', '5', '2', ';', 'c', ';'] + spec_base64(vstd::utf8::encode_utf8(text))
        + seq!['\x07']
}

/// The escape sequence that puts `text` on the system clipboard.
pub fn osc52(text: &str) -> (r: String)
    ensures
        r@ == spec_osc52(text@),
{
    let encoded = base64(text.as_bytes());
    let mut out: Vec<char> = Vec::new();
    out.push('\x1b');
    out.push(']');
    out.push('5');
    out.push('2');
    out.push(';');
    out.push('c');
    out.push(';');
    let mut r = string_of(out.as_slice());
    r.append(encoded.as_str());
    push_char(&mut r, '\x07');
    assert(r@ =~= spec_osc52(text@));
    r
}

/// The shared text never gives a letter away: two games with the same
/// marks row by row and the same outcome share the same text.
pub proof fn lemma_share_shows_no_letters(g1: Game, g2: Game, daily: Option<u64>)
    requires
        guess_marks(&g1) == guess_marks(&g2),
        (g1.status == Status::Won) == (g2.status == Status::Won),
    ensures
        spec_result(guess_marks(&g1), g1.status == Status::Won, daily) == spec_result(
            guess_marks(&g2),
            g2.status == Status::Won,
            daily,
        ),
{
}

/// The three marks share as three different squares: green for a letter in
/// place, yellow for one elsewhere in the word, black for one not in it. So
/// the shared grid tells every mark apart.
pub proof fn lemma_squares_tell_marks_apart(m1: Mark, m2: Mark)
    ensures
        square(m1) == square(m2) <==> m1 == m2,
        square(Mark::Correct) == '🟩',
        square(Mark::Present) == '🟨',
        square(Mark::Absent) == '⬛',
{
}

/// Two guesses share as the same row of squares only when their marks are
/// the same, tile for tile.
pub proof fn lemma_rows_tell_marks_apart(a: Seq<Mark>, b: Seq<Mark>)
    requires
        a.map_values(|m: Mark| square(m)) == b.map_values(|m: Mark| square(m)),
    ensures
        a == b,
{
    let fa = a.map_values(|m: Mark| square(m));
    let fb = b.map_values(|m: Mark| square(m));
    assert(fa.len() == a.len() && fb.len() == b.len());
    assert forall|i: int| 0 <= i < a.len() implies a[i] == b[i] by {
        assert(fa[i] == square(a[i]));
        assert(fb[i] == square(b[i]));
        assert(fa[i] == fb[i]);
    }
    assert(a =~= b);
}

} // verus!
