//! Frames of art text: splitting loaded text into lines, and the twinkle
//! effect that swaps marker characters for members of their palette.
use vstd::prelude::*;

verus! {

/// The text split at every `'\n'`; a text with `n` line feeds has `n + 1`
/// pieces, the last possibly empty.
pub open spec fn split_raw(s: Seq<char>) -> Seq<Seq<char>>
    decreases s.len(),
{
    if s.len() == 0 {
        seq![Seq::empty()]
    } else {
        let p = split_raw(s.drop_last());
        if s.last() == '\n' {
            p.push(Seq::empty())
        } else {
            p.update(p.len() - 1, p.last().push(s.last()))
        }
    }
}

/// A piece that ended at a line feed loses one carriage return before it.
pub open spec fn strip_cr(l: Seq<char>) -> Seq<char> {
    if l.len() > 0 && l.last() == '\r' {
        l.drop_last()
    } else {
        l
    }
}

/// The lines of a text: the line break is `"\n"` or `"\r\n"`, and a final
/// line break ends the last line rather than starting an empty one.
pub open spec fn lines_of(s: Seq<char>) -> Seq<Seq<char>> {
    let p = split_raw(s);
    let body = p.drop_last().map_values(|l: Seq<char>| strip_cr(l));
    if p.last().len() == 0 {
        body
    } else {
        body.push(p.last())
    }
}

/// Splits loaded text into the lines of a frame, each line's characters kept
/// as they are.
pub fn split_lines(text: &Vec<char>) -> (r: Vec<Vec<char>>)
    ensures
        r@.len() == lines_of(text@).len(),
        forall|k: int| 0 <= k < r@.len() ==> #[trigger] r@[k]@ == lines_of(text@)[k],
{
    let n = text.len();
    let mut lines: Vec<Vec<char>> = Vec::new();
    let mut cur: Vec<char> = Vec::new();
    let mut i: usize = 0;
    assert(text@.subrange(0, 0) =~= Seq::<char>::empty());
    while i < n
        invariant
            i <= n,
            n == text@.len(),
            lines@.len() + 1 == split_raw(text@.subrange(0, i as int)).len(),
            forall|k: int|
                0 <= k < lines@.len() ==> #[trigger] lines@[k]@ == strip_cr(
                    split_raw(text@.subrange(0, i as int))[k],
                ),
            cur@ == split_raw(text@.subrange(0, i as int))[lines@.len() as int],
        decreases n - i,
    {
        let ghost pre = text@.subrange(0, i as int);
        let c = text[i];
        assert(text@.subrange(0, i + 1).drop_last() =~= pre);
        assert(text@.subrange(0, i + 1).last() == c);
        if c == '\n' {
            let len = cur.len();
            if len > 0 && cur[len - 1] == '\r' {
                cur.pop();
                assert(cur@ =~= strip_cr(split_raw(pre)[lines@.len() as int]));
            }
            lines.push(cur);
            cur = Vec::new();
        } else {
            cur.push(c);
        }
        i = i + 1;
    }
    assert(text@.subrange(0, n as int) =~= text@);
    let ghost p = split_raw(text@);
    if cur.len() > 0 {
        lines.push(cur);
    }
    assert forall|k: int| 0 <= k < lines@.len() implies #[trigger] lines@[k]@ == lines_of(
        text@,
    )[k] by {
        if k < p.len() - 1 {
            assert(p.drop_last()[k] == p[k]);
        }
    }
    lines
}

/// The substitutes of `'*'`.
pub open spec fn star_palette() -> Seq<char> {
    seq!['*', '+', '.', ' ']
}

/// The substitutes of `'┼'`.
pub open spec fn cross_palette() -> Seq<char> {
    seq!['┼', '├', '─', ' ']
}

/// Characters that twinkle.
pub open spec fn is_marker(c: char) -> bool {
    c == '*' || c == '┼'
}

/// The character that `c` becomes when substitute number `pick` is chosen.
pub open spec fn twinkled_char(c: char, pick: int) -> char {
    if c == '*' {
        star_palette()[pick]
    } else if c == '┼' {
        cross_palette()[pick]
    } else {
        c
    }
}

/// `c2` is a possible twinkle of `c`: a member of its palette when `c` is a
/// marker, and `c` itself otherwise.
pub open spec fn may_twinkle_to(c: char, c2: char) -> bool {
    if c == '*' {
        star_palette().contains(c2)
    } else if c == '┼' {
        cross_palette().contains(c2)
    } else {
        c2 == c
    }
}

/// Number of substitutes in each palette.
pub const PALETTE_SIZE: u8 = 4;

/// Substitute number `pick` for `c`; characters that are no marker come
/// back unchanged.
pub fn substitute(c: char, pick: u8) -> (r: char)
    requires
        pick < PALETTE_SIZE,
    ensures
        r == twinkled_char(c, pick as int),
{
    if c == '*' {
        if pick == 0 {
            '*'
        } else if pick == 1 {
            '+'
        } else if pick == 2 {
            '.'
        } else {
            ' '
        }
    } else if c == '┼' {
        if pick == 0 {
            '┼'
        } else if pick == 1 {
            '├'
        } else if pick == 2 {
            '─'
        } else {
            ' '
        }
    } else {
        c
    }
}

/// `picks` has one choice below the palette size for each character of
/// `frame`.
pub open spec fn picks_fit(frame: Seq<Vec<char>>, picks: Seq<Vec<u8>>) -> bool {
    &&& picks.len() == frame.len()
    &&& forall|i: int| 0 <= i < frame.len() ==> #[trigger] picks[i]@.len() == frame[i]@.len()
    &&& forall|i: int, j: int|
        0 <= i < frame.len() && 0 <= j < frame[i]@.len() ==> #[trigger] picks[i]@[j]
            < PALETTE_SIZE
}

/// `out` has the shape of `frame`, and each character of it is the one
/// that `picks` chooses for the character of `frame` at its place.
pub open spec fn twinkled_by(frame: Seq<Vec<char>>, picks: Seq<Vec<u8>>, out: Seq<Vec<char>>) -> bool {
    &&& out.len() == frame.len()
    &&& forall|i: int| 0 <= i < frame.len() ==> #[trigger] out[i]@.len() == frame[i]@.len()
    &&& forall|i: int, j: int|
        0 <= i < frame.len() && 0 <= j < frame[i]@.len() ==> #[trigger] out[i]@[j]
            == twinkled_char(frame[i]@[j], picks[i]@[j] as int)
}

/// `out` has the shape of `frame`; each marker has become a member of its
/// palette and every other character is unchanged.
pub open spec fn is_twinkle_of(frame: Seq<Vec<char>>, out: Seq<Vec<char>>) -> bool {
    &&& out.len() == frame.len()
    &&& forall|i: int| 0 <= i < frame.len() ==> #[trigger] out[i]@.len() == frame[i]@.len()
    &&& forall|i: int, j: int|
        0 <= i < frame.len() && 0 <= j < frame[i]@.len() ==> may_twinkle_to(
            frame[i]@[j],
            #[trigger] out[i]@[j],
        )
}

/// A new frame in which each character of `frame` becomes the substitute
/// that `picks` chooses at its place; `frame` itself is left as it is.
pub fn twinkle_with_picks(frame: &Vec<Vec<char>>, picks: &Vec<Vec<u8>>) -> (r: Vec<Vec<char>>)
    requires
        picks_fit(frame@, picks@),
    ensures
        twinkled_by(frame@, picks@, r@),
{
    let mut out: Vec<Vec<char>> = Vec::new();
    let mut i: usize = 0;
    while i < frame.len()
        invariant
            i <= frame@.len(),
            picks_fit(frame@, picks@),
            out@.len() == i,
            forall|a: int| 0 <= a < i ==> #[trigger] out@[a]@.len() == frame@[a]@.len(),
            forall|a: int, b: int|
                0 <= a < i && 0 <= b < frame@[a]@.len() ==> #[trigger] out@[a]@[b]
                    == twinkled_char(frame@[a]@[b], picks@[a]@[b] as int),
        decreases frame@.len() - i,
    {
        let line = &frame[i];
        let line_picks = &picks[i];
        assert(line_picks@.len() == line@.len());
        let mut new_line: Vec<char> = Vec::new();
        let mut j: usize = 0;
        while j < line.len()
            invariant
                j <= line@.len(),
                line@ == frame@[i as int]@,
                line_picks@ == picks@[i as int]@,
                line_picks@.len() == line@.len(),
                forall|b: int| 0 <= b < line@.len() ==> #[trigger] line_picks@[b] < PALETTE_SIZE,
                new_line@.len() == j,
                forall|b: int|
                    0 <= b < j ==> #[trigger] new_line@[b] == twinkled_char(
                        line@[b],
                        line_picks@[b] as int,
                    ),
            decreases line@.len() - j,
        {
            assert(line_picks@[j as int] == picks@[i as int]@[j as int]);
            new_line.push(substitute(line[j], line_picks[j]));
            j = j + 1;
        }
        out.push(new_line);
        i = i + 1;
    }
    out
}

/// Every choice of substitutes gives a twinkle of the frame.
pub proof fn lemma_picks_give_twinkle(frame: Seq<Vec<char>>, picks: Seq<Vec<u8>>, out: Seq<Vec<char>>)
    requires
        picks_fit(frame, picks),
        twinkled_by(frame, picks, out),
    ensures
        is_twinkle_of(frame, out),
{
    assert forall|i: int, j: int|
        0 <= i < frame.len() && 0 <= j < frame[i]@.len() implies may_twinkle_to(
        frame[i]@[j],
        #[trigger] out[i]@[j],
    ) by {
        let p = picks[i]@[j] as int;
        assert(0 <= p < 4);
        if frame[i]@[j] == '*' {
            assert(star_palette()[p] == out[i]@[j]);
        } else if frame[i]@[j] == '┼' {
            assert(cross_palette()[p] == out[i]@[j]);
        }
    }
}

/// Relies on rand's `thread_rng` and `Rng::gen_range`, which draws a number
/// from `0..n` and panics when that range is empty.
#[verifier::external_body]
fn random_below(n: u8) -> (r: u8)
    requires
        n > 0,
    ensures
        r < n,
{
    rand::Rng::gen_range(&mut rand::thread_rng(), 0..n)
}

/// One random choice of substitute for each marker of `frame`, and 0 for
/// every other character.
pub fn draw_picks(frame: &Vec<Vec<char>>) -> (r: Vec<Vec<u8>>)
    ensures
        picks_fit(frame@, r@),
        forall|i: int, j: int|
            0 <= i < frame@.len() && 0 <= j < frame@[i]@.len() && !is_marker(frame@[i]@[j])
                ==> #[trigger] r@[i]@[j] == 0,
{
    let mut picks: Vec<Vec<u8>> = Vec::new();
    let mut i: usize = 0;
    while i < frame.len()
        invariant
            i <= frame@.len(),
            picks@.len() == i,
            forall|a: int| 0 <= a < i ==> #[trigger] picks@[a]@.len() == frame@[a]@.len(),
            forall|a: int, b: int|
                0 <= a < i && 0 <= b < frame@[a]@.len() ==> #[trigger] picks@[a]@[b]
                    < PALETTE_SIZE,
            forall|a: int, b: int|
                0 <= a < i && 0 <= b < frame@[a]@.len() && !is_marker(frame@[a]@[b])
                    ==> #[trigger] picks@[a]@[b] == 0,
        decreases frame@.len() - i,
    {
        let line = &frame[i];
        let mut line_picks: Vec<u8> = Vec::new();
        let mut j: usize = 0;
        while j < line.len()
            invariant
                j <= line@.len(),
                line_picks@.len() == j,
                forall|b: int| 0 <= b < j ==> #[trigger] line_picks@[b] < PALETTE_SIZE,
                line@ == frame@[i as int]@,
                forall|b: int|
                    0 <= b < j && !is_marker(line@[b]) ==> #[trigger] line_picks@[b] == 0,
            decreases line@.len() - j,
        {
            let c = line[j];
            let pick = if c == '*' || c == '┼' {
                random_below(PALETTE_SIZE)
            } else {
                0
            };
            line_picks.push(pick);
            j = j + 1;
        }
        picks.push(line_picks);
        i = i + 1;
    }
    picks
}

/// A new frame in which every marker of `frame` has been replaced by a
/// random member of its palette; `frame` itself is left as it is.
pub fn twinkle(frame: &Vec<Vec<char>>) -> (r: Vec<Vec<char>>)
    ensures
        is_twinkle_of(frame@, r@),
{
    let picks = draw_picks(frame);
    let r = twinkle_with_picks(frame, &picks);
    proof {
        lemma_picks_give_twinkle(frame@, picks@, r@);
    }
    r
}

} // verus!
