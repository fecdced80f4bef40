//! The line layout: how tokens are packed into display lines of bounded
//! width, how the source glyphs are centred over their transliteration,
//! and where each line is anchored on the screen.

use vstd::prelude::*;

use crate::utils::{lemma_weight_bound, rendered, transliterable, weight};

verus! {

/// The reserved character that ends every display line.
pub const END_OF_LINE: char = '\u{21B5}';

/// One token as it stands in a line: its Latin text, its source glyphs and
/// its visual weight.
pub struct Piece {
    pub rendered: Seq<char>,
    pub glyphs: Seq<char>,
    pub weight: nat,
}

/// One display line: the Latin text to type, ended by the end-of-line marker;
/// the row of source glyphs shown above it, if the line has one; and the
/// screen position at which the Latin text begins.
pub struct DisplayLine {
    pub rendered: Seq<char>,
    pub annotation: Option<Seq<char>>,
    pub col: nat,
    pub row: nat,
}

/// The measures that a layout is made for: the most columns a line may take,
/// the most lines, the columns of the viewport, and the first row used.
pub struct Geometry {
    pub width: nat,
    pub height: nat,
    pub cols: nat,
    pub top: nat,
}

/// What packing a token sequence gives: the lines, or `None` when a token
/// that was read cannot be transliterated, and the tokens left unread.
pub struct Packed {
    pub lines: Option<Seq<DisplayLine>>,
    pub rest: Seq<Seq<char>>,
}

/// The text area of a viewport: three fifths of its columns, a quarter of
/// its rows, placed a little above the middle.
pub open spec fn geometry(cols: u16, rows: u16) -> Geometry {
    Geometry {
        width: (cols / 5 * 3) as nat,
        height: (rows / 4) as nat,
        cols: cols as nat,
        top: ((rows - rows / 4) / 2 - rows / 6) as nat,
    }
}

/// A token with its transliteration and weight.
pub open spec fn piece_of(token: Seq<char>) -> Piece {
    Piece { rendered: rendered(token), glyphs: token, weight: weight(token) }
}

/// `n` spaces.
pub open spec fn spaces(n: nat) -> Seq<char> {
    Seq::new(n, |i: int| ' ')
}

/// The spaces put before a source token of the given weight to centre it
/// over `len` Latin characters: half of the difference, rounded down, and
/// none when the token weighs as much as its transliteration is long.
pub open spec fn left_pad(len: nat, weight: nat) -> nat {
    if weight < len {
        ((len - weight) / 2) as nat
    } else {
        0
    }
}

/// The spaces put after it: the rest of the difference.
pub open spec fn right_pad(len: nat, weight: nat) -> nat {
    if weight < len {
        (len - weight - (len - weight) / 2) as nat
    } else {
        0
    }
}

/// A source token centred over `len` Latin characters.
pub open spec fn aligned(len: nat, glyphs: Seq<char>, weight: nat) -> Seq<char> {
    spaces(left_pad(len, weight)) + glyphs + spaces(right_pad(len, weight))
}

/// The parts, in order, with one space between neighbours.
pub open spec fn joined(parts: Seq<Seq<char>>) -> Seq<char>
    decreases parts.len(),
{
    if parts.len() == 0 {
        Seq::empty()
    } else if parts.len() == 1 {
        parts[0]
    } else {
        joined(parts.drop_last()) + seq![' '] + parts.last()
    }
}

/// The pieces of a line that is being closed: the end-of-line marker is
/// appended to both forms of the last piece.
pub open spec fn marked(pieces: Seq<Piece>) -> Seq<Piece> {
    if pieces.len() == 0 {
        pieces
    } else {
        let last = pieces.last();
        pieces.update(
            pieces.len() - 1,
            Piece {
                rendered: last.rendered.push(END_OF_LINE),
                glyphs: last.glyphs.push(END_OF_LINE),
                weight: last.weight,
            },
        )
    }
}

/// The Latin text of a closed line.
pub open spec fn rendered_line(pieces: Seq<Piece>) -> Seq<char> {
    joined(Seq::new(pieces.len(), |i: int| marked(pieces)[i].rendered))
}

/// The source glyphs of a closed line, unaligned.
pub open spec fn glyph_line(pieces: Seq<Piece>) -> Seq<char> {
    joined(Seq::new(pieces.len(), |i: int| marked(pieces)[i].glyphs))
}

/// The source glyphs of a closed line, each token centred over its
/// transliteration.
pub open spec fn annotation_row(pieces: Seq<Piece>) -> Seq<char> {
    joined(
        Seq::new(
            pieces.len(),
            |i: int|
                aligned(
                    marked(pieces)[i].rendered.len(),
                    marked(pieces)[i].glyphs,
                    marked(pieces)[i].weight,
                ),
        ),
    )
}

/// The column at which a line of `len` characters begins so that it stands
/// in the middle of `cols` columns; column 0 for a line wider than that.
pub open spec fn anchor_col(cols: nat, len: nat) -> nat {
    if len <= cols {
        ((cols - len) / 2) as nat
    } else {
        0
    }
}

/// The first row that the lines laid out so far leave free.
pub open spec fn free_row(lines: Seq<DisplayLine>, g: Geometry) -> nat {
    if lines.len() == 0 {
        g.top
    } else {
        lines.last().row + 1
    }
}

/// The display line made of the given pieces, placed below the lines laid
/// out so far. A line whose source glyphs differ from its Latin text gets
/// an annotation row, and stands one row lower to make room for it.
pub open spec fn line_of(pieces: Seq<Piece>, lines: Seq<DisplayLine>, g: Geometry) -> DisplayLine {
    let text = rendered_line(pieces);
    if text != glyph_line(pieces) {
        DisplayLine {
            rendered: text,
            annotation: Some(annotation_row(pieces)),
            col: anchor_col(g.cols, text.len()),
            row: free_row(lines, g) + 1,
        }
    } else {
        DisplayLine {
            rendered: text,
            annotation: None,
            col: anchor_col(g.cols, text.len()),
            row: free_row(lines, g),
        }
    }
}

/// The columns that the pieces of an open line take, each with the space
/// that follows it.
pub open spec fn taken(pieces: Seq<Piece>) -> nat
    decreases pieces.len(),
{
    if pieces.len() == 0 {
        0
    } else {
        taken(pieces.drop_last()) + pieces.last().rendered.len() + 1
    }
}

/// Whether one more piece, with its space, stays below the width.
pub open spec fn fits(open: Seq<Piece>, p: Piece, width: nat) -> bool {
    taken(open) + p.rendered.len() + 1 < width
}

/// Greedy packing, token by token. `lines` are the lines closed so far and
/// `open` the pieces of the line being filled.
///
/// Packing stops once `g.height` lines are closed, or when the tokens run
/// out; an open line that holds a piece is then closed too. A token that
/// fits joins the open line. One that does not fit closes the open line and
/// is itself passed over, unless the open line is empty: then the token
/// makes a line of its own, so that no line is ever empty. A token that
/// cannot be transliterated ends the packing without lines.
pub open spec fn pack(
    tokens: Seq<Seq<char>>,
    lines: Seq<DisplayLine>,
    open: Seq<Piece>,
    g: Geometry,
) -> Packed
    decreases tokens.len(),
{
    if lines.len() >= g.height {
        Packed { lines: Some(lines), rest: tokens }
    } else if tokens.len() == 0 {
        if open.len() > 0 {
            Packed { lines: Some(lines.push(line_of(open, lines, g))), rest: tokens }
        } else {
            Packed { lines: Some(lines), rest: tokens }
        }
    } else if !transliterable(tokens.first()) {
        Packed { lines: None, rest: tokens.drop_first() }
    } else {
        let p = piece_of(tokens.first());
        if fits(open, p, g.width) {
            pack(tokens.drop_first(), lines, open.push(p), g)
        } else if open.len() == 0 {
            pack(tokens.drop_first(), lines.push(line_of(seq![p], lines, g)), Seq::empty(), g)
        } else {
            pack(tokens.drop_first(), lines.push(line_of(open, lines, g)), Seq::empty(), g)
        }
    }
}

/// The layout of a token sequence: packing from nothing.
pub open spec fn layout(tokens: Seq<Seq<char>>, g: Geometry) -> Packed {
    pack(tokens, Seq::empty(), Seq::empty(), g)
}

/// The character sequences that a vector of character vectors holds.
pub open spec fn char_rows(v: Seq<Vec<char>>) -> Seq<Seq<char>> {
    Seq::new(v.len(), |i: int| v[i]@)
}

/// Tells whether two character vectors hold the same characters.
pub fn same_chars(a: &Vec<char>, b: &Vec<char>) -> (r: bool)
    ensures
        r == (a@ == b@),
{
    if a.len() != b.len() {
        return false;
    }
    let mut i: usize = 0;
    while i < a.len()
        invariant
            i <= a.len(),
            a.len() == b.len(),
            a@.take(i as int) == b@.take(i as int),
        decreases a.len() - i,
    {
        if a[i] != b[i] {
            return false;
        }
        i = i + 1;
    }
    assert(a@.take(i as int) == a@);
    assert(b@.take(i as int) == b@);
    true
}

/// Joins the parts with one space between neighbours.
pub fn join(parts: &Vec<Vec<char>>) -> (r: Vec<char>)
    ensures
        r@ == joined(char_rows(parts@)),
{
    let mut out: Vec<char> = Vec::new();
    let mut i: usize = 0;
    while i < parts.len()
        invariant
            i <= parts.len(),
            out@ == joined(char_rows(parts@).take(i as int)),
        decreases parts.len() - i,
    {
        assert(char_rows(parts@).take(i + 1).drop_last() == char_rows(parts@).take(i as int));
        if i > 0 {
            out.push(' ');
        }
        let part = &parts[i];
        let mut k: usize = 0;
        let ghost head = out@;
        while k < part.len()
            invariant
                k <= part.len(),
                out@ == head + part@.take(k as int),
            decreases part.len() - k,
        {
            out.push(part[k]);
            k = k + 1;
        }
        i = i + 1;
    }
    assert(char_rows(parts@).take(i as int) == char_rows(parts@));
    out
}

/// Centres a source token of the given weight over `len` Latin
/// characters.
pub fn align_token(len: usize, glyphs: &Vec<char>, weight: usize) -> (r: Vec<char>)
    ensures
        r@ == aligned(len as nat, glyphs@, weight as nat),
{
    let mut out: Vec<char> = Vec::new();
    let (left, right): (usize, usize) = if weight < len {
        ((len - weight) / 2, len - weight - (len - weight) / 2)
    } else {
        (0, 0)
    };
    let mut i: usize = 0;
    while i < left
        invariant
            i <= left,
            out@ == spaces(i as nat),
        decreases left - i,
    {
        out.push(' ');
        i = i + 1;
    }
    let mut k: usize = 0;
    while k < glyphs.len()
        invariant
            k <= glyphs.len(),
            out@ == spaces(left as nat) + glyphs@.take(k as int),
        decreases glyphs.len() - k,
    {
        out.push(glyphs[k]);
        k = k + 1;
    }
    let mut j: usize = 0;
    while j < right
        invariant
            j <= right,
            out@ == spaces(left as nat) + glyphs@ + spaces(j as nat),
        decreases right - j,
    {
        out.push(' ');
        j = j + 1;
    }
    out
}

/// The parts of an annotation row before they are joined: each source
/// token of the closed line centred over its transliteration.
pub open spec fn aligned_parts(pieces: Seq<Piece>) -> Seq<Seq<char>> {
    Seq::new(
        pieces.len(),
        |i: int|
            aligned(
                marked(pieces)[i].rendered.len(),
                marked(pieces)[i].glyphs,
                marked(pieces)[i].weight,
            ),
    )
}

/// The same parts aligned once more, each centred token taken as it stands:
/// as a source token whose weight is its own length.
pub open spec fn realigned_parts(pieces: Seq<Piece>) -> Seq<Seq<char>> {
    Seq::new(
        pieces.len(),
        |i: int|
            aligned(
                marked(pieces)[i].rendered.len(),
                aligned_parts(pieces)[i],
                aligned_parts(pieces)[i].len(),
            ),
    )
}

/// Centring a token that is centred already, taken with its own length as
/// its weight, leaves it as it is. The token must weigh no more than it has
/// characters, as every token does.
pub proof fn lemma_aligned_idempotent(len: nat, glyphs: Seq<char>, weight: nat)
    requires
        weight <= glyphs.len(),
    ensures
        aligned(len, aligned(len, glyphs, weight), aligned(len, glyphs, weight).len())
            == aligned(len, glyphs, weight),
{
}

/// Centering idempotence: aligning an annotation row once more, its centred
/// tokens taken as they stand, gives the same row, so the line keeps its
/// length. Every piece must weigh no more than it has characters.
pub proof fn lemma_centering_idempotent(pieces: Seq<Piece>)
    requires
        forall|i: int| 0 <= i < pieces.len() ==> (#[trigger] pieces[i]).weight <= pieces[i].glyphs.len(),
    ensures
        realigned_parts(pieces) == aligned_parts(pieces),
        joined(realigned_parts(pieces)) == annotation_row(pieces),
        joined(realigned_parts(pieces)).len() == annotation_row(pieces).len(),
{
    let m = marked(pieces);
    assert forall|i: int| 0 <= i < pieces.len() implies realigned_parts(pieces)[i]
        == aligned_parts(pieces)[i] by {
        lemma_aligned_idempotent(m[i].rendered.len(), m[i].glyphs, m[i].weight);
    }
}

/// The pieces that tokens make, in order.
pub open spec fn pieces_of(tokens: Seq<Seq<char>>) -> Seq<Piece> {
    Seq::new(tokens.len(), |i: int| piece_of(tokens[i]))
}

/// Centering idempotence for the pieces of any tokens: aligning their
/// annotation row once more, its centred tokens taken as they stand, gives
/// the same row, so the line keeps its length.
pub proof fn lemma_centering_idempotent_for_tokens(tokens: Seq<Seq<char>>)
    ensures
        realigned_parts(pieces_of(tokens)) == aligned_parts(pieces_of(tokens)),
        joined(realigned_parts(pieces_of(tokens))) == annotation_row(pieces_of(tokens)),
        joined(realigned_parts(pieces_of(tokens))).len() == annotation_row(
            pieces_of(tokens),
        ).len(),
{
    assert forall|i: int| 0 <= i < tokens.len() implies (#[trigger] pieces_of(tokens)[i]).weight
        <= pieces_of(tokens)[i].glyphs.len() by {
        lemma_weight_bound(tokens[i]);
    }
    lemma_centering_idempotent(pieces_of(tokens));
}

/// A joined text is at least as long as its last part, and ends as its
/// last part does.
pub proof fn lemma_joined_len(parts: Seq<Seq<char>>)
    requires
        parts.len() > 0,
    ensures
        joined(parts).len() >= parts.last().len(),
        parts.last().len() > 0 ==> joined(parts).last() == parts.last().last(),
{
}

/// A closed line is never empty and ends with the end-of-line marker, and
/// its annotation row is not empty either.
pub proof fn lemma_line_not_empty(ps: Seq<Piece>)
    requires
        ps.len() > 0,
    ensures
        rendered_line(ps).len() > 0,
        rendered_line(ps).last() == END_OF_LINE,
        annotation_row(ps).len() > 0,
{
    lemma_joined_len(Seq::new(ps.len(), |i: int| marked(ps)[i].rendered));
    lemma_joined_len(
        Seq::new(
            ps.len(),
            |i: int| aligned(marked(ps)[i].rendered.len(), marked(ps)[i].glyphs, marked(ps)[i].weight),
        ),
    );
}

/// Every line is a closed line: not empty, and ended by the end-of-line
/// marker.
pub open spec fn all_closed(lines: Seq<DisplayLine>) -> bool {
    forall|i: int|
        0 <= i < lines.len() ==> (#[trigger] lines[i]).rendered.len() > 0
            && lines[i].rendered.last() == END_OF_LINE
}

/// Every line that packing closes is not empty and ends with the
/// end-of-line marker, if the lines closed before are so.
pub proof fn lemma_pack_lines(
    tokens: Seq<Seq<char>>,
    lines: Seq<DisplayLine>,
    open: Seq<Piece>,
    g: Geometry,
)
    requires
        all_closed(lines),
    ensures
        pack(tokens, lines, open, g).lines matches Some(all) ==> all_closed(all),
    decreases tokens.len(),
{
    if lines.len() >= g.height {
    } else if tokens.len() == 0 {
        if open.len() > 0 {
            lemma_line_not_empty(open);
        }
    } else if !transliterable(tokens.first()) {
    } else {
        let p = piece_of(tokens.first());
        if fits(open, p, g.width) {
            lemma_pack_lines(tokens.drop_first(), lines, open.push(p), g);
        } else if open.len() == 0 {
            lemma_line_not_empty(seq![p]);
            lemma_pack_lines(
                tokens.drop_first(),
                lines.push(line_of(seq![p], lines, g)),
                Seq::empty(),
                g,
            );
        } else {
            lemma_line_not_empty(open);
            lemma_pack_lines(
                tokens.drop_first(),
                lines.push(line_of(open, lines, g)),
                Seq::empty(),
                g,
            );
        }
    }
}

/// Every line of a layout is a closed line.
pub proof fn lemma_layout_lines(tokens: Seq<Seq<char>>, g: Geometry)
    ensures
        layout(tokens, g).lines matches Some(all) ==> all_closed(all),
{
    lemma_pack_lines(tokens, Seq::empty(), Seq::empty(), g);
}

/// The number of lines among the first `n` that have an annotation row.
pub open spec fn annotated(lines: Seq<DisplayLine>, n: nat) -> nat
    decreases n,
{
    if n == 0 {
        0
    } else {
        annotated(lines, (n - 1) as nat) + if lines[n - 1].annotation is Some {
            1nat
        } else {
            0nat
        }
    }
}

/// The lines stand where a layout puts them: within the line count, each
/// centred in the viewport, and each on the row that the lines above it
/// leave free, an annotation row counted as a row of its own.
pub open spec fn placed(lines: Seq<DisplayLine>, g: Geometry) -> bool {
    &&& lines.len() <= g.height
    &&& forall|i: int|
        0 <= i < lines.len() ==> (#[trigger] lines[i]).col == anchor_col(
            g.cols,
            lines[i].rendered.len(),
        ) && lines[i].row == g.top + i + annotated(lines, (i + 1) as nat)
}

/// Counting annotation rows among the first lines does not look at the lines
/// after them.
pub proof fn lemma_annotated_prefix(lines: Seq<DisplayLine>, more: DisplayLine, n: nat)
    requires
        n <= lines.len(),
    ensures
        annotated(lines.push(more), n) == annotated(lines, n),
    decreases n,
{
    if n > 0 {
        lemma_annotated_prefix(lines, more, (n - 1) as nat);
    }
}

/// A line closed below placed lines is placed too.
pub proof fn lemma_placed_push(lines: Seq<DisplayLine>, ps: Seq<Piece>, g: Geometry)
    requires
        placed(lines, g),
        lines.len() < g.height,
    ensures
        placed(lines.push(line_of(ps, lines, g)), g),
{
    let line = line_of(ps, lines, g);
    let all = lines.push(line);
    let n = lines.len();
    assert forall|i: int| 0 <= i < all.len() implies (#[trigger] all[i]).col == anchor_col(
        g.cols,
        all[i].rendered.len(),
    ) && all[i].row == g.top + i + annotated(all, (i + 1) as nat) by {
        if i < n {
            lemma_annotated_prefix(lines, line, (i + 1) as nat);
        } else {
            lemma_annotated_prefix(lines, line, n);
        }
    }
}

/// Packing keeps lines placed.
pub proof fn lemma_pack_placed(
    tokens: Seq<Seq<char>>,
    lines: Seq<DisplayLine>,
    open: Seq<Piece>,
    g: Geometry,
)
    requires
        placed(lines, g),
    ensures
        pack(tokens, lines, open, g).lines matches Some(all) ==> placed(all, g),
    decreases tokens.len(),
{
    if lines.len() >= g.height {
    } else if tokens.len() == 0 {
        if open.len() > 0 {
            lemma_placed_push(lines, open, g);
        }
    } else if !transliterable(tokens.first()) {
    } else {
        let p = piece_of(tokens.first());
        if fits(open, p, g.width) {
            lemma_pack_placed(tokens.drop_first(), lines, open.push(p), g);
        } else if open.len() == 0 {
            lemma_placed_push(lines, seq![p], g);
            lemma_pack_placed(
                tokens.drop_first(),
                lines.push(line_of(seq![p], lines, g)),
                Seq::empty(),
                g,
            );
        } else {
            lemma_placed_push(lines, open, g);
            lemma_pack_placed(
                tokens.drop_first(),
                lines.push(line_of(open, lines, g)),
                Seq::empty(),
                g,
            );
        }
    }
}

/// No more annotation rows are counted than lines are looked at.
pub proof fn lemma_annotated_bound(lines: Seq<DisplayLine>, n: nat)
    ensures
        annotated(lines, n) <= n,
    decreases n,
{
    if n > 0 {
        lemma_annotated_bound(lines, (n - 1) as nat);
    }
}

/// Where a layout puts its lines: there are at most a quarter as many as the
/// viewport has rows; each is centred; rows are given out in order from the
/// top of the text area, one to a line and one more to a line with an
/// annotation row; and every line stays within the rows of the viewport.
pub proof fn lemma_layout_placed(tokens: Seq<Seq<char>>, cols: u16, rows: u16)
    ensures
        layout(tokens, geometry(cols, rows)).lines matches Some(all) ==> placed(
            all,
            geometry(cols, rows),
        ) && forall|i: int| 0 <= i < all.len() ==> (#[trigger] all[i]).row < rows,
{
    let g = geometry(cols, rows);
    lemma_pack_placed(tokens, Seq::empty(), Seq::empty(), g);
    match layout(tokens, g).lines {
        Some(all) => {
            assert forall|i: int| 0 <= i < all.len() implies (#[trigger] all[i]).row < rows by {
                lemma_annotated_bound(all, (i + 1) as nat);
            }
        },
        None => {},
    }
}

/// A closed line is as long as its pieces take with their spaces, the
/// end-of-line marker standing where the last space would.
pub proof fn lemma_line_len(ps: Seq<Piece>)
    requires
        ps.len() > 0,
    ensures
        rendered_line(ps).len() == taken(ps),
{
    lemma_joined_marked(ps);
    lemma_joined_taken(ps);
}

/// Pieces joined are one character shorter than they take with their
/// spaces.
pub proof fn lemma_joined_taken(ps: Seq<Piece>)
    requires
        ps.len() > 0,
    ensures
        joined(Seq::new(ps.len(), |i: int| ps[i].rendered)).len() + 1 == taken(ps),
    decreases ps.len(),
{
    let plain = Seq::new(ps.len(), |i: int| ps[i].rendered);
    let head = ps.drop_last();
    if ps.len() == 1 {
        assert(taken(head) == 0);
    } else {
        lemma_joined_taken(head);
        assert(plain.drop_last() =~= Seq::new(head.len(), |i: int| head[i].rendered));
    }
}

/// The Latin text of a closed line is that of its pieces joined, then the
/// end-of-line marker.
pub proof fn lemma_joined_marked(ps: Seq<Piece>)
    requires
        ps.len() > 0,
    ensures
        rendered_line(ps) == joined(Seq::new(ps.len(), |i: int| ps[i].rendered)).push(
            END_OF_LINE,
        ),
{
    let plain = Seq::new(ps.len(), |i: int| ps[i].rendered);
    let parts = Seq::new(ps.len(), |i: int| marked(ps)[i].rendered);
    if ps.len() > 1 {
        assert(parts.drop_last() =~= plain.drop_last());
    }
}

/// The text is the line that the token makes alone: its Latin text, then
/// the end-of-line marker.
pub open spec fn lone(text: Seq<char>, token: Seq<char>) -> bool {
    text == rendered(token).push(END_OF_LINE)
}

/// Every line is shorter than the width, unless a single token makes it.
pub open spec fn narrow(lines: Seq<DisplayLine>, width: nat) -> bool {
    forall|i: int|
        0 <= i < lines.len() ==> (#[trigger] lines[i]).rendered.len() < width || exists|
            token: Seq<char>,
        |
            lone(lines[i].rendered, token)
}

/// Packing keeps lines narrow, if the open line has room left.
pub proof fn lemma_pack_narrow(
    tokens: Seq<Seq<char>>,
    lines: Seq<DisplayLine>,
    open: Seq<Piece>,
    g: Geometry,
)
    requires
        narrow(lines, g.width),
        open.len() == 0 || taken(open) < g.width,
    ensures
        pack(tokens, lines, open, g).lines matches Some(all) ==> narrow(all, g.width),
    decreases tokens.len(),
{
    if lines.len() >= g.height {
    } else if tokens.len() == 0 {
        if open.len() > 0 {
            lemma_narrow_push(lines, open, g);
        }
    } else if !transliterable(tokens.first()) {
    } else {
        let p = piece_of(tokens.first());
        if fits(open, p, g.width) {
            assert(open.push(p).drop_last() =~= open);
            lemma_pack_narrow(tokens.drop_first(), lines, open.push(p), g);
        } else if open.len() == 0 {
            let line = line_of(seq![p], lines, g);
            lemma_joined_marked(seq![p]);
            assert(lone(line.rendered, tokens.first()));
            let all = lines.push(line);
            assert forall|i: int| 0 <= i < all.len() implies (#[trigger] all[i]).rendered.len()
                < g.width || exists|token: Seq<char>| lone(all[i].rendered, token) by {}
            lemma_pack_narrow(tokens.drop_first(), all, Seq::empty(), g);
        } else {
            lemma_narrow_push(lines, open, g);
            lemma_pack_narrow(
                tokens.drop_first(),
                lines.push(line_of(open, lines, g)),
                Seq::empty(),
                g,
            );
        }
    }
}

/// A line closed from pieces that left room is shorter than the width.
pub proof fn lemma_narrow_push(lines: Seq<DisplayLine>, open: Seq<Piece>, g: Geometry)
    requires
        narrow(lines, g.width),
        open.len() > 0,
        taken(open) < g.width,
    ensures
        narrow(lines.push(line_of(open, lines, g)), g.width),
{
    lemma_line_len(open);
    let all = lines.push(line_of(open, lines, g));
    assert forall|i: int| 0 <= i < all.len() implies (#[trigger] all[i]).rendered.len() < g.width
        || exists|token: Seq<char>| lone(all[i].rendered, token) by {}
}

/// The width of a layout: every line is shorter than three fifths of the
/// viewport's columns, unless a single token makes it.
pub proof fn lemma_layout_narrow(tokens: Seq<Seq<char>>, cols: u16, rows: u16)
    ensures
        layout(tokens, geometry(cols, rows)).lines matches Some(all) ==> narrow(
            all,
            geometry(cols, rows).width,
        ),
{
    lemma_pack_narrow(tokens, Seq::empty(), Seq::empty(), geometry(cols, rows));
}

} // verus!
