//! The layout engine: breaking styled spans into word units, wrapping
//! them to the render width, resolving tabs, and justifying each line;
//! and the walks that turn barcodes and 2D codes into filled rectangles.
use vstd::prelude::*;

use crate::context::{
    justification_offset, spec_available_width, spec_base_x, spec_render_width, spec_x, spec_y,
    Context, TextJustify,
};
use crate::util::{sat_add_u32, sat_sub};
use crate::graphics::{Barcode, Code2D, Image, ImageFlow, Rectangle, TextSpan, VectorGraphic};

verus! {

/// Characters that end a word: the space that glues to the word before
/// it, and the two control characters that form units of their own.
pub open spec fn is_break_char(c: char) -> bool {
    c == ' ' || c == '\n' || c == '\t'
}

/// Length of the leading run of word characters.
pub open spec fn nonspace_run(s: Seq<char>) -> int
    decreases s.len(),
{
    if s.len() == 0 || is_break_char(s[0]) {
        0
    } else {
        1 + nonspace_run(s.skip(1))
    }
}

/// Length of the leading run of spaces.
pub open spec fn space_run(s: Seq<char>) -> int
    decreases s.len(),
{
    if s.len() == 0 || s[0] != ' ' {
        0
    } else {
        1 + space_run(s.skip(1))
    }
}

/// Length of the leading word unit: the word characters with their
/// trailing spaces glued on.
pub open spec fn unit_len(s: Seq<char>) -> int {
    let a = nonspace_run(s);
    a + space_run(s.skip(a))
}

proof fn lemma_nonspace_run_bounds(s: Seq<char>)
    ensures
        0 <= nonspace_run(s) <= s.len(),
    decreases s.len(),
{
    if s.len() == 0 || is_break_char(s[0]) {
    } else {
        lemma_nonspace_run_bounds(s.skip(1));
    }
}

proof fn lemma_space_run_bounds(s: Seq<char>)
    ensures
        0 <= space_run(s) <= s.len(),
    decreases s.len(),
{
    if s.len() == 0 || s[0] != ' ' {
    } else {
        lemma_space_run_bounds(s.skip(1));
    }
}

/// A text broken into word units: newline and tab characters stand
/// alone, anything else groups into maximal word-plus-trailing-space
/// runs.
pub open spec fn word_units(s: Seq<char>) -> Seq<Seq<char>>
    decreases s.len(),
    via word_units_decreases
{
    if s.len() == 0 {
        Seq::empty()
    } else if s[0] == '\n' || s[0] == '\t' {
        seq![seq![s[0]]] + word_units(s.skip(1))
    } else {
        seq![s.take(unit_len(s))] + word_units(s.skip(unit_len(s)))
    }
}

#[via_fn]
proof fn word_units_decreases(s: Seq<char>) {
    if s.len() > 0 && !(s[0] == '\n' || s[0] == '\t') {
        lemma_unit_len_bounds(s);
    }
}

proof fn lemma_unit_len_bounds(s: Seq<char>)
    requires
        s.len() > 0,
        !(s[0] == '\n' || s[0] == '\t'),
    ensures
        1 <= unit_len(s) <= s.len(),
{
    lemma_nonspace_run_bounds(s);
    let a = nonspace_run(s);
    lemma_space_run_bounds(s.skip(a));
    if a == 0 {
        if !is_break_char(s[0]) {
            lemma_nonspace_run_bounds(s.skip(1));
            assert(false);
        }
        assert(s[0] == ' ');
        assert(s.skip(0) =~= s);
        lemma_space_run_bounds(s.skip(1));
        assert(space_run(s) == 1 + space_run(s.skip(1)));
        assert(space_run(s.skip(a)) >= 1);
    }
}

/// The length of the leading word unit of the remaining text, at the
/// executable level.
fn scan_unit(text: &str, start: usize, n: usize) -> (len: usize)
    requires
        n == text@.len(),
        start < n,
        !(text@[start as int] == '\n' || text@[start as int] == '\t'),
    ensures
        len == unit_len(text@.skip(start as int)),
        1 <= len <= n - start,
{
    let ghost s = text@.skip(start as int);
    let mut i: usize = start;
    loop
        invariant
            n == text@.len(),
            start <= i <= n,
            nonspace_run(text@.skip(start as int)) == (i - start) + nonspace_run(
                text@.skip(i as int),
            ),
        ensures
            start <= i <= n,
            n == text@.len(),
            nonspace_run(text@.skip(start as int)) == (i - start) + nonspace_run(
                text@.skip(i as int),
            ),
            i == n || is_break_char(text@[i as int]),
        decreases n - i,
    {
        if i >= n {
            break;
        }
        let c = text.get_char(i);
        if c == ' ' || c == '\n' || c == '\t' {
            break;
        }
        proof {
            assert(text@.skip(i as int)[0] == text@[i as int]);
            assert(text@.skip(i as int).skip(1) =~= text@.skip(i + 1));
        }
        i += 1;
    }
    proof {
        if i < n {
            assert(text@.skip(i as int)[0] == text@[i as int]);
        }
        assert(nonspace_run(text@.skip(i as int)) == 0);
        lemma_nonspace_run_bounds(s);
    }
    let ghost a = nonspace_run(s);
    let ghost word_end = i as int;
    loop
        invariant
            n == text@.len(),
            word_end <= i <= n,
            start <= word_end,
            a == nonspace_run(text@.skip(start as int)),
            word_end == start + a,
            space_run(text@.skip(word_end)) == (i - word_end) + space_run(text@.skip(i as int)),
        ensures
            word_end <= i <= n,
            n == text@.len(),
            space_run(text@.skip(word_end)) == (i - word_end) + space_run(text@.skip(i as int)),
            i == n || text@[i as int] != ' ',
        decreases n - i,
    {
        if i >= n {
            break;
        }
        if text.get_char(i) != ' ' {
            break;
        }
        proof {
            assert(text@.skip(i as int)[0] == text@[i as int]);
            assert(text@.skip(i as int).skip(1) =~= text@.skip(i + 1));
        }
        i += 1;
    }
    proof {
        if i < n {
            assert(text@.skip(i as int)[0] == text@[i as int]);
        }
        assert(space_run(text@.skip(i as int)) == 0);
        assert(s.skip(a) =~= text@.skip(start + a));
        assert(unit_len(s) == a + space_run(text@.skip(start + a)));
        lemma_unit_len_bounds(s);
    }
    i - start
}

/// A copy of `span` carrying only the given text.
fn respan(span: &TextSpan, text: String) -> (r: TextSpan)
    ensures
        r.text@ == text@,
        same_style(r, *span),
{
    TextSpan {
        font: span.font,
        size: span.size,
        text,
        bold: span.bold,
        italic: span.italic,
        underline: span.underline,
        strikethrough: span.strikethrough,
        stretch_width: span.stretch_width,
        stretch_height: span.stretch_height,
        inverted: span.inverted,
        upside_down: span.upside_down,
        justify: span.justify,
        character_width: span.character_width,
        character_height: span.character_height,
    }
}

/// Two spans agree on everything but their text.
pub open spec fn same_style(a: TextSpan, b: TextSpan) -> bool {
    &&& a.font == b.font
    &&& a.size == b.size
    &&& a.bold == b.bold
    &&& a.italic == b.italic
    &&& a.underline == b.underline
    &&& a.strikethrough == b.strikethrough
    &&& a.stretch_width == b.stretch_width
    &&& a.stretch_height == b.stretch_height
    &&& a.inverted == b.inverted
    &&& a.upside_down == b.upside_down
    &&& a.justify == b.justify
    &&& a.character_width == b.character_width
    &&& a.character_height == b.character_height
}

/// Breaks one span into word units, each inheriting the span's style:
/// newlines and tabs stand alone, words keep their trailing spaces.
pub fn break_into_words(span: &TextSpan) -> (r: Vec<TextSpan>)
    ensures
        r@.map_values(|sp: TextSpan| sp.text@) == word_units(span.text@),
        forall|k: int| 0 <= k < r@.len() ==> same_style(#[trigger] r@[k], *span),
{
    let mut out: Vec<TextSpan> = Vec::new();
    let text = span.text.as_str();
    let n = text.unicode_len();
    let mut i: usize = 0;
    proof {
        assert(span.text@.skip(0) =~= span.text@);
        assert(out@.map_values(|sp: TextSpan| sp.text@) =~= Seq::<Seq<char>>::empty());
        assert(Seq::<Seq<char>>::empty() + word_units(span.text@) =~= word_units(span.text@));
    }
    while i < n
        invariant
            text@ == span.text@,
            n == span.text@.len(),
            i <= n,
            word_units(span.text@) == out@.map_values(|sp: TextSpan| sp.text@) + word_units(
                span.text@.skip(i as int),
            ),
            forall|k: int| 0 <= k < out@.len() ==> same_style(#[trigger] out@[k], *span),
        decreases n - i,
    {
        let ghost rest = span.text@.skip(i as int);
        let ghost before = out@.map_values(|sp: TextSpan| sp.text@);
        let c = text.get_char(i);
        let step: usize = if c == '\n' || c == '\t' {
            1
        } else {
            scan_unit(text, i, n)
        };
        let piece = text.substring_char(i, i + step);
        out.push(respan(span, String::from_str(piece)));
        proof {
            assert(rest[0] == span.text@[i as int]);
            if c == '\n' || c == '\t' {
                assert(word_units(rest) == seq![seq![rest[0]]] + word_units(rest.skip(1)));
                assert(piece@ =~= seq![rest[0]]);
            } else {
                assert(unit_len(rest) == step);
                assert(word_units(rest) == seq![rest.take(step as int)] + word_units(
                    rest.skip(step as int),
                ));
                assert(piece@ =~= rest.take(step as int));
            }
            assert(rest.skip(step as int) =~= span.text@.skip(i + step));
            assert(out@.map_values(|sp: TextSpan| sp.text@) =~= before + seq![piece@]);
            assert(before + seq![piece@] + word_units(span.text@.skip(i + step)) =~= before
                + word_units(rest));
        }
        i += step;
    }
    proof {
        assert(span.text@.skip(i as int) =~= Seq::<char>::empty());
        assert(out@.map_values(|sp: TextSpan| sp.text@) =~= word_units(span.text@));
    }
    out
}

/// Character count of a text without its trailing spaces; trailing
/// spaces glue words together but take no width of their own.
pub open spec fn trimmed_len(s: Seq<char>) -> int
    decreases s.len(),
{
    if s.len() == 0 {
        0
    } else if s.last() == ' ' {
        trimmed_len(s.drop_last())
    } else {
        s.len() as int
    }
}

/// `a * b` clamped to `u32::MAX`.
pub open spec fn sat_mul_u32(a: int, b: int) -> int {
    if a * b > u32::MAX {
        u32::MAX as int
    } else {
        a * b
    }
}

/// The width in pixels a span takes on a line: its character count,
/// trailing spaces excluded, times its character cell width.
pub open spec fn span_width(sp: TextSpan) -> int {
    sat_mul_u32(trimmed_len(sp.text@), sp.character_width as int)
}

/// Width in pixels of a span on the line.
pub fn get_span_width(span: &TextSpan) -> (r: u32)
    ensures
        r == span_width(*span),
{
    let text = span.text.as_str();
    let n = text.unicode_len();
    let mut j: usize = n;
    proof {
        assert(span.text@.subrange(0, n as int) =~= span.text@);
    }
    loop
        invariant
            text@ == span.text@,
            n == span.text@.len(),
            j <= n,
            trimmed_len(span.text@) == trimmed_len(span.text@.subrange(0, j as int)),
        ensures
            j <= n,
            text@ == span.text@,
            trimmed_len(span.text@) == trimmed_len(span.text@.subrange(0, j as int)),
            j == 0 || span.text@[j - 1] != ' ',
        decreases j,
    {
        if j == 0 {
            break;
        }
        if text.get_char(j - 1) != ' ' {
            break;
        }
        proof {
            let pre = span.text@.subrange(0, j as int);
            assert(pre.last() == span.text@[j - 1]);
            assert(pre.drop_last() =~= span.text@.subrange(0, j - 1));
        }
        j -= 1;
    }
    proof {
        let pre = span.text@.subrange(0, j as int);
        if j > 0 {
            assert(pre.last() == span.text@[j - 1]);
            assert(trimmed_len(pre) == j);
        }
    }
    if span.character_width == 0 {
        proof {
            assert((j as int) * 0 == 0) by (nonlinear_arith);
        }
        return 0;
    }
    if j > 0xFFFF_FFFF {
        proof {
            assert((j as int) * (span.character_width as int) > u32::MAX) by (nonlinear_arith)
                requires
                    j > 0xFFFF_FFFFu32,
                    span.character_width >= 1,
            ;
        }
        return 0xFFFF_FFFF;
    }
    proof {
        assert((j as int) * (span.character_width as int) < 0x10000000000000000)
            by (nonlinear_arith)
            requires
                j <= 0xFFFF_FFFFu32,
                span.character_width <= 0xFFFF_FFFFu32,
        ;
    }
    let wide: u64 = (j as u64) * (span.character_width as u64);
    if wide > 0xFFFF_FFFF {
        0xFFFF_FFFF
    } else {
        wide as u32
    }
}

/// The texts of a word split into fixed-size pieces: the first piece
/// holds at most `first` characters, every later piece at most `rest`.
pub open spec fn chunk_rest(s: Seq<char>, rest: int) -> Seq<Seq<char>>
    decreases s.len(),
{
    if rest < 1 || s.len() <= rest {
        seq![s]
    } else {
        seq![s.take(rest)] + chunk_rest(s.skip(rest), rest)
    }
}

pub open spec fn chunks(s: Seq<char>, first: int, rest: int) -> Seq<Seq<char>> {
    if s.len() <= first {
        seq![s]
    } else {
        seq![s.take(if first >= 0 {
            first
        } else {
            0
        })] + chunk_rest(
            s.skip(
                if first >= 0 {
                    first
                } else {
                    0
                },
            ),
            rest,
        )
    }
}

/// Breaks an over-long word into pieces: the first sized to the space
/// left on the current line, the rest sized to whole lines.
pub fn break_apart(word: &TextSpan, first: usize, rest: usize) -> (r: Vec<TextSpan>)
    requires
        rest >= 1,
    ensures
        r@.map_values(|sp: TextSpan| sp.text@) == chunks(word.text@, first as int, rest as int),
        forall|k: int| 0 <= k < r@.len() ==> same_style(#[trigger] r@[k], *word),
        r@.len() >= 1,
{
    let mut out: Vec<TextSpan> = Vec::new();
    let text = word.text.as_str();
    let n = text.unicode_len();
    if n <= first {
        out.push(respan(word, String::from_str(text)));
        proof {
            assert(out@.map_values(|sp: TextSpan| sp.text@) =~= chunks(
                word.text@,
                first as int,
                rest as int,
            ));
        }
        return out;
    }
    let head = text.substring_char(0, first);
    out.push(respan(word, String::from_str(head)));
    let mut i: usize = first;
    proof {
        assert(word.text@.take(first as int) =~= word.text@.subrange(0, first as int));
        assert(out@.map_values(|sp: TextSpan| sp.text@) =~= seq![
            word.text@.take(first as int),
        ]);
        assert(chunks(word.text@, first as int, rest as int) == seq![
            word.text@.take(first as int),
        ] + chunk_rest(word.text@.skip(first as int), rest as int));
    }
    loop
        invariant_except_break
            text@ == word.text@,
            n == word.text@.len(),
            first <= i <= n,
            i < n,
            rest >= 1,
            chunks(word.text@, first as int, rest as int) == out@.map_values(
                |sp: TextSpan| sp.text@,
            ) + chunk_rest(word.text@.skip(i as int), rest as int),
            forall|k: int| 0 <= k < out@.len() ==> same_style(#[trigger] out@[k], *word),
            out@.len() >= 1,
        ensures
            chunks(word.text@, first as int, rest as int) == out@.map_values(
                |sp: TextSpan| sp.text@,
            ),
            forall|k: int| 0 <= k < out@.len() ==> same_style(#[trigger] out@[k], *word),
            out@.len() >= 1,
        decreases n - i,
    {
        let ghost seg = word.text@.skip(i as int);
        let ghost before = out@.map_values(|sp: TextSpan| sp.text@);
        if n - i <= rest {
            let piece = text.substring_char(i, n);
            out.push(respan(word, String::from_str(piece)));
            proof {
                assert(chunk_rest(seg, rest as int) == seq![seg]);
                assert(piece@ =~= seg);
                assert(out@.map_values(|sp: TextSpan| sp.text@) =~= before + seq![seg]);
                assert(before + chunk_rest(seg, rest as int) =~= before + seq![seg]);
            }
            break;
        }
        let piece = text.substring_char(i, i + rest);
        out.push(respan(word, String::from_str(piece)));
        proof {
            assert(chunk_rest(seg, rest as int) == seq![seg.take(rest as int)] + chunk_rest(
                seg.skip(rest as int),
                rest as int,
            ));
            assert(piece@ =~= seg.take(rest as int));
            assert(seg.skip(rest as int) =~= word.text@.skip(i + rest));
            assert(out@.map_values(|sp: TextSpan| sp.text@) =~= before + seq![
                seg.take(rest as int),
            ]);
        }
        i += rest;
    }
    out
}

/// A laid-out line ready for the output side: its spans, the x offset
/// its justification gives it, its height, and the justification that
/// produced the offset.
pub struct RenderLine {
    pub spans: Vec<TextSpan>,
    pub x_offset: u32,
    pub max_height: u32,
    pub justify: TextJustify,
}

/// Total width of a line: the span widths summed, clamped at the
/// numeric limit.
pub open spec fn line_width(spans: Seq<TextSpan>) -> int
    decreases spans.len(),
{
    if spans.len() == 0 {
        0
    } else {
        sat_add_u32(line_width(spans.drop_last()), span_width(spans.last()))
    }
}

/// The tallest character cell on a line; zero when the line is empty.
pub open spec fn line_height(spans: Seq<TextSpan>) -> int
    decreases spans.len(),
{
    if spans.len() == 0 {
        0
    } else {
        let rest = line_height(spans.drop_last());
        if spans.last().character_height > rest {
            spans.last().character_height as int
        } else {
            rest
        }
    }
}

/// Width of a line, at the executable level.
fn measure_line_width(spans: &Vec<TextSpan>) -> (r: u32)
    ensures
        r == line_width(spans@),
{
    let mut total: u32 = 0;
    let mut k: usize = 0;
    while k < spans.len()
        invariant
            k <= spans@.len(),
            total == line_width(spans@.subrange(0, k as int)),
        decreases spans@.len() - k,
    {
        proof {
            assert(spans@.subrange(0, k + 1).drop_last() =~= spans@.subrange(0, k as int));
        }
        let w = get_span_width(&spans[k]);
        total = total.saturating_add(w);
        k += 1;
    }
    proof {
        assert(spans@.subrange(0, spans@.len() as int) =~= spans@);
    }
    total
}

/// Height of a line, at the executable level.
fn measure_line_height(spans: &Vec<TextSpan>) -> (r: u32)
    ensures
        r == line_height(spans@),
{
    let mut tallest: u32 = 0;
    let mut k: usize = 0;
    while k < spans.len()
        invariant
            k <= spans@.len(),
            tallest == line_height(spans@.subrange(0, k as int)),
        decreases spans@.len() - k,
    {
        proof {
            assert(spans@.subrange(0, k + 1).drop_last() =~= spans@.subrange(0, k as int));
        }
        if spans[k].character_height > tallest {
            tallest = spans[k].character_height;
        }
        k += 1;
    }
    proof {
        assert(spans@.subrange(0, spans@.len() as int) =~= spans@);
    }
    tallest
}

/// What every emitted line satisfies: the offset is exactly what its
/// justification assigns to its width within the given render width,
/// the height is its tallest span, and the justification is the first
/// span's.
pub open spec fn line_justified(line: RenderLine, rw: int) -> bool {
    &&& line.spans@.len() > 0
    &&& line.justify == line.spans@[0].justify
    &&& line.x_offset == justification_offset(line.justify, rw, line_width(line.spans@))
    &&& line.max_height == line_height(line.spans@)
}


// ---------------------------------------------------------------------
// The wrap model: what laying out a batch of spans means
// ---------------------------------------------------------------------
/// The fields of a span the layout engine reads and preserves, as one
/// mathematical value.
pub struct SpanModel {
    pub text: Seq<char>,
    pub font: crate::context::Font,
    pub size: int,
    pub bold: bool,
    pub italic: bool,
    pub underline: int,
    pub strikethrough: int,
    pub stretch_width: int,
    pub stretch_height: int,
    pub inverted: bool,
    pub upside_down: bool,
    pub justify: TextJustify,
    pub character_width: int,
    pub character_height: int,
}

pub open spec fn span_model(s: TextSpan) -> SpanModel {
    SpanModel {
        text: s.text@,
        font: s.font,
        size: s.size as int,
        bold: s.bold,
        italic: s.italic,
        underline: s.underline as int,
        strikethrough: s.strikethrough as int,
        stretch_width: s.stretch_width as int,
        stretch_height: s.stretch_height as int,
        inverted: s.inverted,
        upside_down: s.upside_down,
        justify: s.justify,
        character_width: s.character_width as int,
        character_height: s.character_height as int,
    }
}

pub open spec fn models(s: Seq<TextSpan>) -> Seq<SpanModel> {
    s.map_values(|t: TextSpan| span_model(t))
}

pub open spec fn line_models(s: Seq<Vec<TextSpan>>) -> Seq<Seq<SpanModel>> {
    s.map_values(|v: Vec<TextSpan>| models(v@))
}

/// The same span carrying a different text.
pub open spec fn with_text(m: SpanModel, text: Seq<char>) -> SpanModel {
    SpanModel { text, ..m }
}

/// Width of a span on the line, at the model level.
pub open spec fn sm_width(m: SpanModel) -> int {
    sat_mul_u32(trimmed_len(m.text), m.character_width)
}

/// Total line width at the model level.
pub open spec fn vline_width(l: Seq<SpanModel>) -> int
    decreases l.len(),
{
    if l.len() == 0 {
        0
    } else {
        sat_add_u32(vline_width(l.drop_last()), sm_width(l.last()))
    }
}

/// Tallest character cell on a line, at the model level.
pub open spec fn vline_height(l: Seq<SpanModel>) -> int
    decreases l.len(),
{
    if l.len() == 0 {
        0
    } else {
        let rest = vline_height(l.drop_last());
        if l.last().character_height > rest {
            l.last().character_height
        } else {
            rest
        }
    }
}

/// Line advance height: the tallest cell, but at least the configured
/// line spacing.
pub open spec fn vline_advance(l: Seq<SpanModel>, floor: int) -> int
    decreases l.len(),
{
    if l.len() == 0 {
        floor
    } else {
        let rest = vline_advance(l.drop_last(), floor);
        if l.last().character_height > rest {
            l.last().character_height
        } else {
            rest
        }
    }
}

proof fn lemma_model_measures(a: Seq<TextSpan>, floor: int)
    ensures
        line_width(a) == vline_width(models(a)),
        line_height(a) == vline_height(models(a)),
        crate::context::spans_line_height(a, floor) == vline_advance(models(a), floor),
    decreases a.len(),
{
    if a.len() > 0 {
        lemma_model_measures(a.drop_last(), floor);
        assert(models(a).drop_last() =~= models(a.drop_last()));
        assert(models(a).last() == span_model(a.last()));
    } else {
        assert(models(a) =~= Seq::<SpanModel>::empty());
    }
}

/// The layout parameters the wrap reads from the context: the left
/// edge, the render width, the default line spacing and the tab table.
pub struct WrapEnv {
    pub base_x: int,
    pub width: int,
    pub spacing: int,
    pub tabs: Seq<u8>,
}

pub open spec fn wrap_env(c: Context) -> WrapEnv {
    WrapEnv {
        base_x: spec_base_x(c),
        width: spec_render_width(c),
        spacing: c.text.line_spacing as int,
        tabs: c.text.tabs@,
    }
}

/// The wrap's running state: finished lines, the open line, and the
/// cursor.
pub struct WrapState {
    pub lines: Seq<Seq<SpanModel>>,
    pub current: Seq<SpanModel>,
    pub x: int,
    pub y: int,
}

/// Room left on the line from cursor `x` to the right edge.
pub open spec fn env_avail(env: WrapEnv, x: int) -> int {
    sat_sub(env.width, sat_sub(x, env.base_x))
}

/// Closes the open line: the cursor returns to the left edge and drops
/// by the line's advance height; the line joins the finished ones.
pub open spec fn close_line(st: WrapState, env: WrapEnv) -> WrapState {
    WrapState {
        lines: st.lines.push(st.current),
        current: Seq::empty(),
        x: env.base_x,
        y: sat_add_u32(st.y, vline_advance(st.current, env.spacing)),
    }
}

/// The first cumulative tab position strictly beyond `x`, walking the
/// tab table with strides of the tab width times the character width;
/// none when the table runs out first.
pub open spec fn tab_target(tabs: Seq<u8>, cw: int, x: int, pos: int) -> Option<int>
    decreases tabs.len(),
{
    if tabs.len() == 0 {
        None
    } else if pos > x {
        Some(pos)
    } else {
        tab_target(tabs.skip(1), cw, x, sat_add_u32(pos, sat_mul_u32(tabs[0] as int, cw)))
    }
}

/// Lays the pieces of one over-wide word: every piece but the last
/// closes the line it lands on; the last advances the cursor.
pub open spec fn push_pieces(
    st: WrapState,
    env: WrapEnv,
    m: SpanModel,
    pieces: Seq<Seq<char>>,
) -> WrapState
    decreases pieces.len(),
{
    if pieces.len() == 0 {
        st
    } else if pieces.len() == 1 {
        WrapState {
            current: st.current.push(with_text(m, pieces[0])),
            x: sat_add_u32(st.x, sm_width(with_text(m, pieces[0]))),
            ..st
        }
    } else {
        let st1 = WrapState { current: st.current.push(with_text(m, pieces[0])), ..st };
        push_pieces(close_line(st1, env), env, m, pieces.skip(1))
    }
}

/// One word unit's effect on the wrap, per the layout rules: a newline
/// closes the line and records an empty one; a tab moves the cursor to
/// the next stop strictly beyond it; a word that fits joins the line;
/// a word wider than a whole line breaks into pieces; any other word
/// closes the line and opens the next with itself.
pub open spec fn wrap_step(st: WrapState, env: WrapEnv, w: SpanModel) -> WrapState {
    let avail = env_avail(env, st.x);
    let wwidth = sm_width(w);
    if w.text == seq!['\n'] {
        let st2 = close_line(st, env);
        WrapState { lines: st2.lines.push(Seq::empty()), ..st2 }
    } else if w.text == seq!['\t'] {
        match tab_target(env.tabs, w.character_width, st.x, 0) {
            Some(p) => WrapState { x: sat_add_u32(env.base_x, p), ..st },
            None => st,
        }
    } else if wwidth <= avail {
        WrapState { current: st.current.push(w), x: sat_add_u32(st.x, wwidth), ..st }
    } else if wwidth > env.width {
        let cw0: int = if w.character_width == 0 {
            1
        } else {
            w.character_width
        };
        let first = avail / cw0;
        let rest: int = if env.width / cw0 == 0 {
            1
        } else {
            env.width / cw0
        };
        push_pieces(st, env, w, chunks(w.text, first, rest))
    } else {
        let st2 = close_line(st, env);
        WrapState { current: seq![w], x: sat_add_u32(env.base_x, wwidth), ..st2 }
    }
}

/// The wrap over a whole word list.
pub open spec fn wrap_all(st: WrapState, env: WrapEnv, words: Seq<SpanModel>) -> WrapState
    decreases words.len(),
{
    if words.len() == 0 {
        st
    } else {
        wrap_all(wrap_step(st, env, words[0]), env, words.skip(1))
    }
}

/// The finished lines of a wrap: the open line joins them when it
/// holds anything.
pub open spec fn wrap_lines(st: WrapState) -> Seq<Seq<SpanModel>> {
    if st.current.len() > 0 {
        st.lines.push(st.current)
    } else {
        st.lines
    }
}

/// One span's word units, each carrying the span's style.
pub open spec fn span_units(m: SpanModel) -> Seq<SpanModel> {
    word_units(m.text).map_values(|u: Seq<char>| with_text(m, u))
}

/// Every word unit of a span batch, in order.
pub open spec fn all_units(spans: Seq<SpanModel>) -> Seq<SpanModel>
    decreases spans.len(),
{
    if spans.len() == 0 {
        Seq::empty()
    } else {
        span_units(spans[0]) + all_units(spans.skip(1))
    }
}

/// A justified line, at the model level.
pub struct LineModel {
    pub spans: Seq<SpanModel>,
    pub x_offset: int,
    pub max_height: int,
    pub justify: TextJustify,
}

pub open spec fn render_line_model(rl: RenderLine) -> LineModel {
    LineModel {
        spans: models(rl.spans@),
        x_offset: rl.x_offset as int,
        max_height: rl.max_height as int,
        justify: rl.justify,
    }
}

/// Justification of wrapped lines: empty lines are dropped; every
/// other line gets the offset its first span's justification assigns
/// to its width, and its tallest cell as height.
pub open spec fn justified_lines(ls: Seq<Seq<SpanModel>>, rw: int) -> Seq<LineModel>
    decreases ls.len(),
{
    if ls.len() == 0 {
        Seq::empty()
    } else if ls[0].len() == 0 {
        justified_lines(ls.skip(1), rw)
    } else {
        seq![
            LineModel {
                spans: ls[0],
                x_offset: justification_offset(ls[0][0].justify, rw, vline_width(ls[0])),
                max_height: vline_height(ls[0]),
                justify: ls[0][0].justify,
            },
        ] + justified_lines(ls.skip(1), rw)
    }
}

/// Turns wrapped lines into justified render lines; empty lines are
/// dropped, every other line gets the x offset its first span's
/// justification assigns.
fn justify_lines(render_width: u32, lines: Vec<Vec<TextSpan>>) -> (r: Vec<RenderLine>)
    ensures
        forall|k: int|
            0 <= k < r@.len() ==> line_justified(#[trigger] r@[k], render_width as int),
        r@.map_values(|rl: RenderLine| render_line_model(rl)) == justified_lines(
            line_models(lines@),
            render_width as int,
        ),
{
    let ghost ls = line_models(lines@);
    let ghost rwi = render_width as int;
    let mut out: Vec<RenderLine> = Vec::new();
    let mut k: usize = 0;
    let mut lines = lines;
    proof {
        assert(ls.skip(0) =~= ls);
        assert(out@.map_values(|rl: RenderLine| render_line_model(rl))
            =~= Seq::<LineModel>::empty());
        assert(Seq::<LineModel>::empty() + justified_lines(ls, rwi) =~= justified_lines(
            ls,
            rwi,
        ));
    }
    while k < lines.len()
        invariant
            k <= lines@.len(),
            ls == line_models(lines@),
            rwi == render_width as int,
            forall|m: int|
                0 <= m < out@.len() ==> line_justified(#[trigger] out@[m], render_width as int),
            justified_lines(ls, rwi) == out@.map_values(|rl: RenderLine| render_line_model(rl))
                + justified_lines(ls.skip(k as int), rwi),
        decreases lines@.len() - k,
    {
        let ghost pre = out@.map_values(|rl: RenderLine| render_line_model(rl));
        let line = &lines[k];
        proof {
            assert(ls.skip(k as int)[0] == ls[k as int]);
            assert(ls[k as int] == models(line@));
            assert(ls.skip(k as int).skip(1) =~= ls.skip(k + 1));
            assert(models(line@).len() == line@.len());
        }
        if line.len() > 0 {
            let justify = line[0].justify;
            let width = measure_line_width(line);
            let height = measure_line_height(line);
            let offset: u32 = if width > render_width {
                0
            } else {
                match justify {
                    TextJustify::Right => render_width - width,
                    TextJustify::Center => (render_width - width) / 2,
                    TextJustify::Left => 0,
                }
            };
            let mut copied: Vec<TextSpan> = Vec::new();
            let mut m: usize = 0;
            while m < line.len()
                invariant
                    m <= line@.len(),
                    copied@.len() == m,
                    forall|q: int|
                        0 <= q < m ==> (#[trigger] copied@[q]).text@ == line@[q].text@
                            && same_style(copied@[q], line@[q]) && copied@[q].justify == line@[
                            q].justify,
                decreases line@.len() - m,
            {
                copied.push(line[m].clone());
                m += 1;
            }
            proof {
                assert(line_width(copied@) == line_width(line@)) by {
                    lemma_line_measures_equal(copied@, line@);
                }
                assert(line_height(copied@) == line_height(line@)) by {
                    lemma_line_measures_equal(copied@, line@);
                }
                lemma_model_measures(line@, 0);
            }
            out.push(RenderLine { spans: copied, x_offset: offset, max_height: height, justify });
            proof {
                assert(models(copied@) =~= models(line@));
                assert(render_line_model(out@.last()) == justified_lines(
                    ls.skip(k as int),
                    rwi,
                )[0]);
                assert(out@.map_values(|rl: RenderLine| render_line_model(rl)) =~= pre + seq![
                    render_line_model(out@.last()),
                ]);
            }
        }
        k += 1;
        proof {
            assert(out@.map_values(|rl: RenderLine| render_line_model(rl)) + justified_lines(
                ls.skip(k as int),
                rwi,
            ) =~= pre + justified_lines(ls.skip(k - 1), rwi));
        }
    }
    proof {
        assert(ls.skip(k as int) =~= Seq::<Seq<SpanModel>>::empty());
        assert(out@.map_values(|rl: RenderLine| render_line_model(rl)) =~= justified_lines(
            ls,
            rwi,
        ));
    }
    out
}

/// Lines whose spans agree pairwise on text and style have the same
/// width and height.
proof fn lemma_line_measures_equal(a: Seq<TextSpan>, b: Seq<TextSpan>)
    requires
        a.len() == b.len(),
        forall|q: int|
            0 <= q < a.len() ==> (#[trigger] a[q]).text@ == b[q].text@ && same_style(a[q], b[q]),
    ensures
        line_width(a) == line_width(b),
        line_height(a) == line_height(b),
    decreases a.len(),
{
    if a.len() > 0 {
        assert(a.drop_last().len() == b.drop_last().len());
        assert(forall|q: int|
            0 <= q < a.drop_last().len() ==> (#[trigger] a.drop_last()[q]).text@
                == b.drop_last()[q].text@ && same_style(a.drop_last()[q], b.drop_last()[q]));
        lemma_line_measures_equal(a.drop_last(), b.drop_last());
        assert(a.last().text@ == b.last().text@ && same_style(a.last(), b.last()));
    }
}

/// Wraps a batch of spans to the context's render width and justifies
/// each resulting line. The result and the cursor are exactly what the
/// wrap model assigns to the batch's word units: words that fit
/// advance the cursor, words that fit a fresh line close the current
/// one, words wider than a whole line break into pieces, newlines
/// close lines, and tabs move the cursor to the next stop strictly
/// beyond it. Every emitted line carries the offset its justification
/// assigns to its width.
#[verifier::rlimit(100)]
#[verifier::spinoff_prover]
pub fn layout_spans(ctx: &mut Context, spans: &Vec<TextSpan>) -> (r: Vec<RenderLine>)
    ensures
        forall|k: int|
            0 <= k < r@.len() ==> line_justified(
                #[trigger] r@[k],
                spec_render_width(*old(ctx)),
            ),
        crate::context::position_step(*old(ctx), *final(ctx)),
        ({
            let env = wrap_env(*old(ctx));
            let st0 = WrapState {
                lines: Seq::empty(),
                current: Seq::empty(),
                x: spec_x(*old(ctx)),
                y: spec_y(*old(ctx)),
            };
            let fin = wrap_all(st0, env, all_units(models(spans@)));
            &&& r@.map_values(|rl: RenderLine| render_line_model(rl)) == justified_lines(
                wrap_lines(fin),
                env.width,
            )
            &&& spec_x(*final(ctx)) == fin.x
            &&& spec_y(*final(ctx)) == fin.y
        }),
{
    let ghost ctx0 = *ctx;
    let ghost env = wrap_env(ctx0);
    let ghost ms = models(spans@);
    let mut words: Vec<TextSpan> = Vec::new();
    let mut s: usize = 0;
    proof {
        assert(ms.skip(0) =~= ms);
        assert(models(words@) =~= Seq::<SpanModel>::empty());
        assert(Seq::<SpanModel>::empty() + all_units(ms) =~= all_units(ms));
    }
    while s < spans.len()
        invariant
            s <= spans@.len(),
            *ctx == ctx0,
            ms == models(spans@),
            all_units(ms) == models(words@) + all_units(ms.skip(s as int)),
        decreases spans@.len() - s,
    {
        let ghost pre = models(words@);
        let ghost rest = ms.skip(s as int);
        let mut broken = break_into_words(&spans[s]);
        proof {
            assert(rest[0] == ms[s as int]);
            assert(ms[s as int] == span_model(spans@[s as int]));
            assert(rest.skip(1) =~= ms.skip(s + 1));
            assert(models(broken@) =~= span_units(ms[s as int])) by {
                let units = word_units(spans@[s as int].text@);
                assert(broken@.map_values(|sp: TextSpan| sp.text@) == units);
                assert(models(broken@).len() == units.len());
                assert forall|k: int| 0 <= k < units.len() implies #[trigger] models(broken@)[k]
                    == span_units(ms[s as int])[k] by {
                    assert(broken@[k].text@ == units[k]);
                    assert(same_style(broken@[k], spans@[s as int]));
                    assert(span_units(ms[s as int])[k] == with_text(ms[s as int], units[k]));
                }
            }
        }
        words.append(&mut broken);
        s += 1;
        proof {
            assert(models(words@) =~= pre + span_units(ms[s - 1]));
            assert(models(words@) + all_units(ms.skip(s as int)) =~= pre + all_units(rest));
        }
    }
    let ghost wm = all_units(ms);
    proof {
        assert(ms.skip(s as int) =~= Seq::<SpanModel>::empty());
        assert(models(words@) =~= wm);
    }
    let ghost st0 = WrapState {
        lines: Seq::empty(),
        current: Seq::empty(),
        x: spec_x(ctx0),
        y: spec_y(ctx0),
    };
    let ghost fin = wrap_all(st0, env, wm);

    let max_width = ctx.get_width();
    let mut lines: Vec<Vec<TextSpan>> = Vec::new();
    let mut current: Vec<TextSpan> = Vec::new();
    let mut w: usize = 0;
    proof {
        assert(wm.skip(0) =~= wm);
        assert(line_models(lines@) =~= Seq::<Seq<SpanModel>>::empty());
        assert(models(current@) =~= Seq::<SpanModel>::empty());
    }
    while w < words.len()
        invariant
            w <= words@.len(),
            crate::context::position_step(ctx0, *ctx),
            max_width == spec_render_width(ctx0),
            env == wrap_env(ctx0),
            models(words@) == wm,
            fin == wrap_all(
                (WrapState {
                    lines: line_models(lines@),
                    current: models(current@),
                    x: spec_x(*ctx),
                    y: spec_y(*ctx),
                }),
                env,
                wm.skip(w as int),
            ),
        decreases words@.len() - w,
    {
        let ghost st_in = WrapState {
            lines: line_models(lines@),
            current: models(current@),
            x: spec_x(*ctx),
            y: spec_y(*ctx),
        };
        let ghost m = wm[w as int];
        proof {
            assert(m == span_model(words@[w as int]));
            assert(wm.skip(w as int)[0] == m);
            assert(wm.skip(w as int).skip(1) =~= wm.skip(w + 1));
            assert(spec_available_width(*ctx) == env_avail(env, st_in.x));
        }
        let word = &words[w];
        let avail = ctx.get_available_width();
        let word_width = get_span_width(word);
        let text = word.text.as_str();
        let tn = text.unicode_len();

        if tn == 1 && text.get_char(0) == '\n' {
            proof {
                assert(m.text =~= seq!['\n']);
            }
            ctx.newline_for_spans(&current);
            let mut finished: Vec<TextSpan> = Vec::new();
            core::mem::swap(&mut current, &mut finished);
            lines.push(finished);
            lines.push(Vec::new());
            proof {
                lemma_model_measures(finished@, env.spacing);
                assert(models(current@) =~= Seq::<SpanModel>::empty());
                assert(line_models(lines@) =~= st_in.lines.push(st_in.current).push(
                    Seq::<SpanModel>::empty(),
                ));
                assert((WrapState {
                    lines: line_models(lines@),
                    current: models(current@),
                    x: spec_x(*ctx),
                    y: spec_y(*ctx),
                }) == wrap_step(st_in, env, m));
            }
        } else if tn == 1 && text.get_char(0) == '\t' {
            proof {
                assert(m.text =~= seq!['\t']);
                assert(m.text != seq!['\n']) by {
                    assert(m.text[0] == '\t');
                    assert(seq!['\n'][0] == '\n');
                }
            }
            let current_x = ctx.get_x();
            let mut tab_pos: u32 = 0;
            let mut t: usize = 0;
            let tab_count = ctx.text.tabs.len();
            let ghost x0 = st_in.x;
            proof {
                assert(env.tabs.skip(0) =~= env.tabs);
            }
            loop
                invariant_except_break
                    spec_x(*ctx) == x0,
                invariant
                    t <= tab_count,
                    crate::context::position_step(ctx0, *ctx),
                    env == wrap_env(ctx0),
                    tab_count == env.tabs.len(),
                    current_x == x0,
                    spec_y(*ctx) == st_in.y,
                    m.character_width == word.character_width,
                    tab_target(env.tabs, m.character_width, x0, 0) == tab_target(
                        env.tabs.skip(t as int),
                        m.character_width,
                        x0,
                        tab_pos as int,
                    ),
                ensures
                    crate::context::position_step(ctx0, *ctx),
                    spec_y(*ctx) == st_in.y,
                    spec_x(*ctx) == match tab_target(env.tabs, m.character_width, x0, 0) {
                        Some(p) => sat_add_u32(env.base_x, p),
                        None => x0,
                    },
                decreases tab_count - t,
            {
                proof {
                    assert(ctx.text.tabs@ == env.tabs);
                }
                if t >= tab_count {
                    proof {
                        assert(env.tabs.skip(t as int) =~= Seq::<u8>::empty());
                    }
                    break;
                }
                let ghost rest_tabs = env.tabs.skip(t as int);
                proof {
                    assert(rest_tabs[0] == env.tabs[t as int]);
                    assert(rest_tabs.skip(1) =~= env.tabs.skip(t + 1));
                }
                if tab_pos > current_x {
                    ctx.set_x(tab_pos);
                    proof {
                        assert(tab_target(env.tabs, m.character_width, x0, 0) == Some(
                            tab_pos as int,
                        ));
                        assert(spec_x(*ctx) == sat_add_u32(env.base_x, tab_pos as int));
                    }
                    break;
                }
                proof {
                    assert((ctx.text.tabs@[t as int] as int) * (word.character_width as int)
                        <= 255 * 0xFFFF_FFFFint) by (nonlinear_arith)
                        requires
                            ctx.text.tabs@[t as int] <= 255,
                            word.character_width <= 0xFFFF_FFFFu32,
                    ;
                }
                let stride: u64 = (ctx.text.tabs[t] as u64) * (word.character_width as u64);
                let stride32: u32 = if stride > 0xFFFF_FFFF {
                    0xFFFF_FFFF
                } else {
                    stride as u32
                };
                tab_pos = tab_pos.saturating_add(stride32);
                t += 1;
            }
            proof {
                assert((WrapState {
                    lines: line_models(lines@),
                    current: models(current@),
                    x: spec_x(*ctx),
                    y: spec_y(*ctx),
                }) == wrap_step(st_in, env, m));
            }
        } else if word_width <= avail {
            proof {
                lemma_unit_text_is_not_control(m, tn as int, text@);
            }
            ctx.offset_x(word_width);
            current.push(word.clone());
            proof {
                assert(models(current@) =~= st_in.current.push(m));
                assert((WrapState {
                    lines: line_models(lines@),
                    current: models(current@),
                    x: spec_x(*ctx),
                    y: spec_y(*ctx),
                }) == wrap_step(st_in, env, m));
            }
        } else if word_width > max_width {
            proof {
                lemma_unit_text_is_not_control(m, tn as int, text@);
            }
            let cw: u32 = if word.character_width == 0 {
                1
            } else {
                word.character_width
            };
            let first = (avail / cw) as usize;
            let rest_raw = (max_width / cw) as usize;
            let rest: usize = if rest_raw == 0 {
                1
            } else {
                rest_raw
            };
            let ghost texts = chunks(m.text, first as int, rest as int);
            let ghost target = push_pieces(st_in, env, m, texts);
            proof {
                assert(target == wrap_step(st_in, env, m));
            }
            let broken = break_apart(word, first, rest);
            proof {
                assert(broken@.map_values(|sp: TextSpan| sp.text@) == texts);
                assert(models(broken@).len() == texts.len());
                assert forall|k: int| 0 <= k < texts.len() implies #[trigger] models(broken@)[k]
                    == with_text(m, texts[k]) by {
                    assert(broken@[k].text@ == texts[k]);
                    assert(same_style(broken@[k], *word));
                }
            }
            let mut b: usize = 0;
            let last_index = broken.len() - 1;
            proof {
                assert(texts.skip(0) =~= texts);
                assert((WrapState {
                    lines: line_models(lines@),
                    current: models(current@),
                    x: spec_x(*ctx),
                    y: spec_y(*ctx),
                }) == st_in);
            }
            while b < broken.len()
                invariant
                    b <= broken@.len(),
                    broken@.len() >= 1,
                    last_index == broken@.len() - 1,
                    texts.len() == broken@.len(),
                    crate::context::position_step(ctx0, *ctx),
                    env == wrap_env(ctx0),
                    forall|k: int|
                        0 <= k < texts.len() ==> #[trigger] models(broken@)[k] == with_text(
                            m,
                            texts[k],
                        ),
                    b < broken@.len() ==> push_pieces(
                        (WrapState {
                            lines: line_models(lines@),
                            current: models(current@),
                            x: spec_x(*ctx),
                            y: spec_y(*ctx),
                        }),
                        env,
                        m,
                        texts.skip(b as int),
                    ) == target,
                    b == broken@.len() ==> (WrapState {
                        lines: line_models(lines@),
                        current: models(current@),
                        x: spec_x(*ctx),
                        y: spec_y(*ctx),
                    }) == target,
                decreases broken@.len() - b,
            {
                let ghost st_b = WrapState {
                    lines: line_models(lines@),
                    current: models(current@),
                    x: spec_x(*ctx),
                    y: spec_y(*ctx),
                };
                let ghost wp = with_text(m, texts[b as int]);
                let piece = broken[b].clone();
                proof {
                    assert(models(broken@)[b as int] == wp);
                    assert(span_model(piece) == wp);
                    assert(texts.skip(b as int)[0] == texts[b as int]);
                    assert(texts.skip(b as int).skip(1) =~= texts.skip(b + 1));
                }
                if b == last_index {
                    let pw = get_span_width(&piece);
                    current.push(piece);
                    ctx.offset_x(pw);
                    proof {
                        assert(texts.skip(b as int).len() == 1);
                        assert(models(current@) =~= st_b.current.push(wp));
                        assert((WrapState {
                            lines: line_models(lines@),
                            current: models(current@),
                            x: spec_x(*ctx),
                            y: spec_y(*ctx),
                        }) == push_pieces(st_b, env, m, texts.skip(b as int)));
                    }
                } else {
                    current.push(piece);
                    ctx.newline_for_spans(&current);
                    let mut finished: Vec<TextSpan> = Vec::new();
                    core::mem::swap(&mut current, &mut finished);
                    lines.push(finished);
                    proof {
                        lemma_model_measures(finished@, env.spacing);
                        assert(models(finished@) =~= st_b.current.push(wp));
                        assert(models(current@) =~= Seq::<SpanModel>::empty());
                        assert(line_models(lines@) =~= st_b.lines.push(st_b.current.push(wp)));
                        assert((WrapState {
                            lines: line_models(lines@),
                            current: models(current@),
                            x: spec_x(*ctx),
                            y: spec_y(*ctx),
                        }) == close_line(
                            (WrapState { current: st_b.current.push(wp), ..st_b }),
                            env,
                        ));
                    }
                }
                b += 1;
            }
        } else {
            proof {
                lemma_unit_text_is_not_control(m, tn as int, text@);
            }
            ctx.newline_for_spans(&current);
            let mut finished: Vec<TextSpan> = Vec::new();
            core::mem::swap(&mut current, &mut finished);
            lines.push(finished);
            current.push(word.clone());
            ctx.offset_x(word_width);
            proof {
                lemma_model_measures(finished@, env.spacing);
                assert(line_models(lines@) =~= st_in.lines.push(st_in.current));
                assert(models(current@) =~= seq![m]);
                assert((WrapState {
                    lines: line_models(lines@),
                    current: models(current@),
                    x: spec_x(*ctx),
                    y: spec_y(*ctx),
                }) == wrap_step(st_in, env, m));
            }
        }
        w += 1;
    }
    proof {
        assert(wm.skip(w as int) =~= Seq::<SpanModel>::empty());
        assert(fin == (WrapState {
            lines: line_models(lines@),
            current: models(current@),
            x: spec_x(*ctx),
            y: spec_y(*ctx),
        }));
    }
    if current.len() > 0 {
        lines.push(current);
        proof {
            assert(line_models(lines@) =~= wrap_lines(fin));
        }
    } else {
        proof {
            assert(models(current@).len() == 0);
            assert(line_models(lines@) =~= wrap_lines(fin));
        }
    }
    justify_lines(max_width, lines)
}

/// A word unit whose executable text has a length other than one, or a
/// first character that is neither control character, is neither the
/// newline unit nor the tab unit.
proof fn lemma_unit_text_is_not_control(m: SpanModel, tn: int, text: Seq<char>)
    requires
        m.text == text,
        tn == text.len(),
        !(tn == 1 && text.len() > 0 && text[0] == '\n'),
        !(tn == 1 && text.len() > 0 && text[0] == '\t'),
    ensures
        m.text != seq!['\n'],
        m.text != seq!['\t'],
{
    if m.text == seq!['\n'] {
        assert(text.len() == 1 && text[0] == '\n');
    }
    if m.text == seq!['\t'] {
        assert(text.len() == 1 && text[0] == '\t');
    }
}

/// The rectangles a left-to-right bar walk emits from position `x`:
/// one per nonzero module that still fits the line (a module width of
/// room before the right edge), each module advancing x by its width.
pub open spec fn bar_walk(
    points: Seq<u8>,
    x: int,
    y: int,
    pw: int,
    ph: int,
    rw: int,
    base_x: int,
) -> Seq<VectorGraphic>
    decreases points.len(),
{
    if points.len() == 0 {
        Seq::empty()
    } else {
        (if points[0] > 0 && sat_sub(rw, sat_sub(x, base_x)) >= pw {
            seq![
                VectorGraphic::Rectangle(
                    Rectangle { x: x as u32, y: y as u32, w: pw as u32, h: ph as u32 },
                ),
            ]
        } else {
            Seq::empty()
        }) + bar_walk(points.skip(1), sat_add_u32(x, pw), y, pw, ph, rw, base_x)
    }
}

/// The total bar width handed to justification: modules times module
/// width, clamped at the numeric limit.
pub open spec fn clamped_width(count: int, pw: int) -> int {
    if count * pw > u32::MAX {
        u32::MAX as int
    } else {
        count * pw
    }
}

/// Where a justified strip of modules starts: the area origin plus the
/// offset its justification assigns to the clamped total width.
pub open spec fn strip_origin(c: Context, count: int, pw: int) -> int {
    sat_add_u32(
        spec_base_x(c),
        justification_offset(c.text.justify, spec_render_width(c), clamped_width(count, pw)),
    )
}

/// Walks a barcode's bar pattern left to right, one filled rectangle
/// per nonzero module that still fits the line, starting at the x the
/// current justification assigns, then returns the cursor to the left
/// edge below the bars.
pub fn barcode_rectangles(ctx: &mut Context, barcode: &Barcode) -> (r: Vec<VectorGraphic>)
    ensures
        r@ == bar_walk(
            barcode.points@,
            strip_origin(*old(ctx), barcode.points@.len() as int, barcode.point_width as int),
            spec_y(*old(ctx)),
            barcode.point_width as int,
            barcode.point_height as int,
            spec_render_width(*old(ctx)),
            spec_base_x(*old(ctx)),
        ),
        crate::context::position_step(*old(ctx), *final(ctx)),
        spec_x(*final(ctx)) == spec_base_x(*old(ctx)),
        spec_y(*final(ctx)) == sat_add_u32(spec_y(*old(ctx)), barcode.point_height as int),
{
    let ghost ctx0 = *ctx;
    let count = barcode.points.len();
    proof {
        assert((count as int) * (barcode.point_width as int)
            < 0x100000000000000000000000000000000) by (nonlinear_arith)
            requires
                count <= 0xFFFFFFFFFFFFFFFFu128,
                barcode.point_width <= 255,
        ;
    }
    let total: u128 = (count as u128) * (barcode.point_width as u128);
    let bar_width: u32 = if total > 0xFFFF_FFFF {
        0xFFFF_FFFF
    } else {
        total as u32
    };
    let origin = ctx.calculate_justification(bar_width);
    ctx.set_x(origin);
    let ghost pw = barcode.point_width as int;
    let ghost ph = barcode.point_height as int;
    let ghost rw = spec_render_width(ctx0);
    let ghost base = spec_base_x(ctx0);
    let ghost y0 = spec_y(ctx0);
    let ghost start = strip_origin(ctx0, barcode.points@.len() as int, pw);
    let mut out: Vec<VectorGraphic> = Vec::new();
    let mut k: usize = 0;
    proof {
        assert(spec_x(*ctx) == start);
        assert(barcode.points@.skip(0) =~= barcode.points@);
        assert(Seq::<VectorGraphic>::empty() + bar_walk(barcode.points@, start, y0, pw, ph, rw, base)
            =~= bar_walk(barcode.points@, start, y0, pw, ph, rw, base));
    }
    while k < barcode.points.len()
        invariant
            k <= barcode.points@.len(),
            crate::context::position_step(ctx0, *ctx),
            spec_y(*ctx) == y0,
            pw == barcode.point_width as int,
            ph == barcode.point_height as int,
            rw == spec_render_width(ctx0),
            base == spec_base_x(ctx0),
            bar_walk(barcode.points@, start, y0, pw, ph, rw, base) == out@ + bar_walk(
                barcode.points@.skip(k as int),
                spec_x(*ctx),
                y0,
                pw,
                ph,
                rw,
                base,
            ),
        decreases barcode.points@.len() - k,
    {
        let ghost rest = barcode.points@.skip(k as int);
        let ghost pre = out@;
        let ghost x_here = spec_x(*ctx);
        proof {
            assert(rest[0] == barcode.points@[k as int]);
            assert(rest.skip(1) =~= barcode.points@.skip(k + 1));
            assert(spec_available_width(*ctx) == sat_sub(rw, sat_sub(x_here, base)));
        }
        if barcode.points[k] > 0 {
            if ctx.get_available_width() >= barcode.point_width as u32 {
                out.push(
                    VectorGraphic::Rectangle(
                        Rectangle {
                            x: ctx.get_x(),
                            y: ctx.get_y(),
                            w: barcode.point_width as u32,
                            h: barcode.point_height as u32,
                        },
                    ),
                );
            }
        }
        ctx.offset_x(barcode.point_width as u32);
        k += 1;
        proof {
            assert(out@ + bar_walk(
                barcode.points@.skip(k as int),
                spec_x(*ctx),
                y0,
                pw,
                ph,
                rw,
                base,
            ) =~= pre + bar_walk(rest, x_here, y0, pw, ph, rw, base));
        }
    }
    proof {
        assert(barcode.points@.skip(k as int) =~= Seq::<u8>::empty());
        assert(out@ =~= bar_walk(barcode.points@, start, y0, pw, ph, rw, base));
    }
    ctx.reset_x();
    ctx.offset_y(barcode.point_height as u32);
    out
}

/// The rectangles a row-major module walk emits: after `width` modules
/// the cursor returns to the strip origin and drops one module height;
/// each nonzero module that still fits the line becomes a rectangle.
pub open spec fn code2d_walk(
    points: Seq<u8>,
    col: int,
    x: int,
    y: int,
    width: int,
    pw: int,
    ph: int,
    rw: int,
    base_x: int,
    start_x: int,
) -> Seq<VectorGraphic>
    decreases points.len(),
{
    if points.len() == 0 {
        Seq::empty()
    } else {
        let c = if col >= width {
            0
        } else {
            col
        };
        let xr = if col >= width {
            start_x
        } else {
            x
        };
        let yr = if col >= width {
            sat_add_u32(y, ph)
        } else {
            y
        };
        (if points[0] > 0 && sat_sub(rw, sat_sub(xr, base_x)) >= pw {
            seq![
                VectorGraphic::Rectangle(
                    Rectangle { x: xr as u32, y: yr as u32, w: pw as u32, h: ph as u32 },
                ),
            ]
        } else {
            Seq::empty()
        }) + code2d_walk(
            points.skip(1),
            c + 1,
            sat_add_u32(xr, pw),
            yr,
            width,
            pw,
            ph,
            rw,
            base_x,
            start_x,
        )
    }
}

/// Walks a 2D code's module matrix row-major, one filled rectangle per
/// nonzero module that still fits the line, advancing a row of module
/// height at each row boundary, then returns the cursor to the left
/// edge.
pub fn code_2d_rectangles(ctx: &mut Context, code: &Code2D) -> (r: Vec<VectorGraphic>)
    requires
        code.width >= 1,
    ensures
        r@ == code2d_walk(
            code.points@,
            0,
            strip_origin(*old(ctx), code.width as int, code.point_width as int),
            spec_y(*old(ctx)),
            code.width as int,
            code.point_width as int,
            code.point_height as int,
            spec_render_width(*old(ctx)),
            spec_base_x(*old(ctx)),
            strip_origin(*old(ctx), code.width as int, code.point_width as int),
        ),
        crate::context::position_step(*old(ctx), *final(ctx)),
        spec_x(*final(ctx)) == spec_base_x(*old(ctx)),
{
    let ghost ctx0 = *ctx;
    proof {
        assert((code.width as int) * (code.point_width as int) < 0x10000000000000000)
            by (nonlinear_arith)
            requires
                code.width <= 0xFFFFFFFFu32,
                code.point_width <= 0xFFFFFFFFu32,
        ;
    }
    let row: u64 = (code.width as u64) * (code.point_width as u64);
    let row_width: u32 = if row > 0xFFFF_FFFF {
        0xFFFF_FFFF
    } else {
        row as u32
    };
    let origin = ctx.calculate_justification(row_width);
    ctx.set_x(origin);
    let ghost pw = code.point_width as int;
    let ghost ph = code.point_height as int;
    let ghost rw = spec_render_width(ctx0);
    let ghost base = spec_base_x(ctx0);
    let ghost start = strip_origin(ctx0, code.width as int, pw);
    let mut out: Vec<VectorGraphic> = Vec::new();
    let mut k: usize = 0;
    let mut col: u32 = 0;
    proof {
        assert(spec_x(*ctx) == start);
        assert(code.points@.skip(0) =~= code.points@);
        assert(Seq::<VectorGraphic>::empty() + code2d_walk(
            code.points@,
            0,
            start,
            spec_y(ctx0),
            code.width as int,
            pw,
            ph,
            rw,
            base,
            start,
        ) =~= code2d_walk(
            code.points@,
            0,
            start,
            spec_y(ctx0),
            code.width as int,
            pw,
            ph,
            rw,
            base,
            start,
        ));
    }
    while k < code.points.len()
        invariant
            k <= code.points@.len(),
            col <= code.width,
            code.width >= 1,
            crate::context::position_step(ctx0, *ctx),
            start == sat_add_u32(base, origin as int),
            pw == code.point_width as int,
            ph == code.point_height as int,
            rw == spec_render_width(ctx0),
            base == spec_base_x(ctx0),
            code2d_walk(
                code.points@,
                0,
                start,
                spec_y(ctx0),
                code.width as int,
                pw,
                ph,
                rw,
                base,
                start,
            ) == out@ + code2d_walk(
                code.points@.skip(k as int),
                col as int,
                spec_x(*ctx),
                spec_y(*ctx),
                code.width as int,
                pw,
                ph,
                rw,
                base,
                start,
            ),
        decreases code.points@.len() - k,
    {
        let ghost rest = code.points@.skip(k as int);
        let ghost pre = out@;
        let ghost col_in = col as int;
        let ghost x_in = spec_x(*ctx);
        let ghost y_in = spec_y(*ctx);
        if col >= code.width {
            col = 0;
            ctx.set_x(origin);
            ctx.offset_y(code.point_height);
            proof {
                assert(spec_x(*ctx) == start);
            }
        }
        let ghost x_here = spec_x(*ctx);
        let ghost y_here = spec_y(*ctx);
        proof {
            assert(rest[0] == code.points@[k as int]);
            assert(rest.skip(1) =~= code.points@.skip(k + 1));
            assert(spec_available_width(*ctx) == sat_sub(rw, sat_sub(x_here, base)));
        }
        if code.points[k] > 0 {
            if ctx.get_available_width() >= code.point_width {
                out.push(
                    VectorGraphic::Rectangle(
                        Rectangle {
                            x: ctx.get_x(),
                            y: ctx.get_y(),
                            w: code.point_width,
                            h: code.point_height,
                        },
                    ),
                );
            }
        }
        ctx.offset_x(code.point_width);
        col += 1;
        k += 1;
        proof {
            assert(out@ + code2d_walk(
                code.points@.skip(k as int),
                col as int,
                spec_x(*ctx),
                spec_y(*ctx),
                code.width as int,
                pw,
                ph,
                rw,
                base,
                start,
            ) =~= pre + code2d_walk(
                rest,
                col_in,
                x_in,
                y_in,
                code.width as int,
                pw,
                ph,
                rw,
                base,
                start,
            ));
        }
    }
    proof {
        assert(code.points@.skip(k as int) =~= Seq::<u8>::empty());
        assert(out@ =~= code2d_walk(
            code.points@,
            0,
            start,
            spec_y(ctx0),
            code.width as int,
            pw,
            ph,
            rw,
            base,
            start,
        ));
    }
    ctx.reset_x();
    out
}

/// Places an image at the cursor according to its flow: an inline image
/// wraps to a fresh line when it no longer fits and then advances x; a
/// block image is justified on the paper strip and advances y; an
/// unanchored image only records where the cursor stood.
pub fn place_image(ctx: &mut Context, image: &mut Image)
    ensures
        crate::context::position_step(*old(ctx), *final(ctx)),
        final(image).pixels@ == old(image).pixels@,
        final(image).w == old(image).w,
        final(image).h == old(image).h,
        final(image).pixel_type == old(image).pixel_type,
        final(image).stretch == old(image).stretch,
        final(image).flow == old(image).flow,
        final(image).upside_down == old(image).upside_down,
        old(image).flow == ImageFlow::Off ==> final(image).x == spec_x(*old(ctx)) && final(image).y == spec_y(*old(ctx)) && *final(ctx) == *old(ctx),
        old(image).flow == ImageFlow::Inline ==> ({
            let wraps = old(image).w > crate::context::spec_available_width(*old(ctx));
            &&& final(image).x == if wraps {
                spec_base_x(*old(ctx))
            } else {
                spec_x(*old(ctx))
            }
            &&& final(image).y == if wraps {
                sat_add_u32(spec_y(*old(ctx)), old(ctx).text.line_spacing as int)
            } else {
                spec_y(*old(ctx))
            }
            &&& spec_x(*final(ctx)) == sat_add_u32(final(image).x as int, old(image).w as int)
            &&& spec_y(*final(ctx)) == final(image).y
        }),
        old(image).flow == ImageFlow::Block && !old(ctx).page_mode.enabled ==> {
            &&& final(image).x == justification_offset(
                old(ctx).text.justify,
                spec_render_width(*old(ctx)),
                old(image).w as int,
            )
            &&& final(image).y == spec_y(*old(ctx))
            &&& spec_x(*final(ctx)) == spec_base_x(*old(ctx))
            &&& spec_y(*final(ctx)) == sat_add_u32(spec_y(*old(ctx)), old(image).h as int)
        },
        old(image).flow == ImageFlow::Block && old(ctx).page_mode.enabled ==> final(image).x
            == spec_x(*old(ctx)) && final(image).y == spec_y(*old(ctx)) && *final(ctx) == *old(
            ctx,
        ),
{
    match image.flow {
        ImageFlow::Inline => {
            if image.w > ctx.get_available_width() {
                ctx.newline(1);
            }
            image.x = ctx.get_x();
            image.y = ctx.get_y();
            ctx.offset_x(image.w);
        },
        ImageFlow::Block => {
            if !ctx.page_mode.enabled {
                let offset = ctx.calculate_justification(image.w);
                ctx.set_x(offset);
            }
            image.x = ctx.get_x();
            image.y = ctx.get_y();
            if !ctx.page_mode.enabled {
                ctx.offset_y(image.h);
                ctx.reset_x();
            }
        },
        ImageFlow::Off => {
            image.x = ctx.get_x();
            image.y = ctx.get_y();
        },
    }
}

} // verus!
