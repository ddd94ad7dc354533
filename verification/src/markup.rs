//! The inline markup of the helper's messages.
//!
//! `$` followed by effect codes and a space opens a span; the character
//! after the space, by convention a backtick, is skipped, and the next
//! backtick closes the span that was opened last. Several codes are chained
//! with `$`, as in `$b$cr`. `&>` stands for four spaces. A line break hides
//! the spaces that follow it, so that a message can be indented in the
//! source. A span that is never closed stays in force to the end.
//!
//! Rendering turns a message into styled characters and says how wide and
//! how high the result is; writing them to a terminal is left to the caller.

use crate::split::copy_chars;
use crate::text::to_chars;
use vstd::prelude::*;

verus! {

/// A colour of the markup, or none.
#[derive(Clone, Copy, Debug, PartialEq, Eq, Structural)]
pub enum MarkupColor {
    /// The terminal's own colour.
    Unset,
    Red,
    Green,
    Blue,
    Yellow,
    Magenta,
    Cyan,
    White,
}

/// A text attribute of the markup.
#[derive(Clone, Copy, Debug, PartialEq, Eq, Structural)]
pub enum Attribute {
    Bold,
    Italic,
    Underlined,
    Dim,
}

/// One effect code, decoded.
#[derive(Clone, Copy, Debug, PartialEq, Eq, Structural)]
pub enum VisualEffect {
    SetAttribute(Attribute),
    SetForegroundColor(MarkupColor),
    SetBackgroundColor(MarkupColor),
}

/// How a character is drawn.
#[derive(Clone, Copy, Debug, PartialEq, Eq, Structural)]
pub struct Style {
    pub bold: bool,
    pub italic: bool,
    pub underlined: bool,
    pub dim: bool,
    pub foreground: MarkupColor,
    pub background: MarkupColor,
}

/// A character with the style it is drawn in.
#[derive(Clone, Copy, Debug, PartialEq, Eq, Structural)]
pub struct StyledChar {
    pub ch: char,
    pub style: Style,
}

/// The extent of what was rendered: the width of the widest line and the
/// number of lines.
#[derive(Clone, Copy, Debug, PartialEq, Eq, Structural)]
pub struct PrintSize {
    pub cols: usize,
    pub rows: usize,
}

/// The style of unmarked text.
pub open spec fn plain_style() -> Style {
    Style {
        bold: false,
        italic: false,
        underlined: false,
        dim: false,
        foreground: MarkupColor::Unset,
        background: MarkupColor::Unset,
    }
}

/// The colour a colour letter stands for.
pub open spec fn color_of(letter: char) -> Option<MarkupColor> {
    if letter == 'r' {
        Some(MarkupColor::Red)
    } else if letter == 'g' {
        Some(MarkupColor::Green)
    } else if letter == 'b' {
        Some(MarkupColor::Blue)
    } else if letter == 'y' {
        Some(MarkupColor::Yellow)
    } else if letter == 'm' {
        Some(MarkupColor::Magenta)
    } else if letter == 'c' {
        Some(MarkupColor::Cyan)
    } else if letter == 'w' {
        Some(MarkupColor::White)
    } else {
        None
    }
}

/// The effect an effect code stands for: `b`, `i`, `u`, `s` for bold,
/// italic, underlined and dim; `c` and a colour letter for the foreground;
/// `b` and a colour letter for the background. Any other code stands for
/// nothing.
pub open spec fn effect_of(code: Seq<char>) -> Option<VisualEffect> {
    if code.len() == 1 {
        if code[0] == 'b' {
            Some(VisualEffect::SetAttribute(Attribute::Bold))
        } else if code[0] == 'i' {
            Some(VisualEffect::SetAttribute(Attribute::Italic))
        } else if code[0] == 'u' {
            Some(VisualEffect::SetAttribute(Attribute::Underlined))
        } else if code[0] == 's' {
            Some(VisualEffect::SetAttribute(Attribute::Dim))
        } else {
            None
        }
    } else if code.len() == 2 && code[0] == 'c' {
        match color_of(code[1]) {
            Some(color) => Some(VisualEffect::SetForegroundColor(color)),
            None => None,
        }
    } else if code.len() == 2 && code[0] == 'b' {
        match color_of(code[1]) {
            Some(color) => Some(VisualEffect::SetBackgroundColor(color)),
            None => None,
        }
    } else {
        None
    }
}

/// The first index at or after `start` at which `s` holds `stop`, or the
/// length of `s` when it holds none from there on.
pub open spec fn index_of_from(s: Seq<char>, stop: char, start: int) -> int
    decreases s.len() - start,
{
    if start < 0 || start >= s.len() {
        s.len() as int
    } else if s[start] == stop {
        start
    } else {
        index_of_from(s, stop, start + 1)
    }
}

/// The effects that the codes of `token` from index `i` on stand for. A
/// code begins with the character at `i`, whatever it is, and runs up to
/// the next `$`; the code after it begins behind that `$`.
pub open spec fn effects_from(token: Seq<char>, i: int) -> Seq<VisualEffect>
    decreases token.len() - i,
{
    if i < 0 || i >= token.len() {
        Seq::empty()
    } else {
        let end = index_of_from(token, '$', i + 1);
        let rest = if i + 1 <= end < token.len() {
            effects_from(token, end + 1)
        } else {
            Seq::empty()
        };
        match effect_of(token.subrange(i, end)) {
            Some(effect) => seq![effect] + rest,
            None => rest,
        }
    }
}

/// The effects of an effect token: its first character, the `$` that
/// introduced it, is passed over, and the codes follow.
pub open spec fn token_effects(token: Seq<char>) -> Seq<VisualEffect> {
    effects_from(token, 1)
}

/// `index_of_from` lies between `start` and the length, names a `stop`
/// when it is short of the length, and passes over none.
pub proof fn lemma_index_of_from(s: Seq<char>, stop: char, start: int)
    requires
        0 <= start <= s.len(),
    ensures
        start <= index_of_from(s, stop, start) <= s.len(),
        index_of_from(s, stop, start) < s.len() ==> s[index_of_from(s, stop, start)] == stop,
        forall|k: int| start <= k < index_of_from(s, stop, start) ==> s[k] != stop,
    decreases s.len() - start,
{
    if start < s.len() && s[start] != stop {
        lemma_index_of_from(s, stop, start + 1);
    }
}

/// Finds the first `stop` at or after `start`; the length of `v` when
/// there is none.
pub fn find_char(v: &Vec<char>, stop: char, start: usize) -> (found: usize)
    ensures
        found == index_of_from(v@, stop, start as int),
        found <= v@.len(),
        start <= v@.len() ==> start <= found,
{
    if start > v.len() {
        return v.len();
    }
    let mut i: usize = start;
    while i < v.len()
        invariant
            start <= i <= v@.len(),
            index_of_from(v@, stop, start as int) == index_of_from(v@, stop, i as int),
        decreases v@.len() - i,
    {
        if v[i] == stop {
            return i;
        }
        i += 1;
    }
    i
}

fn color_for(letter: char) -> (color: Option<MarkupColor>)
    ensures
        color == color_of(letter),
{
    if letter == 'r' {
        Some(MarkupColor::Red)
    } else if letter == 'g' {
        Some(MarkupColor::Green)
    } else if letter == 'b' {
        Some(MarkupColor::Blue)
    } else if letter == 'y' {
        Some(MarkupColor::Yellow)
    } else if letter == 'm' {
        Some(MarkupColor::Magenta)
    } else if letter == 'c' {
        Some(MarkupColor::Cyan)
    } else if letter == 'w' {
        Some(MarkupColor::White)
    } else {
        None
    }
}

fn effect_for(token: &Vec<char>, from: usize, to: usize) -> (effect: Option<VisualEffect>)
    requires
        from <= to <= token@.len(),
    ensures
        effect == effect_of(token@.subrange(from as int, to as int)),
{
    let ghost code = token@.subrange(from as int, to as int);
    let len = to - from;
    if len == 1 {
        assert(code[0] == token@[from as int]);
        let c = token[from];
        if c == 'b' {
            Some(VisualEffect::SetAttribute(Attribute::Bold))
        } else if c == 'i' {
            Some(VisualEffect::SetAttribute(Attribute::Italic))
        } else if c == 'u' {
            Some(VisualEffect::SetAttribute(Attribute::Underlined))
        } else if c == 's' {
            Some(VisualEffect::SetAttribute(Attribute::Dim))
        } else {
            None
        }
    } else if len == 2 {
        assert(code[0] == token@[from as int]);
        assert(code[1] == token@[from as int + 1]);
        let kind = token[from];
        if kind == 'c' {
            match color_for(token[from + 1]) {
                Some(color) => Some(VisualEffect::SetForegroundColor(color)),
                None => None,
            }
        } else if kind == 'b' {
            match color_for(token[from + 1]) {
                Some(color) => Some(VisualEffect::SetBackgroundColor(color)),
                None => None,
            }
        } else {
            None
        }
    } else {
        None
    }
}

/// Decodes an effect token such as `$b$cr`: the effects its codes stand
/// for, in order, codes that stand for nothing left out.
pub fn match_effect(token: &Vec<char>) -> (effects: Vec<VisualEffect>)
    ensures
        effects@ == token_effects(token@),
{
    let mut effects: Vec<VisualEffect> = Vec::new();
    let mut i: usize = 1;
    while i < token.len()
        invariant
            1 <= i,
            token_effects(token@) == effects@ + effects_from(token@, i as int),
        decreases token@.len() - i,
    {
        let end = find_char(token, '$', i + 1);
        let ghost before = effects@;
        match effect_for(token, i, end) {
            Some(effect) => {
                effects.push(effect);
                assert forall|rest: Seq<VisualEffect>| #[trigger]
                    (effects@ + rest) == before + (seq![effect] + rest) by {
                    assert(effects@ + rest =~= before + (seq![effect] + rest));
                }
            },
            None => {},
        }
        if end >= token.len() {
            assert(effects@ + Seq::<VisualEffect>::empty() =~= effects@);
            return effects;
        }
        i = end + 1;
    }
    assert(effects_from(token@, i as int) =~= Seq::<VisualEffect>::empty());
    assert(effects@ + Seq::<VisualEffect>::empty() =~= effects@);
    effects
}

/// The style with one more effect in force: an attribute is switched on,
/// a colour replaces the one before.
pub open spec fn apply_effect(style: Style, effect: VisualEffect) -> Style {
    match effect {
        VisualEffect::SetAttribute(Attribute::Bold) => Style { bold: true, ..style },
        VisualEffect::SetAttribute(Attribute::Italic) => Style { italic: true, ..style },
        VisualEffect::SetAttribute(Attribute::Underlined) => Style { underlined: true, ..style },
        VisualEffect::SetAttribute(Attribute::Dim) => Style { dim: true, ..style },
        VisualEffect::SetForegroundColor(color) => Style { foreground: color, ..style },
        VisualEffect::SetBackgroundColor(color) => Style { background: color, ..style },
    }
}

/// `base` with the first `n` of `effects` in force, in order.
pub open spec fn apply_effects(base: Style, effects: Seq<VisualEffect>, n: int) -> Style
    decreases n,
{
    if n <= 0 || n > effects.len() {
        base
    } else {
        apply_effect(apply_effects(base, effects, n - 1), effects[n - 1])
    }
}

/// The style that the first `n` open spans give, the oldest applied first.
pub open spec fn style_upto(stack: Seq<Seq<VisualEffect>>, n: int) -> Style
    decreases n,
{
    if n <= 0 || n > stack.len() {
        plain_style()
    } else {
        apply_effects(style_upto(stack, n - 1), stack[n - 1], stack[n - 1].len() as int)
    }
}

/// The style that the open spans give together.
pub open spec fn stack_style(stack: Seq<Seq<VisualEffect>>) -> Style {
    style_upto(stack, stack.len() as int)
}

/// A character in a style.
pub open spec fn cell(ch: char, style: Style) -> StyledChar {
    StyledChar { ch, style }
}

/// The first index at or after `start` at which `s` holds something other
/// than a space, or the length of `s`.
pub open spec fn skip_spaces(s: Seq<char>, start: int) -> int
    decreases s.len() - start,
{
    if start < 0 || start >= s.len() {
        s.len() as int
    } else if s[start] != ' ' {
        start
    } else {
        skip_spaces(s, start + 1)
    }
}

/// The renderer as a mathematical value: what has been drawn, which spans
/// are open, how wide the current line is, how wide the widest finished
/// line was and how many lines were finished.
pub struct RenderModel {
    pub cells: Seq<StyledChar>,
    pub stack: Seq<Seq<VisualEffect>>,
    pub width: int,
    pub cols: int,
    pub breaks: int,
}

impl RenderModel {
    /// Nothing drawn, no span open.
    pub open spec fn start() -> RenderModel {
        RenderModel { cells: Seq::empty(), stack: Seq::empty(), width: 0, cols: 0, breaks: 0 }
    }

    /// The style in force.
    pub open spec fn style(self) -> Style {
        stack_style(self.stack)
    }

    /// Draws one character on the current line.
    pub open spec fn put(self, ch: char) -> RenderModel {
        RenderModel {
            cells: self.cells.push(cell(ch, self.style())),
            width: self.width + 1,
            ..self
        }
    }

    /// Draws four spaces.
    pub open spec fn tab(self) -> RenderModel {
        self.put(' ').put(' ').put(' ').put(' ')
    }

    /// Ends the current line.
    pub open spec fn line_break(self) -> RenderModel {
        RenderModel {
            cells: self.cells.push(cell('\n', self.style())),
            width: 0,
            cols: self.total_cols(),
            breaks: self.breaks + 1,
            ..self
        }
    }

    /// Opens a span.
    pub open spec fn open(self, effects: Seq<VisualEffect>) -> RenderModel {
        RenderModel { stack: self.stack.push(effects), ..self }
    }

    /// Closes the span opened last, if any is open.
    pub open spec fn close(self) -> RenderModel {
        if self.stack.len() > 0 {
            RenderModel { stack: self.stack.drop_last(), ..self }
        } else {
            self
        }
    }

    /// The width of the widest line, the current one included.
    pub open spec fn total_cols(self) -> int {
        if self.width > self.cols {
            self.width
        } else {
            self.cols
        }
    }

    /// The number of lines: the finished ones, and the current one if
    /// anything stands on it.
    pub open spec fn total_rows(self) -> int {
        if self.width > 0 {
            self.breaks + 1
        } else {
            self.breaks
        }
    }

    /// The renderer after the piece of markup that begins at `i`.
    pub open spec fn step(self, input: Seq<char>, i: int) -> RenderModel {
        let c = input[i];
        if c == '$' {
            self.open(token_effects(input.subrange(i, index_of_from(input, ' ', i))))
        } else if c == '`' {
            self.close()
        } else if c == '\n' {
            self.line_break()
        } else if c == '&' {
            if i + 1 < input.len() && input[i + 1] == '>' {
                self.tab()
            } else {
                self
            }
        } else {
            self.put(c)
        }
    }
}

/// Where the piece of markup that begins at `i` ends: an effect token ends
/// behind the character that follows its space, a line break behind the
/// spaces that follow it, `&` behind the character that follows it, and
/// anything else behind itself.
pub open spec fn next_piece(input: Seq<char>, i: int) -> int {
    let c = input[i];
    if c == '$' {
        index_of_from(input, ' ', i) + 2
    } else if c == '\n' {
        skip_spaces(input, i + 1)
    } else if c == '&' {
        i + 2
    } else {
        i + 1
    }
}

/// The renderer after the markup from `i` to the end.
pub open spec fn render_from(input: Seq<char>, i: int, state: RenderModel) -> RenderModel
    decreases input.len() - i,
{
    if i < 0 || i >= input.len() {
        state
    } else if i < next_piece(input, i) < input.len() {
        render_from(input, next_piece(input, i), state.step(input, i))
    } else {
        state.step(input, i)
    }
}

/// The renderer after the whole of `input`.
pub open spec fn rendered(input: Seq<char>) -> RenderModel {
    render_from(input, 0, RenderModel::start())
}

/// `skip_spaces` lies between `start` and the length and passes over
/// spaces only.
pub proof fn lemma_skip_spaces(s: Seq<char>, start: int)
    requires
        0 <= start <= s.len(),
    ensures
        start <= skip_spaces(s, start) <= s.len(),
        skip_spaces(s, start) < s.len() ==> s[skip_spaces(s, start)] != ' ',
        forall|k: int| start <= k < skip_spaces(s, start) ==> s[k] == ' ',
    decreases s.len() - start,
{
    if start < s.len() && s[start] == ' ' {
        lemma_skip_spaces(s, start + 1);
    }
}

/// What rendering a message gives: the styled characters in the order in
/// which they are drawn (a line break is the character `'\n'`), their
/// extent, and the number of spans that were still open at the end.
#[derive(Debug)]
pub struct Printed {
    pub cells: Vec<StyledChar>,
    pub size: PrintSize,
    pub open_spans: usize,
}

/// The open spans of the executable renderer as sequences.
pub open spec fn stack_view(stack: Seq<Vec<VisualEffect>>) -> Seq<Seq<VisualEffect>> {
    Seq::new(stack.len(), |i: int| stack[i]@)
}

fn with_effect(style: Style, effect: VisualEffect) -> (changed: Style)
    ensures
        changed == apply_effect(style, effect),
{
    let mut changed = style;
    match effect {
        VisualEffect::SetAttribute(attribute) => match attribute {
            Attribute::Bold => {
                changed.bold = true;
            },
            Attribute::Italic => {
                changed.italic = true;
            },
            Attribute::Underlined => {
                changed.underlined = true;
            },
            Attribute::Dim => {
                changed.dim = true;
            },
        },
        VisualEffect::SetForegroundColor(color) => {
            changed.foreground = color;
        },
        VisualEffect::SetBackgroundColor(color) => {
            changed.background = color;
        },
    }
    changed
}

/// The style that a stack of open spans gives: every effect of every span
/// applied to the plain style, the oldest span first.
pub fn style_for(stack: &Vec<Vec<VisualEffect>>) -> (style: Style)
    ensures
        style == stack_style(stack_view(stack@)),
{
    let ghost spans = stack_view(stack@);
    let mut style = Style {
        bold: false,
        italic: false,
        underlined: false,
        dim: false,
        foreground: MarkupColor::Unset,
        background: MarkupColor::Unset,
    };
    let mut i: usize = 0;
    while i < stack.len()
        invariant
            i <= stack@.len(),
            spans == stack_view(stack@),
            style == style_upto(spans, i as int),
        decreases stack@.len() - i,
    {
        let ghost base = style;
        let effects = &stack[i];
        assert(spans[i as int] == effects@);
        let mut k: usize = 0;
        while k < effects.len()
            invariant
                k <= effects@.len(),
                style == apply_effects(base, effects@, k as int),
            decreases effects@.len() - k,
        {
            style = with_effect(style, effects[k]);
            k += 1;
        }
        i += 1;
    }
    style
}

fn skip_blank(v: &Vec<char>, start: usize) -> (found: usize)
    requires
        start <= v@.len(),
    ensures
        found == skip_spaces(v@, start as int),
        start <= found <= v@.len(),
{
    let mut i: usize = start;
    while i < v.len()
        invariant
            start <= i <= v@.len(),
            skip_spaces(v@, start as int) == skip_spaces(v@, i as int),
        decreases v@.len() - i,
    {
        if v[i] != ' ' {
            return i;
        }
        i += 1;
    }
    i
}

/// The executable renderer.
struct Renderer {
    cells: Vec<StyledChar>,
    stack: Vec<Vec<VisualEffect>>,
    style: Style,
    width: usize,
    cols: usize,
    breaks: usize,
}

impl View for Renderer {
    type V = RenderModel;

    closed spec fn view(&self) -> RenderModel {
        RenderModel {
            cells: self.cells@,
            stack: stack_view(self.stack@),
            width: self.width as int,
            cols: self.cols as int,
            breaks: self.breaks as int,
        }
    }
}

impl Renderer {
    closed spec fn wf(&self) -> bool {
        &&& self.style == self@.style()
        &&& self.breaks + self.width <= self.cells@.len()
        &&& self.cols <= self.cells@.len()
    }

    fn new() -> (r: Renderer)
        ensures
            r.wf(),
            r@ == RenderModel::start(),
    {
        let r = Renderer {
            cells: Vec::new(),
            stack: Vec::new(),
            style: Style {
                bold: false,
                italic: false,
                underlined: false,
                dim: false,
                foreground: MarkupColor::Unset,
                background: MarkupColor::Unset,
            },
            width: 0,
            cols: 0,
            breaks: 0,
        };
        assert(stack_view(r.stack@) =~= Seq::<Seq<VisualEffect>>::empty());
        r
    }

    fn put(&mut self, ch: char)
        requires
            old(self).wf(),
        ensures
            final(self).wf(),
            final(self)@ == old(self)@.put(ch),
    {
        self.cells.push(StyledChar { ch, style: self.style });
        let drawn = self.cells.len();
        assert(self.width < drawn);
        self.width += 1;
    }

    fn tab(&mut self)
        requires
            old(self).wf(),
        ensures
            final(self).wf(),
            final(self)@ == old(self)@.tab(),
    {
        self.put(' ');
        self.put(' ');
        self.put(' ');
        self.put(' ');
    }

    fn line_break(&mut self)
        requires
            old(self).wf(),
        ensures
            final(self).wf(),
            final(self)@ == old(self)@.line_break(),
    {
        self.cells.push(StyledChar { ch: '\n', style: self.style });
        let drawn = self.cells.len();
        assert(self.breaks < drawn);
        if self.width > self.cols {
            self.cols = self.width;
        }
        self.width = 0;
        self.breaks += 1;
    }

    fn open(&mut self, effects: Vec<VisualEffect>)
        requires
            old(self).wf(),
        ensures
            final(self).wf(),
            final(self)@ == old(self)@.open(effects@),
    {
        self.stack.push(effects);
        assert(stack_view(self.stack@) =~= stack_view(old(self).stack@).push(effects@));
        self.style = style_for(&self.stack);
    }

    fn close(&mut self)
        requires
            old(self).wf(),
        ensures
            final(self).wf(),
            final(self)@ == old(self)@.close(),
    {
        if self.stack.len() > 0 {
            self.stack.pop();
            assert(stack_view(self.stack@) =~= stack_view(old(self).stack@).drop_last());
            self.style = style_for(&self.stack);
        }
    }

    fn finish(self) -> (printed: Printed)
        requires
            self.wf(),
        ensures
            printed.cells@ == self@.cells,
            printed.size.cols == self@.total_cols(),
            printed.size.rows == self@.total_rows(),
            printed.open_spans == self@.stack.len(),
    {
        let cols = if self.width > self.cols {
            self.width
        } else {
            self.cols
        };
        let drawn = self.cells.len();
        assert(self.breaks + self.width <= drawn);
        let rows = if self.width > 0 {
            self.breaks + 1
        } else {
            self.breaks
        };
        let open_spans = self.stack.len();
        Printed { cells: self.cells, size: PrintSize { cols, rows }, open_spans }
    }
}

/// Renders a message given as characters.
pub fn print_chars(input: &Vec<char>) -> (printed: Printed)
    ensures
        printed.cells@ == rendered(input@).cells,
        printed.size.cols == rendered(input@).total_cols(),
        printed.size.rows == rendered(input@).total_rows(),
        printed.open_spans == rendered(input@).stack.len(),
{
    let n = input.len();
    let mut renderer = Renderer::new();
    let mut i: usize = 0;
    while i < n
        invariant
            n == input@.len(),
            i <= n,
            renderer.wf(),
            rendered(input@) == render_from(input@, i as int, renderer@),
        decreases n - i,
    {
        let c = input[i];
        let next: usize;
        if c == '$' {
            let end = find_char(input, ' ', i);
            let token = copy_chars(input, i, end);
            renderer.open(match_effect(&token));
            next = if n - end <= 2 {
                n
            } else {
                end + 2
            };
        } else if c == '`' {
            renderer.close();
            next = i + 1;
        } else if c == '\n' {
            renderer.line_break();
            next = skip_blank(input, i + 1);
            proof {
                lemma_skip_spaces(input@, i as int + 1);
            }
        } else if c == '&' {
            if i + 1 < n && input[i + 1] == '>' {
                renderer.tab();
            }
            next = if n - i <= 2 {
                n
            } else {
                i + 2
            };
        } else {
            renderer.put(c);
            next = i + 1;
        }
        i = next;
    }
    renderer.finish()
}

/// Renders a message: the styled characters to draw, the extent of what
/// they cover, and the number of spans left open.
///
/// An empty message gives no characters and an extent of zero by zero.
pub fn print(content: &str) -> (printed: Printed)
    ensures
        printed.cells@ == rendered(content@).cells,
        printed.size.cols == rendered(content@).total_cols(),
        printed.size.rows == rendered(content@).total_rows(),
        printed.open_spans == rendered(content@).stack.len(),
        content@.len() == 0 ==> printed.cells@.len() == 0 && printed.size == (PrintSize {
            cols: 0,
            rows: 0,
        }) && printed.open_spans == 0,
{
    let chars = to_chars(content);
    print_chars(&chars)
}

/// A run of characters drawn in one style.
#[derive(Debug)]
pub struct StyleSpan {
    pub text: Vec<char>,
    pub style: Style,
}

/// The characters of `text`, each in `style`.
pub open spec fn span_cells(text: Seq<char>, style: Style) -> Seq<StyledChar> {
    Seq::new(text.len(), |i: int| cell(text[i], style))
}

/// The styled characters of the first `n` spans, in order.
pub open spec fn spans_cells(spans: Seq<StyleSpan>, n: int) -> Seq<StyledChar>
    decreases n,
{
    if n <= 0 || n > spans.len() {
        Seq::empty()
    } else {
        spans_cells(spans, n - 1) + span_cells(spans[n - 1].text@, spans[n - 1].style)
    }
}

proof fn lemma_spans_cells_push(spans: Seq<StyleSpan>, span: StyleSpan, n: int)
    requires
        0 <= n <= spans.len(),
    ensures
        spans_cells(spans.push(span), n) == spans_cells(spans, n),
    decreases n,
{
    if n > 0 {
        lemma_spans_cells_push(spans, span, n - 1);
        assert(spans.push(span)[n - 1] == spans[n - 1]);
    }
}

proof fn lemma_extend_span(before: Seq<StyledChar>, text: Seq<char>, style: Style, ch: char)
    ensures
        before + span_cells(text.push(ch), style) == (before + span_cells(text, style)).push(
            cell(ch, style),
        ),
{
    assert(before + span_cells(text.push(ch), style) =~= (before + span_cells(text, style)).push(
        cell(ch, style),
    ));
}

proof fn lemma_start_span(before: Seq<StyledChar>, ch: char, style: Style)
    ensures
        before + span_cells(Seq::<char>::empty().push(ch), style) == before.push(cell(ch, style)),
{
    assert(before + span_cells(Seq::<char>::empty().push(ch), style) =~= before.push(
        cell(ch, style),
    ));
}

proof fn lemma_close_span(spans: Seq<StyleSpan>, span: StyleSpan)
    ensures
        spans_cells(spans.push(span), spans.len() as int + 1) == spans_cells(spans, spans.len() as int)
            + span_cells(span.text@, span.style),
{
    lemma_spans_cells_push(spans, span, spans.len() as int);
    assert(spans.push(span)[spans.len() as int] == span);
}

proof fn lemma_prefix_push(cells: Seq<StyledChar>, i: int)
    requires
        0 <= i < cells.len(),
    ensures
        cells.subrange(0, i + 1) == cells.subrange(0, i).push(cells[i]),
        cells.subrange(0, cells.len() as int) == cells,
{
    assert(cells.subrange(0, i + 1) =~= cells.subrange(0, i).push(cells[i]));
    assert(cells.subrange(0, cells.len() as int) =~= cells);
}

/// Groups styled characters into spans: the spans hold the characters in
/// order, none is empty, and neighbours differ in style, so that each span
/// is as long as it can be.
pub fn spans(cells: &Vec<StyledChar>) -> (spans: Vec<StyleSpan>)
    ensures
        spans_cells(spans@, spans@.len() as int) == cells@,
        forall|k: int| 0 <= k < spans@.len() ==> (#[trigger] spans@[k]).text@.len() > 0,
        forall|k: int, m: int|
            0 <= k && m == k + 1 && m < spans@.len() ==> (#[trigger] spans@[k]).style != (
            #[trigger] spans@[m]).style,
{
    let mut done: Vec<StyleSpan> = Vec::new();
    if cells.len() == 0 {
        assert(cells@ =~= Seq::<StyledChar>::empty());
        return done;
    }
    let mut text: Vec<char> = Vec::new();
    text.push(cells[0].ch);
    let mut style = cells[0].style;
    let mut i: usize = 1;
    proof {
        lemma_start_span(Seq::<StyledChar>::empty(), cells@[0].ch, style);
        lemma_prefix_push(cells@, 0);
        assert(cells@.subrange(0, 0) =~= Seq::<StyledChar>::empty());
        assert(text@ =~= Seq::<char>::empty().push(cells@[0].ch));
    }
    while i < cells.len()
        invariant
            1 <= i <= cells@.len(),
            text@.len() > 0,
            spans_cells(done@, done@.len() as int) + span_cells(text@, style) == cells@.subrange(
                0,
                i as int,
            ),
            forall|k: int| 0 <= k < done@.len() ==> (#[trigger] done@[k]).text@.len() > 0,
            forall|k: int, m: int|
                0 <= k && m == k + 1 && m < done@.len() ==> (#[trigger] done@[k]).style != (
                #[trigger] done@[m]).style,
            done@.len() > 0 ==> done@[done@.len() - 1].style != style,
        decreases cells@.len() - i,
    {
        let next = cells[i];
        let ghost before = spans_cells(done@, done@.len() as int);
        proof {
            lemma_prefix_push(cells@, i as int);
        }
        if next.style == style {
            proof {
                lemma_extend_span(before, text@, style, next.ch);
            }
            text.push(next.ch);
        } else {
            let full = StyleSpan { text, style };
            proof {
                lemma_close_span(done@, full);
                lemma_start_span(before + span_cells(full.text@, full.style), next.ch, next.style);
            }
            done.push(full);
            text = Vec::new();
            text.push(next.ch);
            style = next.style;
        }
        i += 1;
    }
    let last = StyleSpan { text, style };
    proof {
        lemma_close_span(done@, last);
        lemma_prefix_push(cells@, 0);
    }
    done.push(last);
    done
}

/// A character that the markup gives no meaning to.
pub open spec fn is_plain(c: char) -> bool {
    c != '$' && c != '`' && c != '\n' && c != '&'
}

/// The renderer after it drew the characters of `input` from `i` up to
/// `j`, all of them plain.
pub open spec fn after_plain(state: RenderModel, input: Seq<char>, i: int, j: int) -> RenderModel {
    RenderModel {
        cells: state.cells + Seq::new((j - i) as nat, |k: int| cell(input[i + k], state.style())),
        width: state.width + j - i,
        ..state
    }
}

proof fn lemma_plain_run(input: Seq<char>, i: int, j: int, state: RenderModel)
    requires
        0 <= i <= j <= input.len(),
        forall|k: int| i <= k < j ==> is_plain(input[k]),
    ensures
        render_from(input, i, state) == render_from(input, j, after_plain(state, input, i, j)),
    decreases j - i,
{
    if i == j {
        assert(after_plain(state, input, i, j).cells =~= state.cells);
    } else {
        let after = state.step(input, i);
        assert(after == state.put(input[i]));
        assert(after_plain(after, input, i + 1, j).cells =~= after_plain(state, input, i, j).cells);
        lemma_plain_run(input, i + 1, j, after);
    }
}

/// A message without markup is drawn as it stands: every character in the
/// plain style, on one line as wide as the message is long, and no span is
/// left open.
pub proof fn law_plain_text_renders_as_is(input: Seq<char>)
    requires
        forall|k: int| 0 <= k < input.len() ==> is_plain(input[k]),
    ensures
        rendered(input).cells == span_cells(input, plain_style()),
        rendered(input).stack.len() == 0,
        rendered(input).total_cols() == input.len(),
        rendered(input).total_rows() == if input.len() > 0 {
            1int
        } else {
            0int
        },
{
    let start = RenderModel::start();
    lemma_plain_run(input, 0, input.len() as int, start);
    assert(after_plain(start, input, 0, input.len() as int).cells =~= span_cells(
        input,
        plain_style(),
    ));
}

/// The style of bold text.
pub open spec fn bold_style() -> Style {
    Style { bold: true, ..plain_style() }
}

/// A bold span around plain text, `$b` and a space, a backtick, the text,
/// a backtick, is drawn as the text alone, all of it bold, and leaves no
/// span open.
pub proof fn law_bold_span(text: Seq<char>)
    requires
        forall|k: int| 0 <= k < text.len() ==> is_plain(text[k]),
    ensures
        rendered(seq!['$', 'b', ' ', '`'] + text + seq!['`']).cells == span_cells(
            text,
            bold_style(),
        ),
        rendered(seq!['$', 'b', ' ', '`'] + text + seq!['`']).stack.len() == 0,
        rendered(seq!['$', 'b', ' ', '`'] + text + seq!['`']).total_cols() == text.len(),
{
    let input = seq!['$', 'b', ' ', '`'] + text + seq!['`'];
    let n = text.len() as int;
    let start = RenderModel::start();
    assert(input.len() == n + 5);
    assert(input[0] == '$' && input[1] == 'b' && input[2] == ' ' && input[3] == '`');
    assert(input[n + 4] == '`');
    assert forall|k: int| 4 <= k < n + 4 implies is_plain(input[k]) by {
        assert(input[k] == text[k - 4]);
    }
    assert(index_of_from(input, ' ', 0) == 2) by {
        reveal_with_fuel(index_of_from, 4);
    }
    let token = input.subrange(0, 2);
    assert(token =~= seq!['$', 'b']);
    assert(index_of_from(token, '$', 2) == 2);
    assert(token.subrange(1, 2) =~= seq!['b']);
    assert(effect_of(seq!['b']) == Some(VisualEffect::SetAttribute(Attribute::Bold)));
    let bold = seq![VisualEffect::SetAttribute(Attribute::Bold)];
    assert(token_effects(token) =~= bold) by {
        reveal_with_fuel(effects_from, 2);
    }
    let opened = start.open(bold);
    assert(start.step(input, 0) == opened);
    assert(next_piece(input, 0) == 4);
    assert(render_from(input, 0, start) == render_from(input, 4, opened));
    assert(opened.stack =~= seq![bold]);
    assert(opened.style() == bold_style()) by {
        reveal_with_fuel(style_upto, 2);
        reveal_with_fuel(apply_effects, 2);
    }
    lemma_plain_run(input, 4, n + 4, opened);
    let drawn = after_plain(opened, input, 4, n + 4);
    assert(drawn.cells =~= span_cells(text, bold_style()));
    assert(drawn.step(input, n + 4) == drawn.close());
    assert(render_from(input, n + 4, drawn) == drawn.close());
    assert(drawn.close().stack =~= Seq::<Seq<VisualEffect>>::empty());
}

} // verus!
