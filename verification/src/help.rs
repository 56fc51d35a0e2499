//! The help-text formatter: an indenting, word-wrapping string builder. Every
//! operation is specified exactly by a transition function on [`FmtModel`],
//! so the rendered help output of the whole engine is pinned down character
//! by character.

use vstd::prelude::*;

verus! {

/// The mathematical state of a [`HelpFmt`]: the text built so far plus the
/// indentation bookkeeping.
pub ghost struct FmtModel {
    pub indent: nat,
    pub small_indent: nat,
    pub unit: Seq<char>,
    pub line_len: nat,
    pub max_len: nat,
    pub empty_line: bool,
    pub out: Seq<char>,
}

/// Addition on line lengths, saturating at the machine bound as the
/// executable counter does.
pub open spec fn sat_add(a: nat, b: nat) -> nat {
    if a + b <= usize::MAX as nat {
        a + b
    } else {
        usize::MAX as nat
    }
}

/// `n` copies of the indent unit appended one by one.
pub open spec fn spec_indent_units(m: FmtModel, n: nat) -> FmtModel
    decreases n,
{
    if n == 0 {
        m
    } else {
        let p = spec_indent_units(m, (n - 1) as nat);
        FmtModel { out: p.out + p.unit, line_len: sat_add(p.line_len, p.unit.len()), ..p }
    }
}

/// `n` single spaces appended one by one.
pub open spec fn spec_small_spaces(m: FmtModel, n: nat) -> FmtModel
    decreases n,
{
    if n == 0 {
        m
    } else {
        let p = spec_small_spaces(m, (n - 1) as nat);
        FmtModel { out: p.out + " "@, line_len: sat_add(p.line_len, " "@.len()), ..p }
    }
}

/// Starting a line: the indent hooks, then the small-indent spaces.
pub open spec fn spec_print_indent(m: FmtModel) -> FmtModel {
    let base = FmtModel { empty_line: false, ..m };
    spec_small_spaces(spec_indent_units(base, m.indent), m.small_indent)
}

/// Ends the current line, if anything stands on it.
pub open spec fn spec_line_break(m: FmtModel) -> FmtModel {
    if !m.empty_line {
        FmtModel { out: m.out + "\n"@, empty_line: true, line_len: 0, ..m }
    } else {
        m
    }
}

pub open spec fn spec_indent(m: FmtModel) -> FmtModel {
    let bumped = if m.indent < u32::MAX as nat {
        m.indent + 1
    } else {
        m.indent
    };
    spec_line_break(FmtModel { indent: bumped as nat, small_indent: 0, ..m })
}

pub open spec fn spec_deindent(m: FmtModel) -> FmtModel {
    let m1 = if m.indent != 0 {
        FmtModel { indent: (m.indent - 1) as nat, small_indent: 0, ..m }
    } else {
        m
    };
    spec_line_break(m1)
}

pub open spec fn spec_small_indent(m: FmtModel) -> FmtModel {
    let bumped = if m.small_indent < u32::MAX as nat {
        m.small_indent + 1
    } else {
        m.small_indent
    };
    spec_line_break(FmtModel { small_indent: bumped as nat, ..m })
}

pub open spec fn spec_small_deindent(m: FmtModel) -> FmtModel {
    let m1 = if m.small_indent != 0 {
        FmtModel { small_indent: (m.small_indent - 1) as nat, ..m }
    } else {
        m
    };
    spec_line_break(m1)
}

/// Raw text: starts the line with its indent prefix when the line is empty,
/// then appends the text. The line-length counter advances by the indent
/// unit's width — a coarse account, but the one the wrapping bound is
/// calibrated against.
pub open spec fn spec_push_raw_str(m: FmtModel, s: Seq<char>) -> FmtModel {
    let m1 = if m.empty_line {
        spec_print_indent(m)
    } else {
        m
    };
    FmtModel { out: m1.out + s, line_len: sat_add(m1.line_len, m1.unit.len()), ..m1 }
}

/// One word: separated by a space from the line so far, or placed on a fresh
/// line when it would run past the length bound.
pub open spec fn spec_push_word(m: FmtModel, w: Seq<char>) -> FmtModel {
    let m1 = if !m.empty_line {
        if m.line_len + w.len() > m.max_len {
            spec_line_break(m)
        } else {
            spec_push_raw_str(m, " "@)
        }
    } else {
        m
    };
    spec_push_raw_str(m1, w)
}

/// ASCII whitespace, as the paragraph splitter understands it.
pub open spec fn is_space(c: char) -> bool {
    c == ' ' || c == '\t' || c == '\n' || c == '\r' || c as u32 == 11 || c as u32 == 12
}

/// A word either follows the line so far or, when a newline stood between,
/// starts a fresh line.
pub open spec fn spec_emit_word(m: FmtModel, w: Seq<char>, brk: bool) -> FmtModel {
    if brk {
        spec_push_word(spec_line_break(m), w)
    } else {
        spec_push_word(m, w)
    }
}

/// The paragraph walk from position `i`: `ws` marks where the current word
/// run began (`ws == i` when no run is open) and `brk` whether a newline has
/// been seen since the last emitted word.
pub open spec fn spec_para_at(m: FmtModel, s: Seq<char>, i: int, ws: int, brk: bool) -> FmtModel
    recommends
        0 <= ws <= i <= s.len(),
    decreases s.len() - i,
{
    if i < 0 || s.len() <= i {
        if ws < i {
            spec_emit_word(m, s.subrange(ws, i), brk)
        } else {
            m
        }
    } else if is_space(s[i]) {
        if ws < i {
            spec_para_at(spec_emit_word(m, s.subrange(ws, i), brk), s, i + 1, i + 1, s[i] == '\n')
        } else {
            spec_para_at(m, s, i + 1, i + 1, brk || s[i] == '\n')
        }
    } else {
        spec_para_at(m, s, i + 1, ws, brk)
    }
}

/// Free text: split into whitespace-separated words; a newline among the
/// whitespace becomes a line break before the following word; leading and
/// trailing whitespace is dropped.
pub open spec fn spec_push_paragraph(m: FmtModel, s: Seq<char>) -> FmtModel {
    spec_para_at(m, s, 0, 0, false)
}

/// The state a fresh formatter starts in.
pub open spec fn spec_fmt_new() -> FmtModel {
    FmtModel {
        indent: 0,
        small_indent: 0,
        unit: " | "@,
        line_len: 0,
        max_len: 100,
        empty_line: true,
        out: Seq::empty(),
    }
}

fn sat_add_usize(a: usize, b: usize) -> (r: usize)
    ensures
        r as nat == sat_add(a as nat, b as nat),
{
    if a <= usize::MAX - b {
        a + b
    } else {
        usize::MAX
    }
}

fn is_space_c(c: char) -> (r: bool)
    ensures
        r == is_space(c),
{
    c == ' ' || c == '\t' || c == '\n' || c == '\r' || c as u32 == 11 || c as u32 == 12
}

/// An indenting, word-wrapping text builder for help output.
pub struct HelpFmt {
    indent: u32,
    small_indent: u32,
    indent_str: &'static str,
    current_line_length: usize,
    max_length: usize,
    empty_line: bool,
    output: String,
}

impl View for HelpFmt {
    type V = FmtModel;

    closed spec fn view(&self) -> FmtModel {
        FmtModel {
            indent: self.indent as nat,
            small_indent: self.small_indent as nat,
            unit: self.indent_str@,
            line_len: self.current_line_length as nat,
            max_len: self.max_length as nat,
            empty_line: self.empty_line,
            out: self.output@,
        }
    }
}

impl Default for HelpFmt {
    /// A fresh formatter: ` | ` as the indent hook, lines wrapped at 100.
    fn default() -> (r: Self)
        ensures
            r@ == spec_fmt_new(),
    {
        let r = HelpFmt {
            indent: 0,
            small_indent: 0,
            indent_str: " | ",
            current_line_length: 0,
            max_length: 100,
            empty_line: true,
            output: String::new(),
        };
        r
    }
}

impl HelpFmt {
    /// Gives up the formatter for the text built so far.
    pub fn into_output(self) -> (r: String)
        ensures
            r@ == self@.out,
    {
        self.output
    }

    fn print_indent(&mut self)
        ensures
            final(self)@ == spec_print_indent(old(self)@),
    {
        self.empty_line = false;
        let ghost base = self@;
        let unit_len = self.indent_str.unicode_len();
        let total = self.indent;
        let mut i: u32 = 0;
        while i < total
            invariant
                i <= total,
                self.indent_str@ == base.unit,
                unit_len == base.unit.len(),
                self@ == spec_indent_units(base, i as nat),
                self.indent == total,
                total == base.indent,
                self.small_indent == base.small_indent,
            decreases total - i,
        {
            self.output.append(self.indent_str);
            self.current_line_length = sat_add_usize(self.current_line_length, unit_len);
            i = i + 1;
            assert(self@ == spec_indent_units(base, i as nat));
        }
        let ghost mid = self@;
        let smalls = self.small_indent;
        let mut j: u32 = 0;
        while j < smalls
            invariant
                j <= smalls,
                self@ == spec_small_spaces(mid, j as nat),
                self.small_indent == smalls,
                smalls == base.small_indent,
                mid == spec_indent_units(base, base.indent),
            decreases smalls - j,
        {
            self.output.append(" ");
            self.current_line_length = sat_add_usize(self.current_line_length, 1);
            j = j + 1;
            proof {
                reveal_strlit(" ");
                assert(" "@.len() == 1);
                assert(self@ == spec_small_spaces(mid, j as nat));
            }
        }
    }

    /// One nesting level deeper: later lines carry one more indent hook.
    pub fn indent(&mut self)
        ensures
            final(self)@ == spec_indent(old(self)@),
    {
        if self.indent < u32::MAX {
            self.indent = self.indent + 1;
        }
        self.small_indent = 0;
        self.line_break();
    }

    /// Back one nesting level, never below the margin.
    pub fn deindent(&mut self)
        ensures
            final(self)@ == spec_deindent(old(self)@),
    {
        if self.indent != 0 {
            self.indent = self.indent - 1;
            self.small_indent = 0;
        }
        self.line_break();
    }

    /// One extra space of indentation for description text.
    pub fn small_indent(&mut self)
        ensures
            final(self)@ == spec_small_indent(old(self)@),
    {
        if self.small_indent < u32::MAX {
            self.small_indent = self.small_indent + 1;
        }
        self.line_break();
    }

    /// Takes back one space of small indentation.
    pub fn small_deindent(&mut self)
        ensures
            final(self)@ == spec_small_deindent(old(self)@),
    {
        if self.small_indent != 0 {
            self.small_indent = self.small_indent - 1;
        }
        self.line_break();
    }

    /// Appends text as-is, starting the line with its indent prefix first
    /// when the line is empty.
    pub fn push_raw_str(&mut self, string: &str)
        ensures
            final(self)@ == spec_push_raw_str(old(self)@, string@),
    {
        if self.empty_line {
            self.print_indent();
        }
        self.output.append(string);
        let unit_len = self.indent_str.unicode_len();
        self.current_line_length = sat_add_usize(self.current_line_length, unit_len);
    }

    /// Appends one word, space-separated from the line so far, wrapping to a
    /// fresh line when the word would run past the length bound.
    pub fn push_word(&mut self, word: &str)
        ensures
            final(self)@ == spec_push_word(old(self)@, word@),
    {
        if !self.empty_line {
            let wl = word.unicode_len();
            if self.current_line_length > self.max_length || wl > self.max_length
                - self.current_line_length {
                self.line_break();
            } else {
                self.push_raw_str(" ");
            }
        }
        self.push_raw_str(word);
    }

    /// Appends free text word by word: whitespace separates words, and a
    /// newline forces a line break before the word that follows it.
    pub fn push_paragraph(&mut self, string: &str)
        ensures
            final(self)@ == spec_push_paragraph(old(self)@, string@),
    {
        let ghost m0 = self@;
        let len = string.unicode_len();
        let mut i: usize = 0;
        let mut ws: usize = 0;
        let mut brk: bool = false;
        while i < len
            invariant
                0 <= ws <= i <= len,
                len == string@.len(),
                spec_para_at(m0, string@, 0, 0, false) == spec_para_at(
                    self@,
                    string@,
                    i as int,
                    ws as int,
                    brk,
                ),
            decreases len - i,
        {
            let c = string.get_char(i);
            if is_space_c(c) {
                if ws < i {
                    let w = string.substring_char(ws, i);
                    if brk {
                        self.line_break();
                    }
                    self.push_word(w);
                    brk = c == '\n';
                } else {
                    brk = brk || c == '\n';
                }
                ws = i + 1;
            }
            i = i + 1;
        }
        if ws < i {
            let w = string.substring_char(ws, i);
            if brk {
                self.line_break();
            }
            self.push_word(w);
        }
    }

    /// Ends the current line, if anything stands on it.
    pub fn line_break(&mut self)
        ensures
            final(self)@ == spec_line_break(old(self)@),
    {
        if !self.empty_line {
            self.output.append("\n");
            self.empty_line = true;
            self.current_line_length = 0;
        }
    }
}

} // verus!
