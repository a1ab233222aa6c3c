//! The layout of the fixed-width summary table.
//!
//! The table pairs the sample and parameter counts, and each sum of squares
//! with its coefficient of determination. The caller formats the six
//! statistics (four decimal places); this module pads, rules and joins.

use vstd::prelude::*;
use vstd::string::*;

verus! {

/// The width of every line of the table, in characters.
pub const TABLE_WIDTH: usize = 84;

/// The width of the title between the two bars of the first line.
pub const TITLE_WIDTH: usize = 82;

/// The width of a label or of a value.
pub const CELL_WIDTH: usize = 20;

/// `count` times the character `mark`.
pub open spec fn run(mark: char, count: nat) -> Seq<char> {
    Seq::new(count, |i: int| mark)
}

/// The number of blanks that fill `len` characters up to `width`; none if
/// they are as many or more.
pub open spec fn padding(len: nat, width: nat) -> nat {
    if len < width {
        (width - len) as nat
    } else {
        0
    }
}

/// `text` followed by blanks up to `width`. A longer text is kept whole.
pub open spec fn align_left(text: Seq<char>, width: nat) -> Seq<char> {
    text + run(' ', padding(text.len(), width))
}

/// `text` preceded by blanks up to `width`. A longer text is kept whole.
pub open spec fn align_right(text: Seq<char>, width: nat) -> Seq<char> {
    run(' ', padding(text.len(), width)) + text
}

/// `text` between blanks up to `width`; where the blanks cannot be split
/// evenly, the odd one goes behind the text. A longer text is kept whole.
pub open spec fn align_center(text: Seq<char>, width: nat) -> Seq<char> {
    let blanks = padding(text.len(), width);
    run(' ', blanks / 2) + text + run(' ', (blanks - blanks / 2) as nat)
}

/// The character of the decimal digit `d`.
pub open spec fn digit(d: nat) -> char {
    if d == 0 {
        '0'
    } else if d == 1 {
        '1'
    } else if d == 2 {
        '2'
    } else if d == 3 {
        '3'
    } else if d == 4 {
        '4'
    } else if d == 5 {
        '5'
    } else if d == 6 {
        '6'
    } else if d == 7 {
        '7'
    } else if d == 8 {
        '8'
    } else {
        '9'
    }
}

/// `n` in decimal digits, without leading zeros.
pub open spec fn decimal(n: nat) -> Seq<char>
    decreases n,
{
    if n < 10 {
        seq![digit(n)]
    } else {
        decimal(n / 10).push(digit(n % 10))
    }
}

/// One row of the table: a label and its value, twice, between bars.
pub open spec fn row(
    left_label: Seq<char>,
    left_value: Seq<char>,
    right_label: Seq<char>,
    right_value: Seq<char>,
) -> Seq<char> {
    seq!['|'] + align_left(left_label, CELL_WIDTH as nat) + align_right(
        left_value,
        CELL_WIDTH as nat,
    ) + seq!['|', '|'] + align_left(right_label, CELL_WIDTH as nat) + align_right(
        right_value,
        CELL_WIDTH as nat,
    ) + seq!['|']
}

/// The first line: the centred title between bars.
pub open spec fn title_line() -> Seq<char> {
    seq!['|'] + align_center("RegRS SUMMARY"@, TITLE_WIDTH as nat) + seq!['|']
}

/// The whole table: the title, a double rule, the counts, a single rule, the
/// three rows of statistics and a double rule, one line each, with no line
/// break after the last.
pub open spec fn summary_text(
    samples: nat,
    params: nat,
    tss: Seq<char>,
    r2: Seq<char>,
    rss: Seq<char>,
    r2_adjusted: Seq<char>,
    press: Seq<char>,
    r2_predicted: Seq<char>,
) -> Seq<char> {
    title_line() + seq!['\n'] + run('=', TABLE_WIDTH as nat) + seq!['\n'] + row(
        "Sample Size"@,
        decimal(samples),
        "Parameter Size"@,
        decimal(params),
    ) + seq!['\n'] + run('-', TABLE_WIDTH as nat) + seq!['\n'] + row("TSS"@, tss, "R\u{b2}"@, r2)
        + seq!['\n'] + row("RSS"@, rss, "R\u{b2} (adjusted)"@, r2_adjusted) + seq!['\n'] + row(
        "PRESS"@,
        press,
        "R\u{b2} (predicted)"@,
        r2_predicted,
    ) + seq!['\n'] + run('=', TABLE_WIDTH as nat)
}

/// A row whose labels and values fit their cells is exactly as wide as the
/// table.
pub proof fn lemma_row_width(
    left_label: Seq<char>,
    left_value: Seq<char>,
    right_label: Seq<char>,
    right_value: Seq<char>,
)
    requires
        left_label.len() <= CELL_WIDTH,
        left_value.len() <= CELL_WIDTH,
        right_label.len() <= CELL_WIDTH,
        right_value.len() <= CELL_WIDTH,
    ensures
        row(left_label, left_value, right_label, right_value).len() == TABLE_WIDTH,
{
}

/// Appends `count` times the one character of `mark`.
fn push_run(out: &mut String, mark: &str, count: usize)
    requires
        mark@.len() == 1,
    ensures
        final(out)@ == old(out)@ + run(mark@[0], count as nat),
{
    let mut i: usize = 0;
    assert(out@ =~= old(out)@ + run(mark@[0], 0));
    while i < count
        invariant
            i <= count,
            mark@.len() == 1,
            out@ == old(out)@ + run(mark@[0], i as nat),
        decreases count - i,
    {
        out.append(mark);
        i += 1;
        assert(out@ =~= old(out)@ + run(mark@[0], i as nat));
    }
}

/// The number of blanks that fill `text` up to `width`.
fn blanks_for(text: &str, width: usize) -> (blanks: usize)
    ensures
        blanks == padding(text@.len(), width as nat),
{
    let len: usize = text.unicode_len();
    if len < width {
        width - len
    } else {
        0
    }
}

/// Appends `text`, then blanks up to `width`.
fn push_left(out: &mut String, text: &str, width: usize)
    ensures
        final(out)@ == old(out)@ + align_left(text@, width as nat),
{
    let blanks: usize = blanks_for(text, width);
    out.append(text);
    proof {
        reveal_strlit(" ");
    }
    push_run(out, " ", blanks);
    assert(out@ =~= old(out)@ + align_left(text@, width as nat));
}

/// Appends blanks up to `width`, then `text`.
fn push_right(out: &mut String, text: &str, width: usize)
    ensures
        final(out)@ == old(out)@ + align_right(text@, width as nat),
{
    let blanks: usize = blanks_for(text, width);
    proof {
        reveal_strlit(" ");
    }
    push_run(out, " ", blanks);
    out.append(text);
    assert(out@ =~= old(out)@ + align_right(text@, width as nat));
}

/// Appends `text` between blanks up to `width`.
fn push_center(out: &mut String, text: &str, width: usize)
    ensures
        final(out)@ == old(out)@ + align_center(text@, width as nat),
{
    let blanks: usize = blanks_for(text, width);
    let before: usize = blanks / 2;
    proof {
        reveal_strlit(" ");
    }
    push_run(out, " ", before);
    out.append(text);
    push_run(out, " ", blanks - before);
    assert(out@ =~= old(out)@ + align_center(text@, width as nat));
}

/// The text of one decimal digit.
fn digit_text(d: usize) -> (text: &'static str)
    requires
        d < 10,
    ensures
        text@ == seq![digit(d as nat)],
{
    proof {
        reveal_strlit("0");
        reveal_strlit("1");
        reveal_strlit("2");
        reveal_strlit("3");
        reveal_strlit("4");
        reveal_strlit("5");
        reveal_strlit("6");
        reveal_strlit("7");
        reveal_strlit("8");
        reveal_strlit("9");
    }
    let text = if d == 0 {
        "0"
    } else if d == 1 {
        "1"
    } else if d == 2 {
        "2"
    } else if d == 3 {
        "3"
    } else if d == 4 {
        "4"
    } else if d == 5 {
        "5"
    } else if d == 6 {
        "6"
    } else if d == 7 {
        "7"
    } else if d == 8 {
        "8"
    } else {
        "9"
    };
    assert(text@ =~= seq![digit(d as nat)]);
    text
}

/// `n` in decimal digits.
pub fn decimal_text(n: usize) -> (text: String)
    ensures
        text@ == decimal(n as nat),
    decreases n,
{
    if n < 10 {
        let mut text = String::new();
        text.append(digit_text(n));
        assert(text@ =~= decimal(n as nat));
        text
    } else {
        let mut text = decimal_text(n / 10);
        text.append(digit_text(n % 10));
        assert(text@ =~= decimal(n as nat));
        text
    }
}

/// Appends one row of the table.
fn push_row(
    out: &mut String,
    left_label: &str,
    left_value: &str,
    right_label: &str,
    right_value: &str,
)
    ensures
        final(out)@ == old(out)@ + row(left_label@, left_value@, right_label@, right_value@),
{
    proof {
        reveal_strlit("|");
        reveal_strlit("||");
    }
    out.append("|");
    push_left(out, left_label, CELL_WIDTH);
    push_right(out, left_value, CELL_WIDTH);
    out.append("||");
    push_left(out, right_label, CELL_WIDTH);
    push_right(out, right_value, CELL_WIDTH);
    out.append("|");
    assert(out@ =~= old(out)@ + row(left_label@, left_value@, right_label@, right_value@));
}

/// Appends a line break.
fn push_break(out: &mut String)
    ensures
        final(out)@ == old(out)@ + seq!['\n'],
{
    proof {
        reveal_strlit("\n");
    }
    out.append("\n");
    assert(out@ =~= old(out)@ + seq!['\n']);
}

/// Lays out the summary table for a model of `samples` observations and
/// `params` parameters. The six statistics come as text, formatted by the
/// caller.
pub fn render(
    samples: usize,
    params: usize,
    tss: &str,
    r2: &str,
    rss: &str,
    r2_adjusted: &str,
    press: &str,
    r2_predicted: &str,
) -> (text: String)
    ensures
        text@ == summary_text(
            samples as nat,
            params as nat,
            tss@,
            r2@,
            rss@,
            r2_adjusted@,
            press@,
            r2_predicted@,
        ),
{
    proof {
        reveal_strlit("|");
        reveal_strlit("=");
        reveal_strlit("-");
    }
    let samples_text = decimal_text(samples);
    let params_text = decimal_text(params);
    let mut out = String::new();
    out.append("|");
    push_center(&mut out, "RegRS SUMMARY", TITLE_WIDTH);
    out.append("|");
    assert(out@ =~= title_line());
    push_break(&mut out);
    push_run(&mut out, "=", TABLE_WIDTH);
    push_break(&mut out);
    push_row(
        &mut out,
        "Sample Size",
        samples_text.as_str(),
        "Parameter Size",
        params_text.as_str(),
    );
    push_break(&mut out);
    push_run(&mut out, "-", TABLE_WIDTH);
    push_break(&mut out);
    push_row(&mut out, "TSS", tss, "R\u{b2}", r2);
    push_break(&mut out);
    push_row(&mut out, "RSS", rss, "R\u{b2} (adjusted)", r2_adjusted);
    push_break(&mut out);
    push_row(&mut out, "PRESS", press, "R\u{b2} (predicted)", r2_predicted);
    push_break(&mut out);
    push_run(&mut out, "=", TABLE_WIDTH);
    out
}

} // verus!
