//! Rendering the counts of a stream as one line of text.

use crate::counter::Tally;
use vstd::prelude::*;
use vstd::string::{StrSliceExecFns, StringExecFns};

verus! {

/// The width of a column when none is asked for.
pub const FIELD_WIDTH: usize = 8;

/// Which counts a line shows, and how wide their columns are.
#[derive(Clone, Copy, Debug, PartialEq, Eq)]
pub struct Layout {
    pub lines: bool,
    pub words: bool,
    pub bytes: bool,
    pub chars: bool,
    pub width: usize,
}

impl Layout {
    /// The layout for a choice of counts. Where none is chosen, lines, words
    /// and bytes are shown.
    pub open spec fn chosen(lines: bool, words: bool, bytes: bool, chars: bool) -> Layout {
        if lines || words || bytes || chars {
            Layout { lines, words, bytes, chars, width: FIELD_WIDTH }
        } else {
            Layout { lines: true, words: true, bytes: true, chars: false, width: FIELD_WIDTH }
        }
    }

    /// Makes the layout for a choice of counts, in columns of
    /// [`FIELD_WIDTH`].
    pub fn new(lines: bool, words: bool, bytes: bool, chars: bool) -> (layout: Layout)
        ensures
            layout == Layout::chosen(lines, words, bytes, chars),
    {
        if lines || words || bytes || chars {
            Layout { lines, words, bytes, chars, width: FIELD_WIDTH }
        } else {
            Layout { lines: true, words: true, bytes: true, chars: false, width: FIELD_WIDTH }
        }
    }
}

/// The character of a decimal digit.
pub open spec fn digit(value: nat) -> char
    recommends
        value < 10,
{
    seq!['0', '1', '2', '3', '4', '5', '6', '7', '8', '9'][value as int]
}

/// The decimal numeral of `value`, without leading zeros.
pub open spec fn decimal(value: nat) -> Seq<char>
    decreases value,
{
    if value < 10 {
        seq![digit(value)]
    } else {
        decimal(value / 10).push(digit(value % 10))
    }
}

/// `count` spaces.
pub open spec fn padding(count: int) -> Seq<char> {
    Seq::new(
        if count > 0 {
            count as nat
        } else {
            0
        },
        |i: int| ' ',
    )
}

/// One column: the numeral of `value`, moved to the right edge of `width`
/// characters by spaces in front. A numeral wider than the column is not cut.
pub open spec fn field(value: nat, width: nat) -> Seq<char> {
    padding(width - decimal(value).len()) + decimal(value)
}

/// A column if it is shown, nothing if it is not.
pub open spec fn shown_field(shown: bool, value: nat, width: nat) -> Seq<char> {
    if shown {
        field(value, width)
    } else {
        Seq::empty()
    }
}

/// The line for one stream: the columns for lines, words, bytes and
/// characters, as far as they are shown, then a space and the label where
/// there is one.
pub open spec fn row_text(tally: Tally, layout: Layout, label: Option<Seq<char>>) -> Seq<char> {
    shown_field(layout.lines, tally.lines as nat, layout.width as nat) + shown_field(
        layout.words,
        tally.words as nat,
        layout.width as nat,
    ) + shown_field(layout.bytes, tally.bytes as nat, layout.width as nat) + shown_field(
        layout.chars,
        tally.chars as nat,
        layout.width as nat,
    ) + match label {
        Some(name) => seq![' '] + name,
        None => Seq::empty(),
    }
}

/// The line for the sums over several streams: the columns for lines, words
/// and bytes, as far as they are shown, and the word `total`. It has no
/// column for characters.
pub open spec fn total_text(total: Tally, layout: Layout) -> Seq<char> {
    shown_field(layout.lines, total.lines as nat, layout.width as nat) + shown_field(
        layout.words,
        total.words as nat,
        layout.width as nat,
    ) + shown_field(layout.bytes, total.bytes as nat, layout.width as nat) + seq![
        ' ',
        't',
        'o',
        't',
        'a',
        'l',
    ]
}

/// A column is as wide as asked for, or as wide as its numeral where that is
/// wider, and the numeral stands at its right edge.
pub proof fn law_field_is_right_aligned(value: nat, width: nat)
    ensures
        field(value, width).len() == if decimal(value).len() <= width {
            width
        } else {
            decimal(value).len()
        },
        field(value, width).skip(field(value, width).len() - decimal(value).len()) == decimal(
            value,
        ),
        forall|i: int|
            0 <= i < field(value, width).len() - decimal(value).len() ==> field(value, width)[i]
                == ' ',
{
    let numeral = decimal(value);
    let pad = padding(width - numeral.len());
    assert((pad + numeral).skip(pad.len() as int) =~= numeral);
}

fn digit_text(value: u8) -> (text: &'static str)
    requires
        value < 10,
    ensures
        text@ == seq![digit(value as nat)],
{
    proof {
        reveal_strlit("0");
        reveal_strlit("1");
        reveal_strlit("2");
        reveal_strlit("3");
        reveal_strlit("4");
        reveal_strlit("5");
        reveal_strlit("6");
        reveal_strlit("7");
        reveal_strlit("8");
        reveal_strlit("9");
    }
    let text = match value {
        0 => "0",
        1 => "1",
        2 => "2",
        3 => "3",
        4 => "4",
        5 => "5",
        6 => "6",
        7 => "7",
        8 => "8",
        _ => "9",
    };
    assert(text@ =~= seq![digit(value as nat)]);
    text
}

/// Appends the decimal numeral of `value` to `out`.
fn push_decimal(out: &mut String, value: u128)
    ensures
        final(out)@ == old(out)@ + decimal(value as nat),
    decreases value,
{
    if value >= 10 {
        push_decimal(out, value / 10);
    }
    out.append(digit_text((value % 10) as u8));
    proof {
        let high = decimal((value / 10) as nat);
        let low = seq![digit((value % 10) as nat)];
        if value >= 10 {
            assert(old(out)@ + high + low =~= old(out)@ + high.push(low[0]));
        }
    }
}

/// Appends `count` spaces to `out`.
fn push_padding(out: &mut String, count: usize)
    ensures
        final(out)@ == old(out)@ + padding(count as int),
{
    let mut done: usize = 0;
    proof {
        assert(out@ + padding(0) =~= out@);
    }
    while done < count
        invariant
            done <= count,
            out@ == old(out)@ + padding(done as int),
        decreases count - done,
    {
        proof {
            reveal_strlit(" ");
            assert(old(out)@ + padding(done as int) + " "@ =~= old(out)@ + padding(done + 1));
        }
        out.append(" ");
        done += 1;
    }
}

/// Appends one column to `out`, if it is shown.
fn push_field(out: &mut String, shown: bool, value: u128, width: usize)
    ensures
        final(out)@ == old(out)@ + shown_field(shown, value as nat, width as nat),
{
    if shown {
        let mut numeral = String::new();
        push_decimal(&mut numeral, value);
        let len = numeral.as_str().unicode_len();
        proof {
            assert(numeral@ =~= decimal(value as nat));
        }
        if len < width {
            push_padding(out, width - len);
        } else {
            proof {
                assert(out@ + padding(width - len) =~= out@);
            }
        }
        out.append(numeral.as_str());
        proof {
            let pad = padding(width - len);
            assert(old(out)@ + pad + numeral@ =~= old(out)@ + (pad + numeral@));
        }
    } else {
        proof {
            assert(out@ + Seq::<char>::empty() =~= out@);
        }
    }
}

/// Renders the line for one stream. The label, where there is one, names the
/// source of the stream after the counts.
pub fn render_row(tally: &Tally, layout: &Layout, label: Option<&str>) -> (row: String)
    ensures
        row@ == row_text(
            *tally,
            *layout,
            match label {
                Some(name) => Some(name@),
                None => None,
            },
        ),
{
    let mut row = String::new();
    push_field(&mut row, layout.lines, tally.lines, layout.width);
    push_field(&mut row, layout.words, tally.words, layout.width);
    push_field(&mut row, layout.bytes, tally.bytes, layout.width);
    push_field(&mut row, layout.chars, tally.chars, layout.width);
    let ghost fields = row@;
    match label {
        Some(name) => {
            proof {
                reveal_strlit(" ");
            }
            row.append(" ");
            row.append(name);
            proof {
                assert(" "@ =~= seq![' ']);
                assert(fields + " "@ + name@ =~= fields + (seq![' '] + name@));
            }
        },
        None => {
            proof {
                assert(fields + Seq::<char>::empty() =~= fields);
            }
        },
    }
    proof {
        assert(fields =~= Seq::<char>::empty() + shown_field(
            layout.lines,
            tally.lines as nat,
            layout.width as nat,
        ) + shown_field(layout.words, tally.words as nat, layout.width as nat) + shown_field(
            layout.bytes,
            tally.bytes as nat,
            layout.width as nat,
        ) + shown_field(layout.chars, tally.chars as nat, layout.width as nat));
    }
    row
}

/// Renders the line of sums. There is one only where more than one stream
/// was asked for.
pub fn render_total(total: &Tally, layout: &Layout, streams: usize) -> (row: Option<String>)
    ensures
        streams <= 1 ==> row is None,
        streams > 1 ==> (row matches Some(text) && text@ == total_text(*total, *layout)),
{
    if streams <= 1 {
        return None;
    }
    let mut row = String::new();
    push_field(&mut row, layout.lines, total.lines, layout.width);
    push_field(&mut row, layout.words, total.words, layout.width);
    push_field(&mut row, layout.bytes, total.bytes, layout.width);
    proof {
        reveal_strlit(" total");
    }
    row.append(" total");
    proof {
        assert(" total"@ =~= seq![' ', 't', 'o', 't', 'a', 'l']);
        assert(row@ =~= total_text(*total, *layout));
    }
    Some(row)
}

} // verus!
