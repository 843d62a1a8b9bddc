//! The help table of the command-line flags.
use crate::text::{owned, push_char};
use vstd::prelude::*;
use vstd::string::*;

verus! {

/// The flags, with their usage and description, in the order the table
/// lists them.
pub open spec fn help_options() -> Seq<(Seq<char>, Seq<char>, Seq<char>)> {
    seq![
        ("-h"@, "-h"@, "Print the help message"@),
        ("-a"@, "-a <package name>"@, "Add a package to the config / package database"@),
        ("-u"@, "-u"@, "Update the installer to the newest version"@),
        ("-p"@, "-p <package manager>"@, "Specifies the package manager to be used"@),
        (
            "-i"@,
            "-i or -i <package>"@,
            "Install packages listed in the config files; passing a value installs that package only"@,
        ),
        ("-c"@, "-c \"echo 'me' >> ~/.bashrc\""@, "Run a command after the specified operation"@),
    ]
}

/// The headings of the three columns.
pub open spec fn help_heading() -> (Seq<char>, Seq<char>, Seq<char>) {
    ("Flag"@, "Usage"@, "Description"@)
}

/// The greater of two lengths.
pub open spec fn max_nat(a: nat, b: nat) -> nat {
    if a >= b {
        a
    } else {
        b
    }
}

/// The width of column `col` (0, 1 or 2) of `rows`: its longest entry, and
/// at least `min`.
pub open spec fn column_width(
    rows: Seq<(Seq<char>, Seq<char>, Seq<char>)>,
    col: int,
    min: nat,
) -> nat
    decreases rows.len(),
{
    if rows.len() == 0 {
        min
    } else {
        let last = rows.last();
        let cell = if col == 0 {
            last.0
        } else if col == 1 {
            last.1
        } else {
            last.2
        };
        max_nat(column_width(rows.drop_last(), col, min), cell.len())
    }
}

/// `w` copies of `c`.
pub open spec fn repeat_char(c: char, w: nat) -> Seq<char> {
    Seq::new(w, |i: int| c)
}

/// `s` padded with spaces on the right to width `w` (left aligned).
pub open spec fn pad(s: Seq<char>, w: nat) -> Seq<char> {
    if s.len() < w {
        s + repeat_char(' ', (w - s.len()) as nat)
    } else {
        s
    }
}

/// The rule between parts of the table.
pub open spec fn separator(w0: nat, w1: nat, w2: nat) -> Seq<char> {
    "+-"@ + repeat_char('-', w0) + "-+-"@ + repeat_char('-', w1) + "-+-"@ + repeat_char('-', w2)
        + "-+"@
}

/// One row of the table.
pub open spec fn table_row(
    cells: (Seq<char>, Seq<char>, Seq<char>),
    w0: nat,
    w1: nat,
    w2: nat,
) -> Seq<char> {
    "| "@ + pad(cells.0, w0) + " | "@ + pad(cells.1, w1) + " | "@ + pad(cells.2, w2) + " |"@
}

/// The lines of the help message: a greeting and an empty line, then the
/// table with a rule above and below the headings and below the flags; each
/// column is as wide as its widest cell.
pub open spec fn help_message() -> Seq<Seq<char>> {
    let w0 = column_width(help_options(), 0, help_heading().0.len());
    let w1 = column_width(help_options(), 1, help_heading().1.len());
    let w2 = column_width(help_options(), 2, help_heading().2.len());
    let sep = separator(w0, w1, w2);
    seq!["Welcome to the backup installer ^_^"@, Seq::empty(), sep, table_row(help_heading(), w0, w1, w2), sep]
        + help_options().map_values(|r: (Seq<char>, Seq<char>, Seq<char>)| table_row(r, w0, w1, w2))
        + seq![sep]
}

/// The flags, with their usage and description.
fn option_table() -> (r: Vec<(&'static str, &'static str, &'static str)>)
    ensures
        r@.map_values(|t: (&str, &str, &str)| (t.0@, t.1@, t.2@)) == help_options(),
{
    let r = vec![
        ("-h", "-h", "Print the help message"),
        ("-a", "-a <package name>", "Add a package to the config / package database"),
        ("-u", "-u", "Update the installer to the newest version"),
        ("-p", "-p <package manager>", "Specifies the package manager to be used"),
        (
            "-i",
            "-i or -i <package>",
            "Install packages listed in the config files; passing a value installs that package only",
        ),
        ("-c", "-c \"echo 'me' >> ~/.bashrc\"", "Run a command after the specified operation"),
    ];
    proof {
        assert(r@.map_values(|t: (&str, &str, &str)| (t.0@, t.1@, t.2@)) =~= help_options());
    }
    r
}

/// The width of column `col` of `rows`, at least `min`.
fn width_of(rows: &Vec<(&'static str, &'static str, &'static str)>, col: usize, min: &str) -> (w: usize)
    requires
        col < 3,
    ensures
        w == column_width(
            rows@.map_values(|t: (&str, &str, &str)| (t.0@, t.1@, t.2@)),
            col as int,
            min@.len(),
        ),
{
    let ghost model = rows@.map_values(|t: (&str, &str, &str)| (t.0@, t.1@, t.2@));
    let mut w = min.unicode_len();
    let mut i: usize = 0;
    while i < rows.len()
        invariant
            i <= rows@.len(),
            col < 3,
            model == rows@.map_values(|t: (&str, &str, &str)| (t.0@, t.1@, t.2@)),
            w == column_width(model.take(i as int), col as int, min@.len()),
        decreases rows@.len() - i,
    {
        let cell = if col == 0 {
            rows[i].0
        } else if col == 1 {
            rows[i].1
        } else {
            rows[i].2
        };
        let len = cell.unicode_len();
        proof {
            assert(model.take(i + 1).drop_last() =~= model.take(i as int));
            assert(model.take(i + 1).last() == model[i as int]);
        }
        if len > w {
            w = len;
        }
        i = i + 1;
    }
    proof {
        assert(model.take(i as int) =~= model);
    }
    w
}

/// Appends `w` copies of `c` to `s`.
fn push_repeated(s: &mut String, c: char, w: usize)
    ensures
        final(s)@ == old(s)@ + repeat_char(c, w as nat),
{
    let mut k: usize = 0;
    while k < w
        invariant
            k <= w,
            s@ == old(s)@ + repeat_char(c, k as nat),
        decreases w - k,
    {
        push_char(s, c);
        k = k + 1;
        proof {
            assert(s@ =~= old(s)@ + repeat_char(c, k as nat));
        }
    }
}

/// Appends `cell` padded to width `w` to `s`.
fn push_padded(s: &mut String, cell: &str, w: usize)
    ensures
        final(s)@ == old(s)@ + pad(cell@, w as nat),
{
    s.append(cell);
    let len = cell.unicode_len();
    if len < w {
        push_repeated(s, ' ', w - len);
        proof {
            assert(s@ =~= old(s)@ + pad(cell@, w as nat));
        }
    }
}

/// The rule line for column widths `w0`, `w1`, `w2`.
fn separator_line(w0: usize, w1: usize, w2: usize) -> (r: String)
    ensures
        r@ == separator(w0 as nat, w1 as nat, w2 as nat),
{
    let mut s = owned("+-");
    push_repeated(&mut s, '-', w0);
    s.append("-+-");
    push_repeated(&mut s, '-', w1);
    s.append("-+-");
    push_repeated(&mut s, '-', w2);
    s.append("-+");
    proof {
        assert(s@ =~= separator(w0 as nat, w1 as nat, w2 as nat));
    }
    s
}

/// The table row of `cells` for column widths `w0`, `w1`, `w2`.
fn row_line(cells: (&str, &str, &str), w0: usize, w1: usize, w2: usize) -> (r: String)
    ensures
        r@ == table_row((cells.0@, cells.1@, cells.2@), w0 as nat, w1 as nat, w2 as nat),
{
    let mut s = owned("| ");
    push_padded(&mut s, cells.0, w0);
    s.append(" | ");
    push_padded(&mut s, cells.1, w1);
    s.append(" | ");
    push_padded(&mut s, cells.2, w2);
    s.append(" |");
    proof {
        assert(s@ =~= table_row((cells.0@, cells.1@, cells.2@), w0 as nat, w1 as nat, w2 as nat));
    }
    s
}

/// The lines of the help message, ready to print one by one.
pub fn help_lines() -> (lines: Vec<String>)
    ensures
        lines@.map_values(|l: String| l@) == help_message(),
{
    let rows = option_table();
    let w0 = width_of(&rows, 0, "Flag");
    let w1 = width_of(&rows, 1, "Usage");
    let w2 = width_of(&rows, 2, "Description");
    let sep = separator_line(w0, w1, w2);
    let mut lines: Vec<String> = Vec::new();
    lines.push(owned("Welcome to the backup installer ^_^"));
    lines.push(String::new());
    lines.push(sep.clone());
    lines.push(row_line(("Flag", "Usage", "Description"), w0, w1, w2));
    lines.push(sep.clone());
    let ghost head = lines@.map_values(|l: String| l@);
    let ghost model = rows@.map_values(|t: (&str, &str, &str)| (t.0@, t.1@, t.2@));
    let ghost body = model.map_values(
        |r: (Seq<char>, Seq<char>, Seq<char>)| table_row(r, w0 as nat, w1 as nat, w2 as nat),
    );
    let mut i: usize = 0;
    while i < rows.len()
        invariant
            i <= rows@.len(),
            model == rows@.map_values(|t: (&str, &str, &str)| (t.0@, t.1@, t.2@)),
            body == model.map_values(
                |r: (Seq<char>, Seq<char>, Seq<char>)| table_row(r, w0 as nat, w1 as nat, w2 as nat),
            ),
            lines@.map_values(|l: String| l@) == head + body.take(i as int),
        decreases rows@.len() - i,
    {
        let ghost before = lines@;
        let line = row_line(rows[i], w0, w1, w2);
        lines.push(line);
        proof {
            assert(lines@.map_values(|l: String| l@) =~= before.map_values(|l: String| l@).push(
                line@,
            ));
            assert(body.take(i + 1) =~= body.take(i as int).push(body[i as int]));
        }
        i = i + 1;
    }
    let ghost before = lines@;
    lines.push(sep);
    proof {
        assert(body.take(i as int) =~= body);
        assert(lines@.map_values(|l: String| l@) =~= before.map_values(|l: String| l@).push(sep@));
        assert(head =~= seq![
            "Welcome to the backup installer ^_^"@,
            Seq::empty(),
            sep@,
            table_row(help_heading(), w0 as nat, w1 as nat, w2 as nat),
            sep@,
        ]);
        assert(lines@.map_values(|l: String| l@) =~= help_message());
    }
    lines
}


/// A column is at least as wide as its minimum and as each of its cells.
pub proof fn lemma_column_width_bounds(
    rows: Seq<(Seq<char>, Seq<char>, Seq<char>)>,
    col: int,
    min: nat,
)
    ensures
        column_width(rows, col, min) >= min,
        forall|i: int|
            0 <= i < rows.len() ==> column_width(rows, col, min) >= (if col == 0 {
                (#[trigger] rows[i]).0
            } else if col == 1 {
                rows[i].1
            } else {
                rows[i].2
            }).len(),
    decreases rows.len(),
{
    if rows.len() > 0 {
        lemma_column_width_bounds(rows.drop_last(), col, min);
        assert forall|i: int| 0 <= i < rows.len() implies column_width(rows, col, min) >= (if col == 0 {
            (#[trigger] rows[i]).0
        } else if col == 1 {
            rows[i].1
        } else {
            rows[i].2
        }).len() by {
            if i < rows.len() - 1 {
                assert(rows[i] == rows.drop_last()[i]);
            }
        }
    }
}

/// Law: the help table is a rectangle: its rules and all its rows, the
/// heading row included, have the same length.
pub proof fn law_help_table_is_rectangular()
    ensures
        ({
            let m = help_message();
            let w0 = column_width(help_options(), 0, help_heading().0.len());
            let w1 = column_width(help_options(), 1, help_heading().1.len());
            let w2 = column_width(help_options(), 2, help_heading().2.len());
            &&& m.len() == help_options().len() + 6
            &&& forall|i: int| 2 <= i < m.len() ==> (#[trigger] m[i]).len() == w0 + w1 + w2 + 10
        }),
{
    let rows = help_options();
    let h = help_heading();
    let w0 = column_width(rows, 0, h.0.len());
    let w1 = column_width(rows, 1, h.1.len());
    let w2 = column_width(rows, 2, h.2.len());
    lemma_column_width_bounds(rows, 0, h.0.len());
    lemma_column_width_bounds(rows, 1, h.1.len());
    lemma_column_width_bounds(rows, 2, h.2.len());
    let m = help_message();
    reveal_strlit("+-");
    reveal_strlit("-+-");
    reveal_strlit("-+");
    reveal_strlit("| ");
    reveal_strlit(" | ");
    reveal_strlit(" |");
    let sep = separator(w0, w1, w2);
    assert(sep.len() == w0 + w1 + w2 + 10);
    assert forall|i: int| 2 <= i < m.len() implies (#[trigger] m[i]).len() == w0 + w1 + w2 + 10 by {
        if 5 <= i < m.len() - 1 {
            let r = rows[i - 5];
            assert(m[i] == table_row(r, w0, w1, w2));
            assert(r.0.len() <= w0);
            assert(r.1.len() <= w1);
            assert(r.2.len() <= w2);
            assert(pad(r.0, w0).len() == w0);
            assert(pad(r.1, w1).len() == w1);
            assert(pad(r.2, w2).len() == w2);
        } else if i == 3 {
            assert(pad(h.0, w0).len() == w0);
            assert(pad(h.1, w1).len() == w1);
            assert(pad(h.2, w2).len() == w2);
        }
    }
}

} // verus!
