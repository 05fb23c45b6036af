//! Splitting a line into cells on the literal comma, and joining cells back
//! into a line. There is no quoting or escaping: every comma is a separator.

use vstd::prelude::*;

verus! {

/// The cells of one line, split on the literal comma. A line always yields at
/// least one cell; an empty line yields one empty cell.
pub open spec fn split_cells(s: Seq<char>) -> Seq<Seq<char>>
    decreases s.len(),
{
    if s.len() == 0 {
        seq![Seq::<char>::empty()]
    } else if s[0] == ',' {
        seq![Seq::<char>::empty()] + split_cells(s.drop_first())
    } else {
        let rest = split_cells(s.drop_first());
        seq![seq![s[0]] + rest[0]] + rest.drop_first()
    }
}

/// The line formed by the given cells, separated by commas. No cells give an
/// empty line; one cell gives the cell itself.
pub open spec fn join_cells(cells: Seq<Seq<char>>) -> Seq<char>
    decreases cells.len(),
{
    if cells.len() == 0 {
        Seq::<char>::empty()
    } else if cells.len() == 1 {
        cells[0]
    } else {
        cells[0] + seq![','] + join_cells(cells.drop_first())
    }
}

/// Every line, the empty one included, splits into at least one cell.
pub proof fn lemma_split_cells_nonempty(s: Seq<char>)
    ensures
        split_cells(s).len() >= 1,
    decreases s.len(),
{
    if s.len() == 0 {
    } else {
        lemma_split_cells_nonempty(s.drop_first());
    }
}

/// A line without commas is a single cell.
pub proof fn lemma_split_cells_no_comma(s: Seq<char>)
    requires
        forall|i: int| 0 <= i < s.len() ==> s[i] != ',',
    ensures
        split_cells(s) == seq![s],
    decreases s.len(),
{
    if s.len() == 0 {
        assert(s =~= Seq::<char>::empty());
        assert(split_cells(s) =~= seq![s]);
    } else {
        lemma_split_cells_no_comma(s.drop_first());
        assert(seq![s[0]] + s.drop_first() =~= s);
        assert(split_cells(s) =~= seq![s]);
    }
}

/// Splitting a line that begins with a comma-free cell, a comma, and a
/// remainder yields that cell followed by the split of the remainder.
pub proof fn lemma_split_cells_prefix(t: Seq<char>, u: Seq<char>)
    requires
        forall|i: int| 0 <= i < t.len() ==> t[i] != ',',
    ensures
        split_cells(t + seq![','] + u) == seq![t] + split_cells(u),
    decreases t.len(),
{
    let s = t + seq![','] + u;
    if t.len() == 0 {
        assert(t =~= Seq::<char>::empty());
        assert(s =~= seq![','] + u);
        assert(s[0] == ',');
        assert(s.drop_first() =~= u);
        assert(split_cells(s) =~= seq![t] + split_cells(u));
    } else {
        lemma_split_cells_prefix(t.drop_first(), u);
        assert(s[0] == t[0]);
        assert(s[0] != ',');
        assert(s.drop_first() =~= t.drop_first() + seq![','] + u);
        let rest = split_cells(s.drop_first());
        assert(rest == seq![t.drop_first()] + split_cells(u));
        lemma_split_cells_nonempty(u);
        assert(rest[0] == t.drop_first());
        assert(seq![s[0]] + rest[0] =~= t);
        assert(rest.drop_first() =~= split_cells(u));
        assert(split_cells(s) =~= seq![t] + split_cells(u));
    }
}

/// Joining the split of any line gives the line back unchanged.
pub proof fn lemma_join_split_cells(s: Seq<char>)
    ensures
        join_cells(split_cells(s)) == s,
    decreases s.len(),
{
    if s.len() == 0 {
    } else if s[0] == ',' {
        lemma_join_split_cells(s.drop_first());
        let rest = split_cells(s.drop_first());
        lemma_split_cells_nonempty(s.drop_first());
        let cells = seq![Seq::<char>::empty()] + rest;
        assert(cells.drop_first() =~= rest);
        assert(join_cells(cells) =~= s);
    } else {
        lemma_join_split_cells(s.drop_first());
        let rest = split_cells(s.drop_first());
        lemma_split_cells_nonempty(s.drop_first());
        let cells = seq![seq![s[0]] + rest[0]] + rest.drop_first();
        if rest.len() == 1 {
            assert(join_cells(rest) == rest[0]);
            assert(join_cells(cells) == seq![s[0]] + rest[0]);
            assert(seq![s[0]] + rest[0] =~= s);
        } else {
            assert(cells.len() >= 2);
            assert(cells.drop_first() =~= rest.drop_first());
            assert(join_cells(cells) == (seq![s[0]] + rest[0]) + seq![','] + join_cells(
                rest.drop_first(),
            ));
            assert(join_cells(rest) == rest[0] + seq![','] + join_cells(rest.drop_first()));
            assert((seq![s[0]] + rest[0]) + seq![','] + join_cells(rest.drop_first()) =~= seq![
                s[0],
            ] + join_cells(rest));
            assert(seq![s[0]] + s.drop_first() =~= s);
        }
    }
}

/// Appending one more cell extends the joined line by a comma (when the line
/// already had a cell) and the new cell.
pub proof fn lemma_join_cells_push(cells: Seq<Seq<char>>, c: Seq<char>)
    ensures
        cells.len() == 0 ==> join_cells(cells.push(c)) == c,
        cells.len() > 0 ==> join_cells(cells.push(c)) == join_cells(cells) + seq![','] + c,
    decreases cells.len(),
{
    if cells.len() == 0 {
        assert(cells.push(c)[0] == c);
    } else if cells.len() == 1 {
        assert(cells.push(c).drop_first() =~= seq![c]);
        assert(join_cells(seq![c]) == c);
        assert(join_cells(cells.push(c)) == cells[0] + seq![','] + c);
    } else {
        lemma_join_cells_push(cells.drop_first(), c);
        assert(cells.push(c).drop_first() =~= cells.drop_first().push(c));
        assert(join_cells(cells.push(c)) == cells[0] + seq![','] + join_cells(
            cells.drop_first().push(c),
        ));
        assert(cells[0] + seq![','] + (join_cells(cells.drop_first()) + seq![','] + c) =~= (
        cells[0] + seq![','] + join_cells(cells.drop_first())) + seq![','] + c);
    }
}

/// Split a line into its cells on the literal comma, with no quoting,
/// escaping or trimming.
pub fn split_line(line: &str) -> (cells: Vec<String>)
    ensures
        cells.deep_view() == split_cells(line@),
{
    let n = line.unicode_len();
    let mut cells: Vec<String> = Vec::new();
    let mut start: usize = 0;
    let mut i: usize = 0;
    proof {
        assert(line@.subrange(0, n as int) =~= line@);
        assert(cells.deep_view() =~= Seq::<Seq<char>>::empty());
        assert(cells.deep_view() + split_cells(line@) =~= split_cells(line@));
    }
    while i < n
        invariant
            n == line@.len(),
            start <= i <= n,
            forall|k: int| start <= k < i ==> line@[k] != ',',
            split_cells(line@) == cells.deep_view() + split_cells(
                line@.subrange(start as int, n as int),
            ),
        decreases n - i,
    {
        if line.get_char(i) == ',' {
            let cell = line.substring_char(start, i);
            let ghost old_cells = cells.deep_view();
            cells.push(cell.to_owned());
            proof {
                let prefix = line@.subrange(start as int, i as int);
                let remainder = line@.subrange(i as int + 1, n as int);
                assert(line@.subrange(start as int, n as int) =~= prefix + seq![','] + remainder);
                lemma_split_cells_prefix(prefix, remainder);
                assert(cells.deep_view() =~= old_cells.push(prefix));
                assert(cells.deep_view() + split_cells(remainder) =~= old_cells + (seq![prefix]
                    + split_cells(remainder)));
            }
            start = i + 1;
        }
        i += 1;
    }
    let last = line.substring_char(start, n);
    let ghost old_cells = cells.deep_view();
    cells.push(last.to_owned());
    proof {
        let tail = line@.subrange(start as int, n as int);
        lemma_split_cells_no_comma(tail);
        assert(cells.deep_view() =~= old_cells.push(tail));
        assert(cells.deep_view() =~= old_cells + seq![tail]);
    }
    cells
}

/// Join cells into one line, separated by literal commas.
pub fn join_row(row: &Vec<String>) -> (line: String)
    ensures
        line@ == join_cells(row.deep_view()),
{
    let mut line = String::new();
    let mut i: usize = 0;
    while i < row.len()
        invariant
            i <= row@.len(),
            line@ == join_cells(row.deep_view().take(i as int)),
        decreases row@.len() - i,
    {
        proof {
            reveal_strlit(",");
            assert(","@ =~= seq![',']);
        }
        if i > 0 {
            line.append(",");
        }
        line.append(row[i].as_str());
        proof {
            let done = row.deep_view().take(i as int);
            lemma_join_cells_push(done, row@[i as int]@);
            assert(row.deep_view().take(i as int + 1) =~= done.push(row@[i as int]@));
        }
        i += 1;
    }
    proof {
        assert(row.deep_view().take(row@.len() as int) =~= row.deep_view());
    }
    line
}

} // verus!
