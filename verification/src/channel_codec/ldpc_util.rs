use vstd::prelude::*;
use sparse_bin_mat::{SparseBinMat, SparseBinVec, SparseBinVecBase};
use crate::util::text::{
    chars_of, is_ascii_digit, is_white_space, lemma_line_spans_shape, lemma_token_spans_shape,
    append_decimal, decimal_text, line_spans, parse_usize, parse_usize_in, span_view, split_lines, split_whitespace, token_spans,
    usize_text_value, white_space, all_ascii_digits, lemma_decimal_text_digits,
    lemma_decimal_text_reads_back,
};

verus! {

#[verifier::external_type_specification]
#[verifier::external_body]
pub struct ExSparseBinMat(SparseBinMat);

#[verifier::external_type_specification]
#[verifier::external_body]
#[verifier::reject_recursive_types(T)]
pub struct ExSparseBinVecBase<T>(SparseBinVecBase<T>);

/// The entries of a vector, in order, true for a one.
pub uninterp spec fn vector_bits(v: SparseBinVec) -> Seq<bool>;

/// `SparseBinVec::iter_dense`: each entry of a vector in order, true for a one.
#[verifier::external_body]
fn vector_dense_bits(v: &SparseBinVec) -> (bits: Vec<bool>)
    ensures
        bits@ == vector_bits(*v),
{
    v.iter_dense().map(|bit| bit.is_one()).collect()
}

/// The positions, (row, column), of the ones of a matrix.
pub uninterp spec fn matrix_ones(m: SparseBinMat) -> Set<(usize, usize)>;

/// The number of rows and the number of columns that a matrix was made with.
pub uninterp spec fn matrix_dimensions(m: SparseBinMat) -> (usize, usize);

/// `SparseBinMat::zeros`: a matrix of the given dimensions with no ones.
#[verifier::external_body]
fn matrix_zeros(rows: usize, columns: usize) -> (m: SparseBinMat)
    ensures
        matrix_ones(m) == Set::<(usize, usize)>::empty(),
        matrix_dimensions(m) == (rows, columns),
{
    SparseBinMat::zeros(rows, columns)
}

/// Whether the positions of a row all lie below `columns` and strictly increase.
pub open spec fn row_positions_valid(row: Seq<usize>, columns: usize) -> bool {
    &&& forall|i: int| 0 <= i < row.len() ==> #[trigger] row[i] < columns
    &&& forall|i: int, j: int| 0 <= i < j < row.len() ==> #[trigger] row[i] < #[trigger] row[j]
}

/// The positions, (row, column), of the ones of rows each given as its list of columns.
pub open spec fn rows_ones(rows: Seq<Seq<usize>>) -> Set<(usize, usize)> {
    Set::new(|p: (usize, usize)| p.0 < rows.len() && rows[p.0 as int].contains(p.1))
}

/// `SparseBinMat::new`: the matrix with the given number of columns whose row `r` has its ones
/// at the columns listed in `rows[r]`. The crate panics on a position not below the number of
/// columns, or on a row whose positions are unsorted or repeated; `requires` excludes those.
#[verifier::external_body]
pub(crate) fn matrix_new(number_of_columns: usize, rows: Vec<Vec<usize>>) -> (m: SparseBinMat)
    requires
        forall|r: int| 0 <= r < rows@.len() ==> row_positions_valid(#[trigger] rows@[r]@, number_of_columns),
    ensures
        matrix_dimensions(m) == (rows@.len() as usize, number_of_columns),
        matrix_ones(m) == rows_ones(rows@.map_values(|row: Vec<usize>| row@)),
{
    SparseBinMat::new(number_of_columns, rows)
}

/// `SparseBinMat::emplace_at` with the value 1: the matrix with a one at (row, column). The
/// crate panics for a position out of bounds.
#[verifier::external_body]
fn matrix_with_one(m: SparseBinMat, row: usize, column: usize) -> (result: SparseBinMat)
    requires
        row < matrix_dimensions(m).0,
        column < matrix_dimensions(m).1,
    ensures
        matrix_ones(result) == matrix_ones(m).insert((row, column)),
        matrix_dimensions(result) == matrix_dimensions(m),
{
    m.emplace_at(1, row, column)
}

/// `SparseBinMat::is_one_at`: whether there is a one at (row, column); none out of bounds.
#[verifier::external_body]
fn matrix_is_one_at(m: &SparseBinMat, row: usize, column: usize) -> (one: Option<bool>)
    ensures
        one == (if row < matrix_dimensions(*m).0 && column < matrix_dimensions(*m).1 {
            Some(matrix_ones(*m).contains((row, column)))
        } else {
            None::<bool>
        }),
{
    m.is_one_at(row, column)
}

/// `SparseBinMat::number_of_rows`.
#[verifier::external_body]
fn matrix_number_of_rows(m: &SparseBinMat) -> (rows: usize)
    ensures
        rows == matrix_dimensions(*m).0,
{
    m.number_of_rows()
}

/// `SparseBinMat::number_of_columns`.
#[verifier::external_body]
fn matrix_number_of_columns(m: &SparseBinMat) -> (columns: usize)
    ensures
        columns == matrix_dimensions(*m).1,
{
    m.number_of_columns()
}

/// The outcome of reading matrix positions: the ones so far, an error message, or a position
/// outside the matrix (where the matrix crate panics).
pub enum PositionsReading {
    Ones(Set<(usize, usize)>),
    Failed(Seq<char>),
    OutOfBounds,
}

/// The text of a span.
pub open spec fn span_text(s: Seq<char>, span: (int, int)) -> Seq<char> {
    s.subrange(span.0, span.1)
}

/// Reads the 1-based column positions of the ones of `row`, in order, after `ones`.
pub open spec fn read_row_positions(
    s: Seq<char>,
    tokens: Seq<(int, int)>,
    row: usize,
    columns: usize,
    ones: Set<(usize, usize)>,
) -> PositionsReading
    decreases tokens.len(),
{
    if tokens.len() == 0 {
        PositionsReading::Ones(ones)
    } else {
        match usize_text_value(span_text(s, tokens[0])) {
            None => PositionsReading::Failed("col value is not a number"@),
            Some(c) => if 1 <= c <= columns {
                read_row_positions(s, tokens.drop_first(), row, columns, ones.insert((row, (c - 1) as usize)))
            } else {
                PositionsReading::OutOfBounds
            },
        }
    }
}

/// Reads the 1-based row positions of the ones of `column`, in order, after `ones`.
pub open spec fn read_column_positions(
    s: Seq<char>,
    tokens: Seq<(int, int)>,
    column: usize,
    rows: usize,
    ones: Set<(usize, usize)>,
) -> PositionsReading
    decreases tokens.len(),
{
    if tokens.len() == 0 {
        PositionsReading::Ones(ones)
    } else {
        match usize_text_value(span_text(s, tokens[0])) {
            None => PositionsReading::Failed("row value is not a number"@),
            Some(r) => if 1 <= r <= rows {
                read_column_positions(s, tokens.drop_first(), column, rows, ones.insert(((r - 1) as usize, column)))
            } else {
                PositionsReading::OutOfBounds
            },
        }
    }
}

/// The words of line `k`.
pub open spec fn line_tokens(s: Seq<char>, lines: Seq<(int, int)>, k: int) -> Seq<(int, int)> {
    token_spans(s, lines[k].0, lines[k].1)
}

/// Reads the row lines from row `r` on, the first of them on line 4 (after the dimensions, the
/// maximum weights, the row weights and the column weights).
pub open spec fn read_rows(
    s: Seq<char>,
    lines: Seq<(int, int)>,
    rows: usize,
    columns: usize,
    r: int,
    ones: Set<(usize, usize)>,
) -> PositionsReading
    decreases rows - r,
{
    if r >= rows || r < 0 {
        PositionsReading::Ones(ones)
    } else if 4 + r >= lines.len() {
        PositionsReading::Failed(
            "alist does not contain expected number of lines (expecting row data)"@,
        )
    } else {
        match read_row_positions(s, line_tokens(s, lines, 4 + r), r as usize, columns, ones) {
            PositionsReading::Ones(o) => read_rows(s, lines, rows, columns, r + 1, o),
            other => other,
        }
    }
}

/// Reads the column lines from column `k` on, which follow the row lines.
pub open spec fn read_columns(
    s: Seq<char>,
    lines: Seq<(int, int)>,
    rows: usize,
    columns: usize,
    k: int,
    ones: Set<(usize, usize)>,
) -> PositionsReading
    decreases columns - k,
{
    if k >= columns || k < 0 {
        PositionsReading::Ones(ones)
    } else if 4 + rows + k >= lines.len() {
        PositionsReading::Failed(
            "alist does not contain expected number of lines (expecting column data)"@,
        )
    } else {
        match read_column_positions(
            s,
            line_tokens(s, lines, 4 + rows + k),
            k as usize,
            rows,
            ones,
        ) {
            PositionsReading::Ones(o) => read_columns(s, lines, rows, columns, k + 1, o),
            other => other,
        }
    }
}

/// What reading an alist text gives: a matrix of some dimensions with some ones, an error
/// message, or a position outside the matrix.
pub enum AlistReading {
    Matrix { rows: usize, columns: usize, ones: Set<(usize, usize)> },
    Failed(Seq<char>),
    OutOfBounds,
}

/// Reads an alist text: the first line holds the number of rows and of columns; after the line
/// of maximum weights, the line of row weights and the line of column weights, each row has a
/// line of the 1-based columns of its ones, then each column a line of the 1-based rows of its
/// ones.
pub open spec fn alist_reading(s: Seq<char>) -> AlistReading {
    let lines = line_spans(s, s.len() as int);
    let first = line_tokens(s, lines, 0);
    let enough = "alist first line (dimensions) does not contain enough elements"@;
    if first.len() < 1 {
        AlistReading::Failed(enough)
    } else {
        match usize_text_value(span_text(s, first[0])) {
            None => AlistReading::Failed("nrows is not a number"@),
            Some(rows) => if first.len() < 2 {
                AlistReading::Failed(enough)
            } else {
                match usize_text_value(span_text(s, first[1])) {
                    None => AlistReading::Failed("ncols is not a number"@),
                    Some(columns) => match read_rows(s, lines, rows, columns, 0, Set::empty()) {
                        PositionsReading::Ones(row_ones) => match read_columns(
                            s,
                            lines,
                            rows,
                            columns,
                            0,
                            row_ones,
                        ) {
                            PositionsReading::Ones(ones) => AlistReading::Matrix {
                                rows,
                                columns,
                                ones,
                            },
                            PositionsReading::Failed(m) => AlistReading::Failed(m),
                            PositionsReading::OutOfBounds => AlistReading::OutOfBounds,
                        },
                        PositionsReading::Failed(m) => AlistReading::Failed(m),
                        PositionsReading::OutOfBounds => AlistReading::OutOfBounds,
                    },
                }
            },
        }
    }
}


/// The words of line `k` of a text, as (start, end) positions.
fn words_of_line(chars: &Vec<char>, lines: &Vec<(usize, usize)>, k: usize) -> (words: Vec<(usize, usize)>)
    requires
        span_view(lines@) == line_spans(chars@, chars@.len() as int),
        k < lines@.len(),
    ensures
        span_view(words@) == line_tokens(chars@, span_view(lines@), k as int),
        forall|i: int| 0 <= i < words@.len() ==> (#[trigger] words@[i]).0 <= words@[i].1 <= chars@.len(),
{
    proof {
        lemma_line_spans_shape(chars@, chars@.len() as int);
        assert(span_view(lines@)[k as int] == (lines@[k as int].0 as int, lines@[k as int].1 as int));
    }
    let line = lines[k];
    let words = split_whitespace(chars, line.0, line.1);
    proof {
        lemma_token_spans_shape(chars@, line.0 as int, line.1 as int);
        assert forall|i: int| 0 <= i < words@.len() implies (#[trigger] words@[i]).0 <= words@[i].1
            <= chars@.len() by {
            assert(span_view(words@)[i] == (words@[i].0 as int, words@[i].1 as int));
        }
    }
    words
}

/// Reads the number that a word spells.
fn word_value(chars: &Vec<char>, word: (usize, usize)) -> (value: Option<usize>)
    requires
        word.0 <= word.1 <= chars@.len(),
    ensures
        value == usize_text_value(span_text(chars@, (word.0 as int, word.1 as int))),
{
    parse_usize_in(chars, word.0, word.1)
}

/// Reads a parity check matrix from the alist format, or `None` where a position lies outside
/// the matrix (on which `from_alist` is not to be called): the first line holds the number of rows
/// and of columns; the next three lines (maximum weights, row weights, column weights) are
/// skipped; then each row has a line of the 1-based columns of its ones, and each column a line
/// of the 1-based rows of its ones.
pub fn try_from_alist(alist: &str) -> (outcome: Option<Result<SparseBinMat, String>>)
    ensures
        match alist_reading(alist@) {
            AlistReading::Matrix { rows, columns, ones } => outcome matches Some(Ok(m))
                && matrix_dimensions(m) == (rows, columns) && matrix_ones(m) == ones,
            AlistReading::Failed(message) => outcome matches Some(Err(e)) && e@ == message,
            AlistReading::OutOfBounds => outcome is None,
        },
{
    let chars = chars_of(alist);
    let ghost s = chars@;
    let lines = split_lines(&chars);
    let ghost lv = span_view(lines@);
    proof {
        lemma_line_spans_shape(s, s.len() as int);
    }
    let first = words_of_line(&chars, &lines, 0);
    if first.len() < 1 {
        return Some(Err(String::from_str("alist first line (dimensions) does not contain enough elements")));
    }
    proof {
        assert(span_view(first@)[0] == (first@[0].0 as int, first@[0].1 as int));
    }
    let nrows = match word_value(&chars, first[0]) {
        None => {
            return Some(Err(String::from_str("nrows is not a number")));
        },
        Some(n) => n,
    };
    if first.len() < 2 {
        return Some(Err(String::from_str("alist first line (dimensions) does not contain enough elements")));
    }
    proof {
        assert(span_view(first@)[1] == (first@[1].0 as int, first@[1].1 as int));
    }
    let ncols = match word_value(&chars, first[1]) {
        None => {
            return Some(Err(String::from_str("ncols is not a number")));
        },
        Some(n) => n,
    };
    let ghost all_rows = read_rows(s, lv, nrows, ncols, 0, Set::empty());
    let mut h = matrix_zeros(nrows, ncols);
    // position of 1's in each row
    let mut r: usize = 0;
    while r < nrows
        invariant
            chars@ == s,
            s == alist@,
            lv == span_view(lines@),
            lv == line_spans(s, s.len() as int),
            r <= nrows,
            matrix_dimensions(h) == (nrows, ncols),
            all_rows == read_rows(s, lv, nrows, ncols, 0, Set::empty()),
            all_rows == read_rows(s, lv, nrows, ncols, r as int, matrix_ones(h)),
            alist_reading(s) == (match all_rows {
                PositionsReading::Ones(row_ones) => match read_columns(s, lv, nrows, ncols, 0, row_ones) {
                    PositionsReading::Ones(ones) => AlistReading::Matrix { rows: nrows, columns: ncols, ones },
                    PositionsReading::Failed(m) => AlistReading::Failed(m),
                    PositionsReading::OutOfBounds => AlistReading::OutOfBounds,
                },
                PositionsReading::Failed(m) => AlistReading::Failed(m),
                PositionsReading::OutOfBounds => AlistReading::OutOfBounds,
            }),
        decreases nrows - r,
    {
        if lines.len() <= 4 || r >= lines.len() - 4 {
            return Some(Err(String::from_str("alist does not contain expected number of lines (expecting row data)")));
        }
        let words = words_of_line(&chars, &lines, 4 + r);
        let ghost tv = span_view(words@);
        let ghost line_start_ones = matrix_ones(h);
        assert(tv.skip(0) =~= tv);
        let mut j: usize = 0;
        while j < words.len()
            invariant
                chars@ == s,
                s == alist@,
                tv == span_view(words@),
                forall|i: int| 0 <= i < words@.len() ==> (#[trigger] words@[i]).0 <= words@[i].1 <= chars@.len(),
                j <= words@.len(),
                r < nrows,
                matrix_dimensions(h) == (nrows, ncols),
                read_row_positions(s, tv, r, ncols, line_start_ones) == read_row_positions(
                    s,
                    tv.skip(j as int),
                    r,
                    ncols,
                    matrix_ones(h),
                ),
                all_rows == read_rows(s, lv, nrows, ncols, r as int, line_start_ones),
                tv == line_tokens(s, lv, 4 + r),
                4 + r < lv.len(),
                alist_reading(s) == (match all_rows {
                    PositionsReading::Ones(row_ones) => match read_columns(s, lv, nrows, ncols, 0, row_ones) {
                        PositionsReading::Ones(ones) => AlistReading::Matrix { rows: nrows, columns: ncols, ones },
                        PositionsReading::Failed(m) => AlistReading::Failed(m),
                        PositionsReading::OutOfBounds => AlistReading::OutOfBounds,
                    },
                    PositionsReading::Failed(m) => AlistReading::Failed(m),
                    PositionsReading::OutOfBounds => AlistReading::OutOfBounds,
                }),
                decreases words.len() - j,
        {
            let word = words[j];
            assert(tv.skip(j as int)[0] == (word.0 as int, word.1 as int));
            match word_value(&chars, word) {
                None => {
                    assert(read_row_positions(s, tv.skip(j as int), r, ncols, matrix_ones(h))
                        == PositionsReading::Failed("col value is not a number"@));
                    assert(read_rows(s, lv, nrows, ncols, r as int, line_start_ones)
                        == PositionsReading::Failed("col value is not a number"@));
                    return Some(Err(String::from_str("col value is not a number")));
                },
                Some(col) => {
                    if col == 0 || col > ncols {
                        assert(read_row_positions(s, tv.skip(j as int), r, ncols, matrix_ones(h)) is OutOfBounds);
                        assert(read_rows(s, lv, nrows, ncols, r as int, line_start_ones) is OutOfBounds);
                        return None;
                    }
                    h = matrix_with_one(h, r, col - 1);
                    assert(tv.skip(j as int).drop_first() =~= tv.skip(j + 1));
                },
            }
            j += 1;
        }
        assert(tv.skip(j as int) =~= Seq::<(int, int)>::empty());
        r += 1;
    }
    // position of 1's in each column
    let ghost row_ones = matrix_ones(h);
    let ghost all_columns = read_columns(s, lv, nrows, ncols, 0, row_ones);
    let mut k: usize = 0;
    while k < ncols
        invariant
            chars@ == s,
            s == alist@,
            lv == span_view(lines@),
            lv == line_spans(s, s.len() as int),
            k <= ncols,
            matrix_dimensions(h) == (nrows, ncols),
            all_columns == read_columns(s, lv, nrows, ncols, k as int, matrix_ones(h)),
            alist_reading(s) == (match all_columns {
                PositionsReading::Ones(ones) => AlistReading::Matrix { rows: nrows, columns: ncols, ones },
                PositionsReading::Failed(m) => AlistReading::Failed(m),
                PositionsReading::OutOfBounds => AlistReading::OutOfBounds,
            }),
        decreases ncols - k,
    {
        if lines.len() <= 4 || nrows >= lines.len() - 4 || k >= lines.len() - 4 - nrows {
            assert(read_columns(s, lv, nrows, ncols, k as int, matrix_ones(h)) == PositionsReading::Failed(
                "alist does not contain expected number of lines (expecting column data)"@,
            ));
            return Some(Err(String::from_str("alist does not contain expected number of lines (expecting column data)")));
        }
        let words = words_of_line(&chars, &lines, 4 + nrows + k);
        let ghost tv = span_view(words@);
        let ghost line_start_ones = matrix_ones(h);
        assert(tv.skip(0) =~= tv);
        let mut j: usize = 0;
        while j < words.len()
            invariant
                chars@ == s,
                s == alist@,
                tv == span_view(words@),
                forall|i: int| 0 <= i < words@.len() ==> (#[trigger] words@[i]).0 <= words@[i].1 <= chars@.len(),
                j <= words@.len(),
                k < ncols,
                matrix_dimensions(h) == (nrows, ncols),
                read_column_positions(s, tv, k, nrows, line_start_ones) == read_column_positions(
                    s,
                    tv.skip(j as int),
                    k,
                    nrows,
                    matrix_ones(h),
                ),
                all_columns == read_columns(s, lv, nrows, ncols, k as int, line_start_ones),
                tv == line_tokens(s, lv, 4 + nrows + k),
                4 + nrows + k < lv.len(),
                alist_reading(s) == (match all_columns {
                    PositionsReading::Ones(ones) => AlistReading::Matrix { rows: nrows, columns: ncols, ones },
                    PositionsReading::Failed(m) => AlistReading::Failed(m),
                    PositionsReading::OutOfBounds => AlistReading::OutOfBounds,
                }),
                decreases words.len() - j,
        {
            let word = words[j];
            assert(tv.skip(j as int)[0] == (word.0 as int, word.1 as int));
            match word_value(&chars, word) {
                None => {
                    assert(read_column_positions(s, tv.skip(j as int), k, nrows, matrix_ones(h))
                        == PositionsReading::Failed("row value is not a number"@));
                    assert(read_columns(s, lv, nrows, ncols, k as int, line_start_ones)
                        == PositionsReading::Failed("row value is not a number"@));
                    return Some(Err(String::from_str("row value is not a number")));
                },
                Some(row) => {
                    if row == 0 || row > nrows {
                        assert(read_column_positions(s, tv.skip(j as int), k, nrows, matrix_ones(h)) is OutOfBounds);
                        assert(read_columns(s, lv, nrows, ncols, k as int, line_start_ones) is OutOfBounds);
                        return None;
                    }
                    h = matrix_with_one(h, row - 1, k);
                    assert(tv.skip(j as int).drop_first() =~= tv.skip(j + 1));
                },
            }
            j += 1;
        }
        assert(tv.skip(j as int) =~= Seq::<(int, int)>::empty());
        k += 1;
    }
    Some(Ok(h))
}


/// Reads a parity check matrix from the alist format: the first line holds the number of rows
/// and of columns; the next three lines (maximum weights, row weights, column weights) are
/// skipped; then each row has a line of the 1-based columns of its ones, and each column a line
/// of the 1-based rows of its ones. A text naming a position outside the matrix is not
/// accepted; `try_from_alist` tells such texts apart.
pub fn from_alist(alist: &str) -> (parsed: Result<SparseBinMat, String>)
    requires
        !(alist_reading(alist@) is OutOfBounds),
    ensures
        match alist_reading(alist@) {
            AlistReading::Matrix { rows, columns, ones } => parsed matches Ok(m) && matrix_dimensions(m)
                == (rows, columns) && matrix_ones(m) == ones,
            AlistReading::Failed(message) => parsed matches Err(e) && e@ == message,
            AlistReading::OutOfBounds => true,
        },
{
    match try_from_alist(alist) {
        Some(parsed) => parsed,
        None => {
            proof {
                assert(false);
            }
            Err(String::new())
        },
    }
}

/// The number of rows and of columns of the generator matrix.
pub const GENERATOR_DIMENSION: usize = 126;

/// What has been read of a generator matrix text: whether the matrix has started, the next
/// matrix row, the ones so far, and the column order so far.
pub struct GeneratorReading {
    pub in_matrix: bool,
    pub row: int,
    pub ones: Set<(usize, usize)>,
    pub columns: Seq<usize>,
}

/// Whether a line holds a list of numbers: a digit followed by white space.
pub open spec fn has_number_list(line: Seq<char>) -> bool {
    exists|j: int| 0 <= j < line.len() - 1 && #[trigger] is_ascii_digit(line[j]) && is_white_space(line[j + 1])
}

/// The numbers that the words spell, if every word spells one.
pub open spec fn word_numbers(s: Seq<char>, words: Seq<(int, int)>) -> Option<Seq<usize>>
    decreases words.len(),
{
    if words.len() == 0 {
        Some(seq![])
    } else {
        match (usize_text_value(span_text(s, words[0])), word_numbers(s, words.drop_first())) {
            (Some(v), Some(rest)) => Some(seq![v] + rest),
            _ => None,
        }
    }
}

/// The positions of the ones in a row of numbers.
pub open spec fn row_ones(row: int, numbers: Seq<usize>) -> Set<(usize, usize)> {
    Set::new(|p: (usize, usize)| p.0 == row && p.1 < numbers.len() && numbers[p.1 as int] == 1)
}

/// Whether a row of numbers puts a one outside the generator matrix.
pub open spec fn row_out_of_bounds(row: int, numbers: Seq<usize>) -> bool {
    exists|i: int| 0 <= i < numbers.len() && #[trigger] numbers[i] == 1 && (row >= GENERATOR_DIMENSION
        || i >= GENERATOR_DIMENSION)
}

/// Reading one line of a generator matrix text; none where the text cannot be read: a word
/// that is not a number in a number list, or a one outside the matrix (where the matrix crate
/// panics).
pub open spec fn read_generator_line(s: Seq<char>, line: (int, int), g: GeneratorReading) -> Option<GeneratorReading> {
    let text = span_text(s, line);
    let words = token_spans(s, line.0, line.1);
    if !g.in_matrix {
        if text == "Inv(A) X B:"@ {
            Some(GeneratorReading { in_matrix: true, ..g })
        } else if has_number_list(text) {
            match word_numbers(s, words) {
                Some(numbers) => Some(GeneratorReading { columns: g.columns + numbers, ..g }),
                None => None,
            }
        } else {
            Some(g)
        }
    } else if has_number_list(text) {
        match word_numbers(s, words) {
            Some(numbers) => if row_out_of_bounds(g.row, numbers) {
                None
            } else {
                Some(
                    GeneratorReading {
                        row: g.row + 1,
                        ones: g.ones.union(row_ones(g.row, numbers)),
                        ..g
                    },
                )
            },
            None => None,
        }
    } else {
        Some(g)
    }
}

/// Reading the lines of a generator matrix text from line `k` on.
pub open spec fn read_generator_lines(
    s: Seq<char>,
    lines: Seq<(int, int)>,
    k: int,
    g: GeneratorReading,
) -> Option<GeneratorReading>
    decreases lines.len() - k,
{
    if k >= lines.len() || k < 0 {
        Some(g)
    } else {
        match read_generator_line(s, lines[k], g) {
            Some(next) => read_generator_lines(s, lines, k + 1, next),
            None => None,
        }
    }
}

/// The numbers of the number-list lines from line `k` on, up to the line `Inv(A) X B:`, one
/// line after another.
pub open spec fn order_numbers(s: Seq<char>, lines: Seq<(int, int)>, k: int) -> Seq<usize>
    decreases lines.len() - k,
{
    if k >= lines.len() || k < 0 {
        seq![]
    } else if span_text(s, lines[k]) == "Inv(A) X B:"@ {
        seq![]
    } else if has_number_list(span_text(s, lines[k])) {
        match word_numbers(s, token_spans(s, lines[k].0, lines[k].1)) {
            Some(numbers) => numbers + order_numbers(s, lines, k + 1),
            None => seq![],
        }
    } else {
        order_numbers(s, lines, k + 1)
    }
}

/// The column order of a generator matrix text is every number of every number-list line
/// before the line `Inv(A) X B:`, in order, after what was read before: no line's numbers are
/// dropped, replaced or reordered. After that line the column order no longer changes.
pub proof fn lemma_column_order_is_all_order_lines(
    s: Seq<char>,
    lines: Seq<(int, int)>,
    k: int,
    g: GeneratorReading,
)
    ensures
        read_generator_lines(s, lines, k, g) matches Some(f) ==> f.columns == g.columns + (if g.in_matrix {
            Seq::<usize>::empty()
        } else {
            order_numbers(s, lines, k)
        }),
    decreases lines.len() - k,
{
    if k >= lines.len() || k < 0 {
        assert(g.columns + Seq::<usize>::empty() =~= g.columns);
    } else {
        match read_generator_line(s, lines[k], g) {
            Some(next) => {
                lemma_column_order_is_all_order_lines(s, lines, k + 1, next);
                if !g.in_matrix {
                    let text = span_text(s, lines[k]);
                    if text == "Inv(A) X B:"@ {
                        assert(g.columns + Seq::<usize>::empty() =~= g.columns);
                    } else if has_number_list(text) {
                        let numbers = word_numbers(s, token_spans(s, lines[k].0, lines[k].1))->0;
                        assert(g.columns + numbers + order_numbers(s, lines, k + 1) =~= g.columns
                            + (numbers + order_numbers(s, lines, k + 1)));
                    }
                } else {
                    assert(g.columns + Seq::<usize>::empty() =~= g.columns);
                }
            },
            None => {},
        }
    }
}

/// The column order read from a generator matrix text is every number of every number-list
/// line before the line `Inv(A) X B:`, in order.
pub proof fn lemma_generator_column_order(s: Seq<char>)
    ensures
        generator_reading(s) matches Some(g) ==> g.columns == order_numbers(
            s,
            line_spans(s, s.len() as int),
            0,
        ),
{
    let g0 = GeneratorReading { in_matrix: false, row: 0, ones: Set::empty(), columns: seq![] };
    lemma_column_order_is_all_order_lines(s, line_spans(s, s.len() as int), 0, g0);
    assert(Seq::<usize>::empty() + order_numbers(s, line_spans(s, s.len() as int), 0)
        =~= order_numbers(s, line_spans(s, s.len() as int), 0));
}

/// The rows of numbers of the number-list lines after the line `Inv(A) X B:`, from line `k` on
/// (`in_matrix` telling whether that line has been passed).
pub open spec fn matrix_rows(s: Seq<char>, lines: Seq<(int, int)>, k: int, in_matrix: bool) -> Seq<Seq<usize>>
    decreases lines.len() - k,
{
    if k >= lines.len() || k < 0 {
        seq![]
    } else if !in_matrix {
        matrix_rows(s, lines, k + 1, span_text(s, lines[k]) == "Inv(A) X B:"@)
    } else if has_number_list(span_text(s, lines[k])) {
        match word_numbers(s, token_spans(s, lines[k].0, lines[k].1)) {
            Some(numbers) => seq![numbers] + matrix_rows(s, lines, k + 1, true),
            None => seq![],
        }
    } else {
        matrix_rows(s, lines, k + 1, true)
    }
}

/// The positions of the ones of rows of numbers, the first of them being row `first`: (r, c)
/// where row r has a 1 as its c-th number.
pub open spec fn ones_of_rows(first: int, rows: Seq<Seq<usize>>) -> Set<(usize, usize)> {
    Set::new(
        |p: (usize, usize)|
            first <= p.0 < first + rows.len() && p.1 < rows[p.0 - first].len()
                && rows[p.0 - first][p.1 as int] == 1,
    )
}

/// The matrix rows of a generator matrix text are its number-list lines after the line
/// `Inv(A) X B:`, one row per line in order: each 1 in a line is a one of its row, at the
/// column of its place in the line.
pub proof fn lemma_matrix_is_the_lines_after_the_marker(
    s: Seq<char>,
    lines: Seq<(int, int)>,
    k: int,
    g: GeneratorReading,
)
    ensures
        read_generator_lines(s, lines, k, g) matches Some(f) ==> {
            let rows = matrix_rows(s, lines, k, g.in_matrix);
            &&& f.ones == g.ones.union(ones_of_rows(g.row, rows))
            &&& f.row == g.row + rows.len()
        },
    decreases lines.len() - k,
{
    if k >= lines.len() || k < 0 {
        assert(ones_of_rows(g.row, seq![]) =~= Set::<(usize, usize)>::empty());
        assert(g.ones.union(Set::<(usize, usize)>::empty()) =~= g.ones);
    } else {
        match read_generator_line(s, lines[k], g) {
            Some(next) => {
                lemma_matrix_is_the_lines_after_the_marker(s, lines, k + 1, next);
                let text = span_text(s, lines[k]);
                if g.in_matrix && has_number_list(text) {
                    let numbers = word_numbers(s, token_spans(s, lines[k].0, lines[k].1))->0;
                    let rest = matrix_rows(s, lines, k + 1, true);
                    let rows = seq![numbers] + rest;
                    assert(matrix_rows(s, lines, k, true) == rows);
                    assert forall|p: (usize, usize)| #[trigger] ones_of_rows(g.row, rows).contains(p)
                        == (row_ones(g.row, numbers).contains(p) || ones_of_rows(g.row + 1, rest).contains(p)) by {
                        if p.0 == g.row {
                            assert(rows[p.0 - g.row] == numbers);
                        } else if g.row + 1 <= p.0 < g.row + rows.len() {
                            assert(rows[p.0 - g.row] == rest[p.0 - (g.row + 1)]);
                        }
                    }
                    assert(g.ones.union(row_ones(g.row, numbers)).union(ones_of_rows(g.row + 1, rest))
                        =~= g.ones.union(ones_of_rows(g.row, rows)));
                }
            },
            None => {},
        }
    }
}

/// The ones of the generator matrix read from a text are those of its number-list lines after
/// the line `Inv(A) X B:`: line r after it is row r.
pub proof fn lemma_generator_matrix_rows(s: Seq<char>)
    ensures
        generator_reading(s) matches Some(g) ==> g.ones == ones_of_rows(
            0,
            matrix_rows(s, line_spans(s, s.len() as int), 0, false),
        ),
{
    let g0 = GeneratorReading { in_matrix: false, row: 0, ones: Set::empty(), columns: seq![] };
    lemma_matrix_is_the_lines_after_the_marker(s, line_spans(s, s.len() as int), 0, g0);
    assert(Set::<(usize, usize)>::empty().union(
        ones_of_rows(0, matrix_rows(s, line_spans(s, s.len() as int), 0, false)),
    ) =~= ones_of_rows(0, matrix_rows(s, line_spans(s, s.len() as int), 0, false)));
}

/// Reading a whole generator matrix text, from before the matrix with nothing read.
pub open spec fn generator_reading(s: Seq<char>) -> Option<GeneratorReading> {
    read_generator_lines(
        s,
        line_spans(s, s.len() as int),
        0,
        GeneratorReading { in_matrix: false, row: 0, ones: Set::empty(), columns: seq![] },
    )
}

/// Whether the characters of a span are those of a text.
fn span_is(chars: &Vec<char>, span: (usize, usize), text: &Vec<char>) -> (same: bool)
    requires
        span.0 <= span.1 <= chars@.len(),
    ensures
        same == (span_text(chars@, (span.0 as int, span.1 as int)) == text@),
{
    if span.1 - span.0 != text.len() {
        return false;
    }
    let mut i: usize = 0;
    while i < text.len()
        invariant
            span.0 <= span.1 <= chars@.len(),
            span.1 - span.0 == text@.len(),
            i <= text@.len(),
            forall|j: int| 0 <= j < i ==> chars@[span.0 + j] == text@[j],
        decreases text.len() - i,
    {
        if chars[span.0 + i] != text[i] {
            assert(span_text(chars@, (span.0 as int, span.1 as int))[i as int] != text@[i as int]);
            return false;
        }
        i += 1;
    }
    assert(span_text(chars@, (span.0 as int, span.1 as int)) =~= text@);
    true
}

/// Whether the characters of a span hold a list of numbers: a digit followed by white space.
fn span_has_number_list(chars: &Vec<char>, span: (usize, usize)) -> (found: bool)
    requires
        span.0 <= span.1 <= chars@.len(),
    ensures
        found == has_number_list(span_text(chars@, (span.0 as int, span.1 as int))),
{
    let ghost text = span_text(chars@, (span.0 as int, span.1 as int));
    let mut j: usize = span.0;
    while j < span.1 && span.1 - j > 1
        invariant
            span.0 <= j <= span.1,
            span.0 <= span.1 <= chars@.len(),
            text == span_text(chars@, (span.0 as int, span.1 as int)),
            forall|i: int| 0 <= i < j - span.0 ==> !(is_ascii_digit(#[trigger] text[i]) && is_white_space(text[i + 1])),
        decreases span.1 - j,
    {
        let c = chars[j];
        if '0' <= c && c <= '9' && white_space(chars[j + 1]) {
            assert(is_ascii_digit(text[j - span.0]) && is_white_space(text[j - span.0 + 1]));
            return true;
        }
        j += 1;
    }
    assert forall|i: int| 0 <= i < text.len() - 1 implies !(#[trigger] is_ascii_digit(text[i])
        && is_white_space(text[i + 1])) by {
        assert(i < j - span.0);
    }
    false
}

/// The numbers that the words of a line spell, or `None` if a word spells no number.
fn numbers_of_words(chars: &Vec<char>, words: &Vec<(usize, usize)>) -> (numbers: Option<Vec<usize>>)
    requires
        forall|i: int| 0 <= i < words@.len() ==> (#[trigger] words@[i]).0 <= words@[i].1 <= chars@.len(),
    ensures
        match numbers {
            Some(n) => word_numbers(chars@, span_view(words@)) == Some(n@),
            None => word_numbers(chars@, span_view(words@)) is None,
        },
{
    let ghost wv = span_view(words@);
    let mut numbers: Vec<usize> = Vec::new();
    let mut j: usize = 0;
    assert(wv.skip(0) =~= wv);
    while j < words.len()
        invariant
            wv == span_view(words@),
            forall|i: int| 0 <= i < words@.len() ==> (#[trigger] words@[i]).0 <= words@[i].1 <= chars@.len(),
            j <= words@.len(),
            word_numbers(chars@, wv) == (match word_numbers(chars@, wv.skip(j as int)) {
                Some(rest) => Some(numbers@ + rest),
                None => None,
            }),
        decreases words.len() - j,
    {
        let word = words[j];
        assert(wv.skip(j as int)[0] == (word.0 as int, word.1 as int));
        assert(wv.skip(j as int).drop_first() =~= wv.skip(j + 1));
        let value = match word_value(chars, word) {
            Some(v) => v,
            None => {
                return None;
            },
        };
        let ghost old_numbers = numbers@;
        numbers.push(value);
        proof {
            if let Some(rest) = word_numbers(chars@, wv.skip(j + 1)) {
                assert(old_numbers + (seq![value] + rest) =~= numbers@ + rest);
            }
        }
        j += 1;
    }
    assert(wv.skip(j as int) =~= Seq::<(int, int)>::empty());
    assert(numbers@ + Seq::<usize>::empty() =~= numbers@);
    Some(numbers)
}

/// Reads a generator matrix and its column order, or `None` where the text has a number list
/// with a word that is no number, or a one outside the matrix (on which `from_gen_txt` is not
/// to be called). The text is that which Radford M. Neal's LDPC-Codes `print-gen` writes: lines of numbers before the line `Inv(A) X B:` give the
/// column order; each line of numbers after it is a row of the 126 by 126 matrix.
pub fn try_from_gen_txt(gen_txt: &str) -> (outcome: Option<(SparseBinMat, Vec<usize>)>)
    ensures
        match generator_reading(gen_txt@) {
            Some(g) => outcome matches Some((m, columns)) && matrix_dimensions(m) == (
                GENERATOR_DIMENSION,
                GENERATOR_DIMENSION,
            ) && matrix_ones(m) == g.ones && columns@ == g.columns,
            None => outcome is None,
        },
{
    let chars = chars_of(gen_txt);
    let ghost s = chars@;
    let lines = split_lines(&chars);
    let ghost lv = span_view(lines@);
    let marker = chars_of("Inv(A) X B:");
    proof {
        lemma_line_spans_shape(s, s.len() as int);
    }
    let mut in_matrix = false;
    let mut columns: Vec<usize> = Vec::new();
    let mut generator = matrix_zeros(GENERATOR_DIMENSION, GENERATOR_DIMENSION);
    let mut row: usize = 0;
    let mut k: usize = 0;
    while k < lines.len()
        invariant
            chars@ == s,
            s == gen_txt@,
            marker@ == "Inv(A) X B:"@,
            lv == span_view(lines@),
            lv == line_spans(s, s.len() as int),
            k <= lines@.len(),
            row <= k,
            matrix_dimensions(generator) == (GENERATOR_DIMENSION, GENERATOR_DIMENSION),
            generator_reading(s) == read_generator_lines(
                s,
                lv,
                k as int,
                GeneratorReading {
                    in_matrix,
                    row: row as int,
                    ones: matrix_ones(generator),
                    columns: columns@,
                },
            ),
        decreases lines.len() - k,
    {
        let line = lines[k];
        proof {
            assert(lv[k as int] == (line.0 as int, line.1 as int));
            lemma_line_spans_shape(s, s.len() as int);
            assert(0 <= lv[k as int].0 <= lv[k as int].1 <= s.len());
        }
        let ghost g = GeneratorReading {
            in_matrix,
            row: row as int,
            ones: matrix_ones(generator),
            columns: columns@,
        };
        if !in_matrix {
            if span_is(&chars, line, &marker) {
                in_matrix = true;
            } else if span_has_number_list(&chars, line) {
                let words = words_of_line(&chars, &lines, k);
                let numbers = match numbers_of_words(&chars, &words) {
                    Some(numbers) => numbers,
                    None => {
                        return None;
                    },
                };
                let mut i: usize = 0;
                let ghost start_columns = columns@;
                while i < numbers.len()
                    invariant
                        i <= numbers@.len(),
                        columns@ == start_columns + numbers@.take(i as int),
                    decreases numbers.len() - i,
                {
                    columns.push(numbers[i]);
                    assert(numbers@.take(i + 1) =~= numbers@.take(i as int).push(numbers@[i as int]));
                    i += 1;
                }
                assert(numbers@.take(i as int) =~= numbers@);
            }
        } else {
            if span_has_number_list(&chars, line) {
                let words = words_of_line(&chars, &lines, k);
                let numbers = match numbers_of_words(&chars, &words) {
                    Some(numbers) => numbers,
                    None => {
                        return None;
                    },
                };
                if !row_within_matrix(row, &numbers) {
                    return None;
                }
                let ghost start_ones = matrix_ones(generator);
                let mut pos: usize = 0;
                while pos < numbers.len()
                    invariant
                        pos <= numbers@.len(),
                        matrix_dimensions(generator) == (GENERATOR_DIMENSION, GENERATOR_DIMENSION),
                        !row_out_of_bounds(row as int, numbers@),
                        matrix_ones(generator) == start_ones.union(
                            row_ones(row as int, numbers@.take(pos as int)),
                        ),
                    decreases numbers.len() - pos,
                {
                    if numbers[pos] == 1 {
                        assert(numbers@[pos as int] == 1);
                        generator = matrix_with_one(generator, row, pos);
                    }
                    assert(row_ones(row as int, numbers@.take(pos + 1)) =~= if numbers@[pos as int] == 1 {
                        row_ones(row as int, numbers@.take(pos as int)).insert((row, pos))
                    } else {
                        row_ones(row as int, numbers@.take(pos as int))
                    });
                    pos += 1;
                }
                assert(numbers@.take(pos as int) =~= numbers@);
                row += 1;
            }
        }
        assert(read_generator_line(s, lv[k as int], g) == Some(
            GeneratorReading {
                in_matrix,
                row: row as int,
                ones: matrix_ones(generator),
                columns: columns@,
            },
        ));
        k += 1;
    }
    Some((generator, columns))
}


/// Reads a generator matrix and its column order from the text that Radford M. Neal's
/// LDPC-Codes `print-gen` writes: lines of numbers before the line `Inv(A) X B:` give the
/// column order; each line of numbers after it is a row of the 126 by 126 matrix. A text that
/// `try_from_gen_txt` refuses is not accepted.
pub fn from_gen_txt(gen_txt: &str) -> (parsed: Result<(SparseBinMat, Vec<usize>), String>)
    requires
        generator_reading(gen_txt@) is Some,
    ensures
        parsed matches Ok((m, columns)) && matrix_dimensions(m) == (
            GENERATOR_DIMENSION,
            GENERATOR_DIMENSION,
        ) && matrix_ones(m) == generator_reading(gen_txt@)->0.ones && columns@ == generator_reading(
            gen_txt@,
        )->0.columns,
{
    match try_from_gen_txt(gen_txt) {
        Some(read) => Ok(read),
        None => {
            proof {
                assert(false);
            }
            Err(String::new())
        },
    }
}

/// Whether every one in a row of numbers lies inside the generator matrix.
fn row_within_matrix(row: usize, numbers: &Vec<usize>) -> (within: bool)
    ensures
        within == !row_out_of_bounds(row as int, numbers@),
{
    let mut i: usize = 0;
    while i < numbers.len()
        invariant
            i <= numbers@.len(),
            forall|j: int| 0 <= j < i ==> !(#[trigger] numbers@[j] == 1 && (row >= GENERATOR_DIMENSION
                || j >= GENERATOR_DIMENSION)),
        decreases numbers.len() - i,
    {
        if numbers[i] == 1 && (row >= GENERATOR_DIMENSION || i >= GENERATOR_DIMENSION) {
            assert(numbers@[i as int] == 1);
            return false;
        }
        i += 1;
    }
    true
}

/// Reads a number from text that spells one.
pub fn str_to_int(text: &str) -> (value: usize)
    requires
        usize_text_value(text@) is Some,
    ensures
        usize_text_value(text@) == Some(value),
{
    parse_usize(text).unwrap()
}

/// The character for the entry at (row, column): `1` for a one, else `0`.
pub open spec fn bit_char(ones: Set<(usize, usize)>, row: int, column: int) -> char {
    if ones.contains((row as usize, column as usize)) {
        '1'
    } else {
        '0'
    }
}

/// The first `n` entries of a row, each followed by a space.
pub open spec fn spaced_bits(ones: Set<(usize, usize)>, row: int, n: int) -> Seq<char>
    decreases n,
{
    if n <= 0 {
        seq![]
    } else {
        spaced_bits(ones, row, n - 1) + seq![bit_char(ones, row, n - 1), ' ']
    }
}

/// The first `n` entries of a row, separated by ", ".
pub open spec fn comma_bits(ones: Set<(usize, usize)>, row: int, n: int) -> Seq<char>
    decreases n,
{
    if n <= 0 {
        seq![]
    } else if n == 1 {
        seq![bit_char(ones, row, 0)]
    } else {
        comma_bits(ones, row, n - 1) + seq![',', ' ', bit_char(ones, row, n - 1)]
    }
}

/// The text of the entry at (row, column).
fn bit_text(m: &SparseBinMat, row: usize, column: usize) -> (text: &'static str)
    requires
        row < matrix_dimensions(*m).0,
        column < matrix_dimensions(*m).1,
    ensures
        text@ == seq![bit_char(matrix_ones(*m), row as int, column as int)],
{
    proof {
        reveal_strlit("1");
        reveal_strlit("0");
    }
    if matrix_is_one_at(m, row, column).unwrap() {
        "1"
    } else {
        "0"
    }
}

/// The entries of a row, separated by ", ".
fn comma_separated_row(m: &SparseBinMat, row: usize) -> (line: String)
    requires
        row < matrix_dimensions(*m).0,
    ensures
        line@ == comma_bits(matrix_ones(*m), row as int, matrix_dimensions(*m).1 as int),
{
    let columns = matrix_number_of_columns(m);
    let mut line = String::new();
    let mut col: usize = 0;
    while col < columns
        invariant
            columns == matrix_dimensions(*m).1,
            row < matrix_dimensions(*m).0,
            col <= columns,
            line@ == comma_bits(matrix_ones(*m), row as int, col as int),
        decreases columns - col,
    {
        let ghost before = line@;
        if col != 0 {
            line.append(", ");
        }
        line.append(bit_text(m, row, col));
        proof {
            reveal_strlit(", ");
            let b = bit_char(matrix_ones(*m), row as int, col as int);
            if col != 0 {
                assert(line@ =~= before + seq![',', ' ', b]);
            } else {
                assert(line@ =~= seq![b]);
            }
        }
        col += 1;
    }
    line
}

/// A matrix as lines of text: each entry, `1` or `0`, followed by a space.
pub fn display_matrix(source: &SparseBinMat) -> (lines: Vec<String>)
    ensures
        lines@.len() == matrix_dimensions(*source).0,
        forall|r: int| 0 <= r < lines@.len() ==> (#[trigger] lines@[r])@ == spaced_bits(
            matrix_ones(*source),
            r,
            matrix_dimensions(*source).1 as int,
        ),
{
    let rows = matrix_number_of_rows(source);
    let columns = matrix_number_of_columns(source);
    let mut out: Vec<String> = Vec::new();
    let mut row: usize = 0;
    while row < rows
        invariant
            rows == matrix_dimensions(*source).0,
            columns == matrix_dimensions(*source).1,
            row <= rows,
            out@.len() == row,
            forall|r: int| 0 <= r < out@.len() ==> (#[trigger] out@[r])@ == spaced_bits(
                matrix_ones(*source),
                r,
                columns as int,
            ),
        decreases rows - row,
    {
        let mut line = String::new();
        let mut col: usize = 0;
        while col < columns
            invariant
                rows == matrix_dimensions(*source).0,
                columns == matrix_dimensions(*source).1,
                row < rows,
                col <= columns,
                line@ == spaced_bits(matrix_ones(*source), row as int, col as int),
            decreases columns - col,
        {
            let ghost before = line@;
            line.append(bit_text(source, row, col));
            line.append(" ");
            proof {
                reveal_strlit(" ");
            }
            assert(line@ =~= before + seq![bit_char(matrix_ones(*source), row as int, col as int), ' ']);
            col += 1;
        }
        out.push(line);
        row += 1;
    }
    out
}

/// The text of a variable name followed by an opening.
fn named_opening(variable_name: &str, opening: &str) -> (line: String)
    ensures
        line@ == variable_name@ + opening@,
{
    let mut line = String::from_str(variable_name);
    line.append(opening);
    line
}

/// The row lines of a matrix literal: each row's entries separated by ", ", between `prefix`
/// and `]`, and a comma after each row but the last.
pub open spec fn bracketed_row_line(ones: Set<(usize, usize)>, prefix: Seq<char>, row: int, rows: int, columns: int) -> Seq<char> {
    prefix + comma_bits(ones, row, columns) + seq![']'] + if row != rows - 1 {
        seq![',']
    } else {
        seq![]
    }
}

fn matrix_literal_lines(source: &SparseBinMat, variable_name: &str, opening: &str, prefix: &str) -> (lines: Vec<String>)
    ensures
        lines@.len() == matrix_dimensions(*source).0 + 2,
        lines@[0]@ == variable_name@ + opening@,
        forall|r: int| 0 <= r < matrix_dimensions(*source).0 ==> (#[trigger] lines@[r + 1])@
            == bracketed_row_line(
            matrix_ones(*source),
            prefix@,
            r,
            matrix_dimensions(*source).0 as int,
            matrix_dimensions(*source).1 as int,
        ),
        lines@[matrix_dimensions(*source).0 + 1]@ == seq![']', ')'],
{
    let rows = matrix_number_of_rows(source);
    let mut out: Vec<String> = Vec::new();
    out.push(named_opening(variable_name, opening));
    let mut row: usize = 0;
    while row < rows
        invariant
            rows == matrix_dimensions(*source).0,
            row <= rows,
            out@.len() == row + 1,
            out@[0]@ == variable_name@ + opening@,
            forall|r: int| 0 <= r < row ==> (#[trigger] out@[r + 1])@ == bracketed_row_line(
                matrix_ones(*source),
                prefix@,
                r,
                rows as int,
                matrix_dimensions(*source).1 as int,
            ),
        decreases rows - row,
    {
        let mut line = String::from_str(prefix);
        let entries = comma_separated_row(source, row);
        line.append(entries.as_str());
        line.append("]");
        if row != rows - 1 {
            line.append(",");
        }
        proof {
            reveal_strlit("]");
            reveal_strlit(",");
        }
        assert(line@ =~= bracketed_row_line(
            matrix_ones(*source),
            prefix@,
            row as int,
            rows as int,
            matrix_dimensions(*source).1 as int,
        ));
        let ghost before = out@;
        out.push(line);
        assert forall|r: int| 0 <= r < row + 1 implies (#[trigger] out@[r + 1])@ == bracketed_row_line(
            matrix_ones(*source),
            prefix@,
            r,
            rows as int,
            matrix_dimensions(*source).1 as int,
        ) by {
            if r < row {
                assert(out@[r + 1] == before[r + 1]);
            }
        }
        row += 1;
    }
    out.push(String::from_str("])"));
    proof {
        reveal_strlit("])");
    }
    out
}

/// A matrix as the Python lines that make it a numpy array named `variable_name`.
pub fn display_numpy_matrix(source: &SparseBinMat, variable_name: &str) -> (lines: Vec<String>)
    ensures
        lines@.len() == matrix_dimensions(*source).0 + 2,
        lines@[0]@ == variable_name@ + " = np.array(["@,
        forall|r: int| 0 <= r < matrix_dimensions(*source).0 ==> (#[trigger] lines@[r + 1])@
            == bracketed_row_line(
            matrix_ones(*source),
            "              ["@,
            r,
            matrix_dimensions(*source).0 as int,
            matrix_dimensions(*source).1 as int,
        ),
        lines@[matrix_dimensions(*source).0 + 1]@ == seq![']', ')'],
{
    matrix_literal_lines(source, variable_name, " = np.array([", "              [")
}

/// A matrix as the SageMath lines that make it a matrix over GF(2) named `variable_name`.
pub fn display_sagemath_matrix(source: &SparseBinMat, variable_name: &str) -> (lines: Vec<String>)
    ensures
        lines@.len() == matrix_dimensions(*source).0 + 2,
        lines@[0]@ == variable_name@ + " = matrix(GF(2), ["@,
        forall|r: int| 0 <= r < matrix_dimensions(*source).0 ==> (#[trigger] lines@[r + 1])@
            == bracketed_row_line(
            matrix_ones(*source),
            "["@,
            r,
            matrix_dimensions(*source).0 as int,
            matrix_dimensions(*source).1 as int,
        ),
        lines@[matrix_dimensions(*source).0 + 1]@ == seq![']', ')'],
{
    matrix_literal_lines(source, variable_name, " = matrix(GF(2), [", "[")
}


/// The text of a vector's entries: `1` for a one, `0` for a zero.
pub open spec fn bits_text(bits: Seq<bool>) -> Seq<char> {
    bits.map_values(|bit: bool| if bit {
        '1'
    } else {
        '0'
    })
}

/// A vector as text: each entry, `1` or `0`, in order.
pub fn sparsebinvec_to_display(vec: &SparseBinVec) -> (out: String)
    ensures
        out@ == bits_text(vector_bits(*vec)),
{
    let bits = vector_dense_bits(vec);
    let mut out = String::new();
    let mut i: usize = 0;
    while i < bits.len()
        invariant
            i <= bits@.len(),
            out@ == bits_text(bits@.take(i as int)),
        decreases bits.len() - i,
    {
        proof {
            reveal_strlit("1");
            reveal_strlit("0");
        }
        if bits[i] {
            out.append("1");
        } else {
            out.append("0");
        }
        assert(bits_text(bits@.take(i + 1)) =~= bits_text(bits@.take(i as int)) + seq![
            if bits@[i as int] {
                '1'
            } else {
                '0'
            },
        ]);
        i += 1;
    }
    assert(bits@.take(i as int) =~= bits@);
    out
}


/// The 0-based columns of the ones among the first `n` entries of a row, each followed by ", ".
pub open spec fn one_columns_text(ones: Set<(usize, usize)>, row: int, n: int) -> Seq<char>
    decreases n,
{
    if n <= 0 {
        seq![]
    } else {
        one_columns_text(ones, row, n - 1) + if ones.contains((row as usize, (n - 1) as usize)) {
            decimal_text((n - 1) as nat) + ", "@
        } else {
            seq![]
        }
    }
}

/// The first `n` rows of a matrix as Rust `vec!` literals of the columns of their ones, one
/// per line.
pub open spec fn rust_rows_text(ones: Set<(usize, usize)>, n: int, columns: int) -> Seq<char>
    decreases n,
{
    if n <= 0 {
        seq![]
    } else {
        rust_rows_text(ones, n - 1, columns) + "      vec!["@ + one_columns_text(ones, n - 1, columns)
            + "],\n"@
    }
}

/// The imports and the opening of the `lazy_static!` block of generated code.
pub open spec fn rust_prelude_text() -> Seq<char> {
    "extern crate lazy_static;\n"@ + "use lazy_static::lazy_static;\n"@
        + "use ldpc::codes::LinearCode;\n"@ + "use sparse_bin_mat::SparseBinMat;\n"@ + "\n"@
        + "lazy_static! {\n"@
}

/// The number of columns and the rows of a matrix, as the arguments of `SparseBinMat::new`.
pub open spec fn rust_matrix_arguments_text(ones: Set<(usize, usize)>, rows: int, columns: int) -> Seq<char> {
    "    "@ + decimal_text(columns as nat) + ",\n"@ + "    vec![\n"@ + rust_rows_text(ones, rows, columns)
}

/// Rust code that makes `LDPC` a linear code from a parity check matrix.
pub open spec fn rust_for_matrix_text(ones: Set<(usize, usize)>, rows: int, columns: int, source_name: Seq<char>) -> Seq<char> {
    "// Autogenerated from "@ + source_name + "\n"@ + rust_prelude_text()
        + "  pub static ref LDPC: LinearCode = LinearCode::from_parity_check_matrix(SparseBinMat::new(\n"@
        + rust_matrix_arguments_text(ones, rows, columns) + "    ]\n"@ + "  ));\n"@ + "}\n"@
}

/// Numbers, each followed by ", ".
pub open spec fn numbers_text(numbers: Seq<usize>) -> Seq<char>
    decreases numbers.len(),
{
    if numbers.len() == 0 {
        seq![]
    } else {
        numbers_text(numbers.drop_last()) + decimal_text(numbers.last() as nat) + ", "@
    }
}

/// Rust code that makes `LDPC` a linear code from a generator matrix and a parity check matrix,
/// and `LDPC_DECODE_COLUMNS` the column order.
pub open spec fn rust_for_ldpc_init_text(
    pcm: SparseBinMat,
    gm: SparseBinMat,
    columns: Seq<usize>,
    pcm_name: Seq<char>,
    gm_name: Seq<char>,
) -> Seq<char> {
    "// Autogenerated from "@ + pcm_name + " and "@ + gm_name + "\n"@ + rust_prelude_text()
        + "  pub static ref LDPC: LinearCode = LinearCode::from_both_matrices(SparseBinMat::new(\n"@
        + rust_matrix_arguments_text(
        matrix_ones(gm),
        matrix_dimensions(gm).0 as int,
        matrix_dimensions(gm).1 as int,
    ) + "    ]), SparseBinMat::new(\n"@ + rust_matrix_arguments_text(
        matrix_ones(pcm),
        matrix_dimensions(pcm).0 as int,
        matrix_dimensions(pcm).1 as int,
    ) + "    ]\n"@ + "  ));\n"@ + "  pub static ref LDPC_DECODE_COLUMNS: Vec<usize> = vec![\n    "@
        + numbers_text(columns) + "\n  ];\n"@ + "} // lazy_static! \n"@
}

fn append_rust_prelude(code: &mut String)
    ensures
        final(code)@ == old(code)@ + rust_prelude_text(),
{
    code.append("extern crate lazy_static;\n");
    code.append("use lazy_static::lazy_static;\n");
    code.append("use ldpc::codes::LinearCode;\n");
    code.append("use sparse_bin_mat::SparseBinMat;\n");
    code.append("\n");
    code.append("lazy_static! {\n");
    assert(code@ =~= old(code)@ + rust_prelude_text());
}

fn append_rust_matrix_arguments(code: &mut String, m: &SparseBinMat)
    ensures
        final(code)@ == old(code)@ + rust_matrix_arguments_text(
            matrix_ones(*m),
            matrix_dimensions(*m).0 as int,
            matrix_dimensions(*m).1 as int,
        ),
{
    let rows = matrix_number_of_rows(m);
    let columns = matrix_number_of_columns(m);
    code.append("    ");
    append_decimal(code, columns);
    code.append(",\n");
    code.append("    vec![\n");
    let ghost head = code@;
    let mut row: usize = 0;
    while row < rows
        invariant
            rows == matrix_dimensions(*m).0,
            columns == matrix_dimensions(*m).1,
            row <= rows,
            code@ == head + rust_rows_text(matrix_ones(*m), row as int, columns as int),
        decreases rows - row,
    {
        code.append("      vec![");
        let ghost line_head = code@;
        let mut col: usize = 0;
        while col < columns
            invariant
                rows == matrix_dimensions(*m).0,
                columns == matrix_dimensions(*m).1,
                row < rows,
                col <= columns,
                code@ == line_head + one_columns_text(matrix_ones(*m), row as int, col as int),
            decreases columns - col,
        {
            if matrix_is_one_at(m, row, col).unwrap() {
                append_decimal(code, col);
                code.append(", ");
            }
            col += 1;
        }
        code.append("],\n");
        assert(code@ =~= head + rust_rows_text(matrix_ones(*m), row + 1, columns as int));
        row += 1;
    }
    assert(code@ =~= old(code)@ + rust_matrix_arguments_text(
        matrix_ones(*m),
        rows as int,
        columns as int,
    ));
}

/// Rust code that makes `LDPC` a linear code from the parity check matrix `source`, noting
/// where it came from.
pub fn rust_for_matrix(source: &SparseBinMat, source_name: &str) -> (code: String)
    ensures
        code@ == rust_for_matrix_text(
            matrix_ones(*source),
            matrix_dimensions(*source).0 as int,
            matrix_dimensions(*source).1 as int,
            source_name@,
        ),
{
    let mut code = String::from_str("// Autogenerated from ");
    code.append(source_name);
    code.append("\n");
    append_rust_prelude(&mut code);
    code.append("  pub static ref LDPC: LinearCode = LinearCode::from_parity_check_matrix(SparseBinMat::new(\n");
    append_rust_matrix_arguments(&mut code, source);
    code.append("    ]\n");
    code.append("  ));\n");
    code.append("}\n");
    code
}

/// Rust code that makes `LDPC` a linear code from the generator matrix `systematic_gm` and the
/// parity check matrix `pcm`, and `LDPC_DECODE_COLUMNS` the column order `cols`, noting where
/// they came from.
pub fn rust_for_ldpc_init(
    pcm: &SparseBinMat,
    systematic_gm: &SparseBinMat,
    cols: &Vec<usize>,
    parity_check_source_name: &str,
    generator_source_name: &str,
) -> (code: String)
    ensures
        code@ == rust_for_ldpc_init_text(
            *pcm,
            *systematic_gm,
            cols@,
            parity_check_source_name@,
            generator_source_name@,
        ),
{
    let mut code = String::from_str("// Autogenerated from ");
    code.append(parity_check_source_name);
    code.append(" and ");
    code.append(generator_source_name);
    code.append("\n");
    append_rust_prelude(&mut code);
    code.append("  pub static ref LDPC: LinearCode = LinearCode::from_both_matrices(SparseBinMat::new(\n");
    append_rust_matrix_arguments(&mut code, systematic_gm);
    code.append("    ]), SparseBinMat::new(\n");
    append_rust_matrix_arguments(&mut code, pcm);
    code.append("    ]\n");
    code.append("  ));\n");
    code.append("  pub static ref LDPC_DECODE_COLUMNS: Vec<usize> = vec![\n    ");
    let ghost head = code@;
    let mut i: usize = 0;
    while i < cols.len()
        invariant
            i <= cols@.len(),
            code@ == head + numbers_text(cols@.take(i as int)),
        decreases cols.len() - i,
    {
        append_decimal(&mut code, cols[i]);
        code.append(", ");
        assert(cols@.take(i + 1).drop_last() =~= cols@.take(i as int));
        assert(code@ =~= head + numbers_text(cols@.take(i + 1)));
        i += 1;
    }
    assert(cols@.take(i as int) =~= cols@);
    code.append("\n  ];\n");
    code.append("} // lazy_static! \n");
    code
}


/// The graph's opening, up to the check nodes.
pub open spec fn dot_opening_text() -> Seq<char> {
    "\ngraph G {\n   ranksep = 1.2;\n   nodesep = 1.2;\n   splines=false;\n   rankdir = LR;\n   peripheries = 0;\n   subgraph cluster_checks {\n      node[shape=square, style=filled]\n"@
}

/// Between the check nodes and the bit nodes.
pub open spec fn dot_middle_text() -> Seq<char> {
    "\n   }\n   subgraph cluster_padding1 {\n      color=invis;\n      a12m [style=invisible]\n   }\n   subgraph cluster_padding2 {\n      color=invis;\n      a22m [style=invisible]\n   }\n   subgraph cluster_bits {\n      node[shape=circle, style=filled]\n"@
}

/// The first `k` node declarations: `kind` and each node's 1-based number, then `attributes`.
pub open spec fn nodes_text(kind: Seq<char>, attributes: Seq<char>, k: int) -> Seq<char>
    decreases k,
{
    if k <= 0 {
        seq![]
    } else {
        nodes_text(kind, attributes, k - 1) + "      "@ + kind + decimal_text(k as nat) + attributes
    }
}

/// The first `k` of `n` nodes named `kind` and their 1-based numbers, joined by `--`.
pub open spec fn chain_text(kind: Seq<char>, k: int, n: int) -> Seq<char>
    decreases k,
{
    if k <= 0 {
        seq![]
    } else {
        chain_text(kind, k - 1, n) + kind + decimal_text(k as nat) + if k - 1 != n - 1 {
            "--"@
        } else {
            seq![]
        }
    }
}

/// The edge from check `row + 1` to bit `column + 1`.
pub open spec fn edge_text(row: int, column: int) -> Seq<char> {
    "   check"@ + decimal_text((row + 1) as nat) + "--bit"@ + decimal_text((column + 1) as nat)
        + " [constraint=false]\n"@
}

/// Where the same text follows the same head, a run of digits ended by a non-digit is the
/// same run, and what follows it is the same.
proof fn lemma_same_digit_run(head: Seq<char>, d1: Seq<char>, d2: Seq<char>, rest1: Seq<char>, rest2: Seq<char>)
    requires
        head + d1 + rest1 == head + d2 + rest2,
        all_ascii_digits(d1),
        all_ascii_digits(d2),
        rest1.len() > 0 && !is_ascii_digit(rest1[0]),
        rest2.len() > 0 && !is_ascii_digit(rest2[0]),
    ensures
        d1 == d2,
        rest1 == rest2,
{
    let x = head + d1 + rest1;
    let y = head + d2 + rest2;
    let h = head.len() as int;
    if d1.len() < d2.len() {
        assert(x[h + d1.len()] == rest1[0]);
        assert(y[h + d1.len()] == d2[d1.len() as int]);
        assert(false);
    }
    if d2.len() < d1.len() {
        assert(y[h + d2.len()] == rest2[0]);
        assert(x[h + d2.len()] == d1[d2.len() as int]);
        assert(false);
    }
    assert(d1 =~= x.subrange(h, h + d1.len()));
    assert(d2 =~= y.subrange(h, h + d2.len()));
    assert(rest1 =~= x.subrange(h + d1.len(), x.len() as int));
    assert(rest2 =~= y.subrange(h + d2.len(), y.len() as int));
}

/// Each edge has a line of its own: two edges with the same line join the same check node
/// (row + 1) to the same bit node (column + 1).
pub proof fn lemma_edge_lines_are_distinct(row1: nat, column1: nat, row2: nat, column2: nat)
    requires
        edge_text(row1 as int, column1 as int) == edge_text(row2 as int, column2 as int),
    ensures
        row1 == row2,
        column1 == column2,
{
    let d1 = decimal_text(row1 + 1);
    let d2 = decimal_text(row2 + 1);
    let e1 = decimal_text(column1 + 1);
    let e2 = decimal_text(column2 + 1);
    lemma_decimal_text_digits(row1 + 1);
    lemma_decimal_text_digits(row2 + 1);
    lemma_decimal_text_digits(column1 + 1);
    lemma_decimal_text_digits(column2 + 1);
    let head = "   check"@;
    let bit = "--bit"@;
    let tail = " [constraint=false]\n"@;
    reveal_strlit("   check");
    reveal_strlit("--bit");
    reveal_strlit(" [constraint=false]\n");
    assert(edge_text(row1 as int, column1 as int) =~= head + d1 + (bit + e1 + tail));
    assert(edge_text(row2 as int, column2 as int) =~= head + d2 + (bit + e2 + tail));
    lemma_same_digit_run(head, d1, d2, bit + e1 + tail, bit + e2 + tail);
    assert(bit + e1 + tail =~= bit + e1 + tail);
    lemma_same_digit_run(bit, e1, e2, tail, tail);
    lemma_decimal_text_reads_back(row1 + 1);
    lemma_decimal_text_reads_back(row2 + 1);
    lemma_decimal_text_reads_back(column1 + 1);
    lemma_decimal_text_reads_back(column2 + 1);
}

/// The edges of the first `n` entries of a row: one for each one.
pub open spec fn row_edges_text(ones: Set<(usize, usize)>, row: int, n: int) -> Seq<char>
    decreases n,
{
    if n <= 0 {
        seq![]
    } else {
        row_edges_text(ones, row, n - 1) + if ones.contains((row as usize, (n - 1) as usize)) {
            edge_text(row, n - 1)
        } else {
            seq![]
        }
    }
}

/// The edges of the first `n` rows.
pub open spec fn edges_text(ones: Set<(usize, usize)>, n: int, columns: int) -> Seq<char>
    decreases n,
{
    if n <= 0 {
        seq![]
    } else {
        edges_text(ones, n - 1, columns) + row_edges_text(ones, n - 1, columns)
    }
}

/// The edge lines of a sequence of (row, column) edges, one after another.
pub open spec fn edge_lines(edges: Seq<(int, int)>) -> Seq<char>
    decreases edges.len(),
{
    if edges.len() == 0 {
        seq![]
    } else {
        edge_lines(edges.drop_last()) + edge_text(edges.last().0, edges.last().1)
    }
}

/// The ones among the first `n` entries of a row, as (row, column) edges in column order.
pub open spec fn row_edges(ones: Set<(usize, usize)>, row: int, n: int) -> Seq<(int, int)>
    decreases n,
{
    if n <= 0 {
        seq![]
    } else {
        row_edges(ones, row, n - 1) + if ones.contains((row as usize, (n - 1) as usize)) {
            seq![(row, n - 1)]
        } else {
            seq![]
        }
    }
}

/// The ones of the first `n` rows, as (row, column) edges in row and then column order.
pub open spec fn matrix_edges(ones: Set<(usize, usize)>, n: int, columns: int) -> Seq<(int, int)>
    decreases n,
{
    if n <= 0 {
        seq![]
    } else {
        matrix_edges(ones, n - 1, columns) + row_edges(ones, n - 1, columns)
    }
}

/// Whether one edge comes before another: by row, then by column.
pub open spec fn edge_before(a: (int, int), b: (int, int)) -> bool {
    a.0 < b.0 || (a.0 == b.0 && a.1 < b.1)
}

proof fn lemma_edge_lines_concat(a: Seq<(int, int)>, b: Seq<(int, int)>)
    ensures
        edge_lines(a + b) == edge_lines(a) + edge_lines(b),
    decreases b.len(),
{
    if b.len() == 0 {
        assert(a + b =~= a);
        assert(edge_lines(a) + seq![] =~= edge_lines(a));
    } else {
        lemma_edge_lines_concat(a, b.drop_last());
        assert((a + b).drop_last() =~= a + b.drop_last());
        assert(edge_lines(a) + edge_lines(b.drop_last()) + edge_text(b.last().0, b.last().1)
            =~= edge_lines(a) + (edge_lines(b.drop_last()) + edge_text(b.last().0, b.last().1)));
    }
}

proof fn lemma_row_edges(ones: Set<(usize, usize)>, row: int, n: int)
    requires
        0 <= row <= usize::MAX,
        n <= usize::MAX + 1,
    ensures
        row_edges_text(ones, row, n) == edge_lines(row_edges(ones, row, n)),
        forall|i: int|
            0 <= i < row_edges(ones, row, n).len() ==> {
                let e = #[trigger] row_edges(ones, row, n)[i];
                &&& e.0 == row
                &&& 0 <= e.1 < n
                &&& ones.contains((row as usize, e.1 as usize))
            },
        forall|c: int|
            0 <= c < n && ones.contains((row as usize, c as usize)) ==> #[trigger] row_edges(ones, row, n).contains((row, c)),
        forall|i: int, j: int|
            0 <= i < j < row_edges(ones, row, n).len() ==> edge_before(
                #[trigger] row_edges(ones, row, n)[i],
                #[trigger] row_edges(ones, row, n)[j],
            ),
    decreases n,
{
    if n > 0 {
        lemma_row_edges(ones, row, n - 1);
        let prev = row_edges(ones, row, n - 1);
        let cur = row_edges(ones, row, n);
        if ones.contains((row as usize, (n - 1) as usize)) {
            lemma_edge_lines_concat(prev, seq![(row, n - 1)]);
            assert(seq![(row, n - 1)].drop_last() =~= Seq::<(int, int)>::empty());
            assert(edge_lines(Seq::<(int, int)>::empty()) =~= Seq::<char>::empty());
            assert(edge_lines(seq![(row, n - 1)]) =~= edge_text(row, n - 1));
            assert(cur[cur.len() - 1] == (row, n - 1));
        } else {
            assert(cur =~= prev);
        }
        assert forall|i: int| 0 <= i < cur.len() implies {
            let e = #[trigger] cur[i];
            &&& e.0 == row
            &&& 0 <= e.1 < n
            &&& ones.contains((row as usize, e.1 as usize))
        } by {
            if i < prev.len() {
                assert(cur[i] == prev[i]);
            }
        }
        assert forall|c: int| 0 <= c < n && ones.contains((row as usize, c as usize)) implies #[trigger] cur.contains((row, c)) by {
            if c < n - 1 {
                assert(prev.contains((row, c)));
                let i = choose|i: int| 0 <= i < prev.len() && prev[i] == (row, c);
                assert(cur[i] == (row, c));
            } else {
                assert(cur[cur.len() - 1] == (row, c));
            }
        }
        assert forall|i: int, j: int| 0 <= i < j < cur.len() implies edge_before(#[trigger] cur[i], #[trigger] cur[j]) by {
            if j < prev.len() {
                assert(cur[i] == prev[i] && cur[j] == prev[j]);
            } else {
                assert(cur[i] == prev[i]);
                assert(prev[i].1 < n - 1);
            }
        }
    } else {
        assert(row_edges(ones, row, n) =~= Seq::<(int, int)>::empty());
    }
}

proof fn lemma_matrix_edges(ones: Set<(usize, usize)>, n: int, columns: int)
    requires
        n <= usize::MAX + 1,
        0 <= columns <= usize::MAX + 1,
    ensures
        edges_text(ones, n, columns) == edge_lines(matrix_edges(ones, n, columns)),
        forall|i: int|
            0 <= i < matrix_edges(ones, n, columns).len() ==> {
                let e = #[trigger] matrix_edges(ones, n, columns)[i];
                &&& 0 <= e.0 < n
                &&& 0 <= e.1 < columns
                &&& ones.contains((e.0 as usize, e.1 as usize))
            },
        forall|r: int, c: int|
            0 <= r < n && 0 <= c < columns && ones.contains((r as usize, c as usize))
                ==> #[trigger] matrix_edges(ones, n, columns).contains((r, c)),
        forall|i: int, j: int|
            0 <= i < j < matrix_edges(ones, n, columns).len() ==> edge_before(
                #[trigger] matrix_edges(ones, n, columns)[i],
                #[trigger] matrix_edges(ones, n, columns)[j],
            ),
    decreases n,
{
    if n > 0 {
        lemma_matrix_edges(ones, n - 1, columns);
        lemma_row_edges(ones, n - 1, columns);
        let prev = matrix_edges(ones, n - 1, columns);
        let row = row_edges(ones, n - 1, columns);
        let cur = matrix_edges(ones, n, columns);
        lemma_edge_lines_concat(prev, row);
        assert forall|i: int| 0 <= i < cur.len() implies {
            let e = #[trigger] cur[i];
            &&& 0 <= e.0 < n
            &&& 0 <= e.1 < columns
            &&& ones.contains((e.0 as usize, e.1 as usize))
        } by {
            if i < prev.len() {
                assert(cur[i] == prev[i]);
            } else {
                assert(cur[i] == row[i - prev.len()]);
            }
        }
        assert forall|r: int, c: int|
            0 <= r < n && 0 <= c < columns && ones.contains((r as usize, c as usize)) implies #[trigger] cur.contains((r, c)) by {
            if r < n - 1 {
                assert(prev.contains((r, c)));
                let i = choose|i: int| 0 <= i < prev.len() && prev[i] == (r, c);
                assert(cur[i] == (r, c));
            } else {
                assert(row.contains((r, c)));
                let i = choose|i: int| 0 <= i < row.len() && row[i] == (r, c);
                assert(cur[prev.len() + i] == (r, c));
            }
        }
        assert forall|i: int, j: int| 0 <= i < j < cur.len() implies edge_before(#[trigger] cur[i], #[trigger] cur[j]) by {
            if j < prev.len() {
                assert(cur[i] == prev[i] && cur[j] == prev[j]);
            } else if i >= prev.len() {
                assert(cur[i] == row[i - prev.len()] && cur[j] == row[j - prev.len()]);
            } else {
                assert(cur[i] == prev[i] && cur[j] == row[j - prev.len()]);
            }
        }
    } else {
        assert(matrix_edges(ones, n, columns) =~= Seq::<(int, int)>::empty());
    }
}

/// The edges of a Tanner graph are exactly the ones of the matrix, each once: the edge text is
/// the edge lines of a sequence of (row, column) positions, in row and then column order, that
/// holds each position of a one inside the matrix and no other.
pub proof fn lemma_tanner_edges_are_the_ones(ones: Set<(usize, usize)>, rows: usize, columns: usize)
    ensures
        exists|edges: Seq<(int, int)>|
            {
                &&& edges_text(ones, rows as int, columns as int) == edge_lines(edges)
                &&& forall|i: int, j: int|
                    0 <= i < j < edges.len() ==> edge_before(#[trigger] edges[i], #[trigger] edges[j])
                &&& forall|r: int, c: int|
                    #[trigger] edges.contains((r, c)) <==> (0 <= r < rows && 0 <= c < columns
                        && ones.contains((r as usize, c as usize)))
            },
{
    lemma_matrix_edges(ones, rows as int, columns as int);
    let edges = matrix_edges(ones, rows as int, columns as int);
    assert forall|r: int, c: int|
        #[trigger] edges.contains((r, c)) <==> (0 <= r < rows && 0 <= c < columns && ones.contains(
            (r as usize, c as usize),
        )) by {
        if edges.contains((r, c)) {
            let i = choose|i: int| 0 <= i < edges.len() && edges[i] == (r, c);
            assert(edges[i] == (r, c));
        }
    }
}

/// The Graphviz text of a matrix's Tanner graph: a check node per row, a bit node per column,
/// and an edge for each one.
pub open spec fn tanner_graph_text(ones: Set<(usize, usize)>, rows: int, columns: int) -> Seq<char> {
    dot_opening_text() + nodes_text("check"@, " [label=\"\",fillcolor=lightgray]\n"@, rows)
        + "      "@ + chain_text("check"@, rows, rows) + "  [style=invis]"@ + dot_middle_text()
        + nodes_text("bit"@, " [label=\"\",fillcolor=white]\n"@, columns) + "      "@ + chain_text(
        "bit"@,
        columns,
        columns,
    ) + " [style=invis]\n   }\n"@ + edges_text(ones, rows, columns) + "}\n"@
}

fn append_nodes(dot: &mut String, kind: &str, attributes: &str, n: usize)
    ensures
        final(dot)@ == old(dot)@ + nodes_text(kind@, attributes@, n as int),
{
    let mut i: usize = 0;
    while i < n
        invariant
            i <= n,
            dot@ == old(dot)@ + nodes_text(kind@, attributes@, i as int),
        decreases n - i,
    {
        dot.append("      ");
        dot.append(kind);
        append_decimal(dot, i + 1);
        dot.append(attributes);
        assert(dot@ =~= old(dot)@ + nodes_text(kind@, attributes@, i + 1));
        i += 1;
    }
}

fn append_chain(dot: &mut String, kind: &str, n: usize)
    ensures
        final(dot)@ == old(dot)@ + chain_text(kind@, n as int, n as int),
{
    let mut i: usize = 0;
    while i < n
        invariant
            i <= n,
            dot@ == old(dot)@ + chain_text(kind@, i as int, n as int),
        decreases n - i,
    {
        dot.append(kind);
        append_decimal(dot, i + 1);
        if i != n - 1 {
            dot.append("--");
        }
        assert(dot@ =~= old(dot)@ + chain_text(kind@, i + 1, n as int));
        i += 1;
    }
}

/// The Graphviz text of a matrix's Tanner graph (for `dot` to draw): a check node per row, a
/// bit node per column, and an edge from a check to a bit for each one.
pub fn tanner_graph(source: &SparseBinMat) -> (dot: String)
    ensures
        dot@ == tanner_graph_text(
            matrix_ones(*source),
            matrix_dimensions(*source).0 as int,
            matrix_dimensions(*source).1 as int,
        ),
{
    let rows = matrix_number_of_rows(source);
    let columns = matrix_number_of_columns(source);
    let mut dot = String::from_str("\ngraph G {\n   ranksep = 1.2;\n   nodesep = 1.2;\n   splines=false;\n   rankdir = LR;\n   peripheries = 0;\n   subgraph cluster_checks {\n      node[shape=square, style=filled]\n");
    // check nodes (one per row)
    append_nodes(&mut dot, "check", " [label=\"\",fillcolor=lightgray]\n", rows);
    dot.append("      ");
    append_chain(&mut dot, "check", rows);
    dot.append("  [style=invis]");
    dot.append("\n   }\n   subgraph cluster_padding1 {\n      color=invis;\n      a12m [style=invisible]\n   }\n   subgraph cluster_padding2 {\n      color=invis;\n      a22m [style=invisible]\n   }\n   subgraph cluster_bits {\n      node[shape=circle, style=filled]\n");
    // bit nodes (one per column)
    append_nodes(&mut dot, "bit", " [label=\"\",fillcolor=white]\n", columns);
    dot.append("      ");
    append_chain(&mut dot, "bit", columns);
    dot.append(" [style=invis]\n   }\n");
    // edges
    let ghost head = dot@;
    let mut row: usize = 0;
    while row < rows
        invariant
            rows == matrix_dimensions(*source).0,
            columns == matrix_dimensions(*source).1,
            row <= rows,
            dot@ == head + edges_text(matrix_ones(*source), row as int, columns as int),
        decreases rows - row,
    {
        let ghost row_head = dot@;
        let mut col: usize = 0;
        while col < columns
            invariant
                rows == matrix_dimensions(*source).0,
                columns == matrix_dimensions(*source).1,
                row < rows,
                col <= columns,
                dot@ == row_head + row_edges_text(matrix_ones(*source), row as int, col as int),
            decreases columns - col,
        {
            if matrix_is_one_at(source, row, col).unwrap() {
                dot.append("   check");
                append_decimal(&mut dot, row + 1);
                dot.append("--bit");
                append_decimal(&mut dot, col + 1);
                dot.append(" [constraint=false]\n");
            }
            assert(dot@ =~= row_head + row_edges_text(matrix_ones(*source), row as int, col + 1));
            col += 1;
        }
        assert(dot@ =~= head + edges_text(matrix_ones(*source), row + 1, columns as int));
        row += 1;
    }
    dot.append("}\n");
    assert(dot@ =~= tanner_graph_text(matrix_ones(*source), rows as int, columns as int));
    dot
}

} // verus!
