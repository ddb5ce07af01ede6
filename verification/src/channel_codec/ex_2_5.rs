use vstd::prelude::*;
use sparse_bin_mat::SparseBinMat;
use crate::channel_codec::ldpc_util::{matrix_dimensions, matrix_new, matrix_ones, rows_ones};

verus! {

/// The positions of the ones of the parity check matrix of example 2.5 in Sarah J. Johnson's
/// "Introducing Low-Density Parity-Check Codes".
pub open spec fn example_2_5_ones() -> Set<(usize, usize)> {
    set![
        (0usize, 0usize), (0, 1), (0, 3),
        (1, 1), (1, 2), (1, 4),
        (2, 0), (2, 4), (2, 5),
        (3, 2), (3, 3), (3, 5),
    ]
}

/// A row of three ones, at the given columns.
fn three_ones(a: usize, b: usize, c: usize) -> (row: Vec<usize>)
    ensures
        row@ == seq![a, b, c],
{
    let mut row: Vec<usize> = Vec::new();
    row.push(a);
    row.push(b);
    row.push(c);
    row
}

/// The parity check matrix of example 2.5 in Sarah J. Johnson's "Introducing Low-Density
/// Parity-Check Codes": 4 rows of 6 columns.
pub fn example_2_5_parity_check_matrix() -> (m: SparseBinMat)
    ensures
        matrix_dimensions(m) == (4usize, 6usize),
        matrix_ones(m) == example_2_5_ones(),
{
    let mut rows: Vec<Vec<usize>> = Vec::new();
    rows.push(three_ones(0, 1, 3));
    rows.push(three_ones(1, 2, 4));
    rows.push(three_ones(0, 4, 5));
    rows.push(three_ones(2, 3, 5));
    let ghost views = rows@.map_values(|row: Vec<usize>| row@);
    assert(views =~= seq![seq![0usize, 1, 3], seq![1usize, 2, 4], seq![0usize, 4, 5], seq![2usize, 3, 5]]);
    let m = matrix_new(6, rows);
    proof {
        assert forall|p: (usize, usize)| #[trigger] rows_ones(views).contains(p) == example_2_5_ones().contains(p) by {
            if p.0 < 4 {
                let row = views[p.0 as int];
                if row.contains(p.1) {
                    let i = choose|i: int| 0 <= i < row.len() && row[i] == p.1;
                    assert(0 <= i < 3);
                }
                if example_2_5_ones().contains(p) {
                    if p.1 == row[0] {
                        assert(row.contains(p.1));
                    } else if p.1 == row[1] {
                        assert(row.contains(p.1));
                    } else {
                        assert(row[2] == p.1);
                        assert(row.contains(p.1));
                    }
                }
            }
        }
        assert(rows_ones(views) =~= example_2_5_ones());
    }
    m
}

} // verus!
