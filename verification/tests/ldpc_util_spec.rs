use digimorse::channel_codec::ldpc_util::{
    display_matrix, display_numpy_matrix, display_sagemath_matrix, from_alist, from_gen_txt, rust_for_ldpc_init,
    rust_for_matrix, sparsebinvec_to_display, str_to_int, tanner_graph, try_from_alist, try_from_gen_txt,
};
use sparse_bin_mat::{SparseBinMat, SparseBinVec};

// The parity check matrix
//  1 0 1 1 1 1
//  1 1 1 1 1 0
//  1 1 1 0 0 1
//  0 1 0 1 1 1
const SMALL_ALIST: &str = "4 6
5 3
5 5 4 4
3 3 3 3 3 3
1 3 4 5 6
1 2 3 4 5
1 2 3 6
2 4 5 6
1 2 3
2 3 4
1 2 3
1 2 4
1 2 4
1 3 4
";

fn small_matrix() -> SparseBinMat {
    SparseBinMat::new(6, vec![vec![0, 2, 3, 4, 5], vec![0, 1, 2, 3, 4], vec![0, 1, 2, 5], vec![1, 3, 4, 5]])
}

#[test]
fn alist_is_read_into_a_matrix() {
    let matrix = from_alist(SMALL_ALIST).unwrap();
    assert_eq!(matrix.number_of_rows(), 4);
    assert_eq!(matrix.number_of_columns(), 6);
    assert_eq!(matrix, small_matrix());
}

#[test]
fn alist_errors() {
    assert_eq!(from_alist("").unwrap_err(), "alist first line (dimensions) does not contain enough elements");
    assert_eq!(from_alist("4").unwrap_err(), "alist first line (dimensions) does not contain enough elements");
    assert_eq!(from_alist("four 6").unwrap_err(), "nrows is not a number");
    assert_eq!(from_alist("4 six").unwrap_err(), "ncols is not a number");
    assert_eq!(
        from_alist("1 1\n1 1\n1\n1\n").unwrap_err(),
        "alist does not contain expected number of lines (expecting column data)"
    );
    assert_eq!(
        from_alist("2 1\n1 1\n1 1\n2\n1").unwrap_err(),
        "alist does not contain expected number of lines (expecting row data)"
    );
    assert_eq!(from_alist("1 1\n1 1\n1\n1\nx\n1\n").unwrap_err(), "col value is not a number");
    assert_eq!(from_alist("1 1\n1 1\n1\n1\n1\ny\n").unwrap_err(), "row value is not a number");
}

#[test]
fn matrix_is_displayed_row_by_row() {
    assert_eq!(
        display_matrix(&small_matrix()),
        vec!["1 0 1 1 1 1 ", "1 1 1 1 1 0 ", "1 1 1 0 0 1 ", "0 1 0 1 1 1 "]
    );
}

#[test]
fn matrix_as_numpy_and_sagemath() {
    assert_eq!(
        display_numpy_matrix(&small_matrix(), "H"),
        vec![
            "H = np.array([",
            "              [1, 0, 1, 1, 1, 1],",
            "              [1, 1, 1, 1, 1, 0],",
            "              [1, 1, 1, 0, 0, 1],",
            "              [0, 1, 0, 1, 1, 1]",
            "])",
        ]
    );
    assert_eq!(
        display_sagemath_matrix(&small_matrix(), "H"),
        vec![
            "H = matrix(GF(2), [",
            "[1, 0, 1, 1, 1, 1],",
            "[1, 1, 1, 1, 1, 0],",
            "[1, 1, 1, 0, 0, 1],",
            "[0, 1, 0, 1, 1, 1]",
            "])",
        ]
    );
}

#[test]
fn generator_text_is_read() {
    let text = "Column order:\n   3    1    2    0\n\nInv(A) X B:\n 0 1 1\n 1 0 1\n\n";
    let (generator, columns) = from_gen_txt(text).unwrap();
    assert_eq!(columns, vec![3, 1, 2, 0]);
    assert_eq!(generator.number_of_rows(), 126);
    assert_eq!(generator.number_of_columns(), 126);
    assert_eq!(generator.is_one_at(0, 0), Some(false));
    assert_eq!(generator.is_one_at(0, 1), Some(true));
    assert_eq!(generator.is_one_at(0, 2), Some(true));
    assert_eq!(generator.is_one_at(1, 0), Some(true));
    assert_eq!(generator.is_one_at(1, 1), Some(false));
    assert_eq!(generator.is_one_at(1, 2), Some(true));
    assert_eq!(generator.is_one_at(2, 1), Some(false));
}

#[test]
fn vector_is_displayed_as_bits() {
    assert_eq!(sparsebinvec_to_display(&SparseBinVec::new(6, vec![1, 2, 4])), "011010");
    assert_eq!(sparsebinvec_to_display(&SparseBinVec::new(0, vec![])), "");
}

#[test]
fn numbers_are_read_from_text() {
    assert_eq!(str_to_int("126"), 126);
    assert_eq!(str_to_int("0"), 0);
}

#[test]
fn tanner_graph_of_a_small_matrix() {
    let matrix = SparseBinMat::new(2, vec![vec![1]]);
    let expected = "
graph G {
   ranksep = 1.2;
   nodesep = 1.2;
   splines=false;
   rankdir = LR;
   peripheries = 0;
   subgraph cluster_checks {
      node[shape=square, style=filled]
      check1 [label=\"\",fillcolor=lightgray]
      check1  [style=invis]
   }
   subgraph cluster_padding1 {
      color=invis;
      a12m [style=invisible]
   }
   subgraph cluster_padding2 {
      color=invis;
      a22m [style=invisible]
   }
   subgraph cluster_bits {
      node[shape=circle, style=filled]
      bit1 [label=\"\",fillcolor=white]
      bit2 [label=\"\",fillcolor=white]
      bit1--bit2 [style=invis]
   }
   check1--bit2 [constraint=false]
}
";
    assert_eq!(tanner_graph(&matrix), expected);
}

#[test]
fn rust_code_for_a_parity_check_matrix() {
    let matrix = SparseBinMat::new(3, vec![vec![0, 2], vec![1]]);
    let expected = "// Autogenerated from small.alist
extern crate lazy_static;
use lazy_static::lazy_static;
use ldpc::codes::LinearCode;
use sparse_bin_mat::SparseBinMat;

lazy_static! {
  pub static ref LDPC: LinearCode = LinearCode::from_parity_check_matrix(SparseBinMat::new(
    3,
    vec![
      vec![0, 2, ],
      vec![1, ],
    ]
  ));
}
";
    assert_eq!(rust_for_matrix(&matrix, "small.alist"), expected);
}

#[test]
fn rust_code_for_both_matrices_and_the_column_order() {
    let pcm = SparseBinMat::new(2, vec![vec![0, 1]]);
    let gm = SparseBinMat::new(2, vec![vec![1], vec![]]);
    let expected = "// Autogenerated from p.alist and g.txt
extern crate lazy_static;
use lazy_static::lazy_static;
use ldpc::codes::LinearCode;
use sparse_bin_mat::SparseBinMat;

lazy_static! {
  pub static ref LDPC: LinearCode = LinearCode::from_both_matrices(SparseBinMat::new(
    2,
    vec![
      vec![1, ],
      vec![],
    ]), SparseBinMat::new(
    2,
    vec![
      vec![0, 1, ],
    ]
  ));
  pub static ref LDPC_DECODE_COLUMNS: Vec<usize> = vec![
    1, 0, 
  ];
} // lazy_static! 
";
    assert_eq!(rust_for_ldpc_init(&pcm, &gm, &vec![1, 0], "p.alist", "g.txt"), expected);
}

#[test]
fn positions_outside_the_matrix_are_told_apart() {
    assert!(try_from_alist("1 1\n1 1\n1\n1\n2\n1\n").is_none());
    assert!(try_from_alist("1 1\n1 1\n1\n1\n0\n1\n").is_none());
    assert!(try_from_alist("1 1\n1 1\n1\n1\n1\n3\n").is_none());
    assert_eq!(try_from_alist("1 1\n1 1\n1\n1\nx\n1\n").unwrap().unwrap_err(), "col value is not a number");
    let read = try_from_alist(SMALL_ALIST).unwrap().unwrap();
    assert_eq!(read, small_matrix());
}

#[test]
fn unreadable_generator_texts_are_told_apart() {
    assert!(try_from_gen_txt("Column order:\n 3 x 1\n").is_none());
    let long_row = format!("Inv(A) X B:\n{}1 \n", "0 ".repeat(126));
    assert!(try_from_gen_txt(long_row.as_str()).is_none());
    let (generator, columns) = try_from_gen_txt("Column order:\n 2 0 1\n").unwrap();
    assert_eq!(columns, vec![2, 0, 1]);
    assert_eq!(generator.number_of_rows(), 126);
}
