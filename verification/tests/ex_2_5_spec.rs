use digimorse::channel_codec::ex_2_5::example_2_5_parity_check_matrix;
use digimorse::channel_codec::ldpc_util::{display_matrix, from_alist};

// The parity check matrix of example 2.5, in the alist format.
const EX_2_5_ALIST: &str = "4 6
3 2
3 3 3 3
2 2 2 2 2 2
1 2 4
2 3 5
1 5 6
3 4 6
1 3
1 2
2 4
1 4
2 3
3 4
";

#[test]
fn ex_2_5_parity_check_matrix_from_alist() {
    let ex2_5 = from_alist(EX_2_5_ALIST).unwrap();
    let ex2_5_display = display_matrix(&ex2_5);
    assert_eq!(ex2_5_display[0].as_str(), "1 1 0 1 0 0 ");
    assert_eq!(ex2_5_display[1].as_str(), "0 1 1 0 1 0 ");
    assert_eq!(ex2_5_display[2].as_str(), "1 0 0 0 1 1 ");
    assert_eq!(ex2_5_display[3].as_str(), "0 0 1 1 0 1 ");

    assert_eq!(ex2_5, example_2_5_parity_check_matrix());
}

#[test]
fn example_2_5_has_four_rows_of_six_columns() {
    let m = example_2_5_parity_check_matrix();
    assert_eq!(m.number_of_rows(), 4);
    assert_eq!(m.number_of_columns(), 6);
    assert_eq!(m.is_one_at(0, 3), Some(true));
    assert_eq!(m.is_one_at(0, 2), Some(false));
}
