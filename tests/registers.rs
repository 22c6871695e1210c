use bms_acquisition::assemble_aux_banks;

#[test]
fn banks_join_in_order() {
    assert_eq!(assemble_aux_banks(&[1, 2, 3], &[4, 5, 6]), [1, 2, 3, 4, 5, 6]);
    assert_eq!(
        assemble_aux_banks(&[65535, 0, 7], &[9, 8, 65535]),
        [65535, 0, 7, 9, 8, 65535]
    );
}
