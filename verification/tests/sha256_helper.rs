use zkwasm_circuits::circuits::foreign::sha256_helper::{Sha256HelperOp, Sha2HelperConfig};

#[test]
fn test_sha256_helper_op_numbers() {
    assert_eq!(Sha256HelperOp::Ch.number(), 1);
    assert_eq!(Sha256HelperOp::SSigma0.number(), 5);
    assert_eq!(Sha256HelperOp::SSigms1.number(), 6);
}

#[test]
fn test_sha256_helper_columns() {
    let c = Sha2HelperConfig::configure(20);
    assert_eq!((c.sel, c.block_first_line_sel, c.op, c.op_bit), (20, 21, 22, 23));
    assert_eq!(c.args, vec![24, 25, 26, 27, 28]);
    assert_eq!((c.aux, c.op_valid_set), (29, 30));
}
