//! Texts of errors.

use curvine_rdma::block_handler::RpcCode;
use curvine_rdma::error::FsError;
use curvine_rdma::text::{join, push_bool, push_decimal, push_list, push_signed_decimal};

#[test]
fn numbers_in_decimal() {
    let mut out = String::new();
    push_decimal(&mut out, 0);
    out.push(' ');
    push_decimal(&mut out, 1090);
    out.push(' ');
    push_decimal(&mut out, u64::MAX);
    out.push(' ');
    push_signed_decimal(&mut out, -7);
    out.push(' ');
    push_signed_decimal(&mut out, i64::MIN);
    out.push(' ');
    push_signed_decimal(&mut out, i64::MAX);
    assert_eq!(
        out,
        "0 1090 18446744073709551615 -7 -9223372036854775808 9223372036854775807"
    );
}

#[test]
fn words() {
    let mut out = join("a", "b");
    push_bool(&mut out, true);
    push_bool(&mut out, false);
    assert_eq!(out, "abtruefalse");
    let mut list = String::new();
    push_list(&mut list, &vec![]);
    assert_eq!(list, "");
    push_list(&mut list, &vec![3]);
    push_list(&mut list, &vec![40, 5, 4294967295]);
    assert_eq!(list, "340, 5, 4294967295");
}

#[test]
fn remaining_error_texts() {
    assert_eq!(FsError::NotInitialized.to_string(), "The request is not initialized");
    assert_eq!(
        FsError::UnsupportedCode { code: RpcCode::SubmitTask }.to_string(),
        "Unsupported request type"
    );
    assert_eq!(
        FsError::ReadNotOpen { req_id: -3, file: true, context: false }.to_string(),
        "RDMA read() - ERROR: file or context is None for req_id: -3. file: true, context: false"
    );
}
