use oysterpack_message::testing::run_test;

#[test]
fn tests_op_test() {
    run_test("tests_op_test", || println!("tests_op_test passed !!!"));
}

fn test_bar() {
    println!("bar passed !!!")
}

#[test]
fn test_op_test_fn() {
    run_test("test_op_test_fn", test_bar);
}

#[test]
fn run_test_runs_the_test() {
    let mut ran = false;
    run_test("run_test_runs_the_test", || ran = true);
    assert!(ran);
}
