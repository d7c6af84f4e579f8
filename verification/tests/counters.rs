#[test]
fn it_works() {
    let result = spark::add(2, 2);
    assert_eq!(result, 4);
}
