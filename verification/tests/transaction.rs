use cryptography::hex::encode;

#[test]
fn it_works() {
    assert_eq!(2 + 2, 4);
}

#[test]
fn encode_of_nothing_is_empty() {
    assert_eq!(encode(&[]), "");
}
