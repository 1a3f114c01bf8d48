use gerritbot::ssh::get_pub_key_path;

#[test]
fn lib_test_get_pub_key_path() {
    let result = get_pub_key_path("some_priv_key");
    assert!(result == "some_priv_key.pub");
}

#[test]
fn gerrit_test_get_pub_key_path() {
    let result = get_pub_key_path("some_priv_key");
    assert!(result == "some_priv_key.pub");
}

#[test]
fn pub_key_path_replaces_extension() {
    assert_eq!(get_pub_key_path("/home/me/.ssh/id_rsa.key"), "/home/me/.ssh/id_rsa.pub");
    assert_eq!(get_pub_key_path("keys/id_rsa"), "keys/id_rsa.pub");
}
