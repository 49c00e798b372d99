use prefixity_controlled_benchmark::hashing::hash_text;

#[test]
fn hash_text_of_empty_string_is_the_sha256_of_nothing() {
    assert_eq!(
        hash_text(""),
        "e3b0c44298fc1c149afbf4c8996fb92427ae41e4649b934ca495991b7852b855"
    );
}
