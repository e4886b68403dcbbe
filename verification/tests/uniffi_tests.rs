use mopro_example_app::mopro_uniffi_hello_world;

#[test]
fn test_mopro_uniffi_hello_world() {
    assert_eq!(mopro_uniffi_hello_world(), "Hello, World!");
}
