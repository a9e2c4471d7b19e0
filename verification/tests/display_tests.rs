#[test]
fn test_display_feature_disabled() {
    println!("no display layer is linked; rendering belongs to the embedding application");
}
