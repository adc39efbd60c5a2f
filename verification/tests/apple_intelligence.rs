use handy::apple_intelligence::{check_apple_intelligence_availability, process_text_with_system_prompt};

#[test]
fn test_availability() {
    let available = check_apple_intelligence_availability();
    println!("Apple Intelligence available: {}", available);
}

#[test]
fn processing_is_disabled_in_this_build() {
    assert!(!check_apple_intelligence_availability());
    assert_eq!(
        process_text_with_system_prompt("be brief", "hello", 64),
        Err("Apple Intelligence is disabled on this build.".to_string())
    );
}
