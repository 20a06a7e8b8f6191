use handy::ui_state::is_clamshell;

#[test]
fn test_clamshell_check() {
    let result = is_clamshell();
    assert!(result.is_ok());
    let _ = result.unwrap();
}
