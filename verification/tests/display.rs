use rtk_tracking::args_display;

#[test]
fn test_args_display() {
    let args = vec![String::from("status"), String::from("--short")];
    assert_eq!(args_display(&args), "status --short");
    assert_eq!(args_display(&[]), "");

    let single = vec![String::from("log")];
    assert_eq!(args_display(&single), "log");
}

#[test]
fn args_display_keeps_every_argument() {
    let args = vec![String::from("commit"), String::from("-m"), String::from("two words"), String::new()];
    assert_eq!(args_display(&args), "commit -m two words ");
    assert_eq!(args_display(&[String::new()]), "");
    assert_eq!(args_display(&[String::new(), String::new()]), " ");
    assert_eq!(args_display(&[String::from("héllo"), String::from("日本")]), "héllo 日本");
}
