use jlr_mandelbrot::help::{help_text, HELP_TEXT};

#[test]
fn help_text_matches_the_usage_constant() {
    assert_eq!(help_text(), HELP_TEXT);
}

#[test]
fn help_text_names_every_option() {
    let text = help_text();
    assert!(text.contains("-h, --help"));
    assert!(text.contains("--size=NUMBER"));
    assert!(text.contains("--bailout=NUMBER"));
    assert!(text.contains("--julia=X,Y"));
    assert!(text.contains("512 is the default"));
}
