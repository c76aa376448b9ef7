use programming_language::config::{Config, Opt};

#[test]
fn option_from_short_flag() {
    assert_eq!(Opt::from_char('S'), Some(Opt::Asm));
    assert_eq!(Opt::from_char('s'), Some(Opt::Ast));
    assert_eq!(Opt::from_char('h'), Some(Opt::Help));
    assert_eq!(Opt::from_char('x'), None);
}

#[test]
fn option_from_long_flag() {
    assert_eq!(Opt::from_str("ast"), Some(Opt::Ast));
    // the long help name selects the same switch as ast
    assert_eq!(Opt::from_str("help"), Some(Opt::Ast));
    assert_eq!(Opt::from_str("asm"), None);
    assert_eq!(Opt::from_str(""), None);
}

#[test]
fn config_default_is_all_off() {
    let c = Config::default();
    assert!(!c.output_asm && !c.print_ast && !c.print_help);
}

#[test]
fn config_add_option_sets_one_switch() {
    let mut c = Config::default();
    c.add_option(Opt::Asm);
    assert!(c.output_asm && !c.print_ast && !c.print_help);
    c.add_option(Opt::Ast);
    assert!(c.output_asm && c.print_ast && !c.print_help);
    c.add_option(Opt::Help);
    assert!(c.output_asm && c.print_ast && c.print_help);
}
