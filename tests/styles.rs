use recase::{construct, identify, recase, recase_naive, Case, Possibs, Sep, Style};

fn style(pre: Sep, case: Case, sep: Sep) -> Style {
    Style { pre, case, sep }
}

#[test]
fn separator_round_trip() {
    let s = style(Sep::Empty, Case::Lower, Sep::Hyphen);
    assert_eq!(construct("a_b_c", s), "a-b-c");
}

#[test]
fn camel_case_construction() {
    let s = style(Sep::Empty, Case::Camel, Sep::Empty);
    assert_eq!(construct("my_var_name", s), "myVarName");
}

#[test]
fn caps_with_leading_separator() {
    let s = style(Sep::Underscore, Case::Caps, Sep::Space);
    assert_eq!(construct(" my var", s), "_My Var");
    assert_eq!(construct(" my-var", s), "_My Var");
}

#[test]
fn classify_screaming_snake() {
    // Caps comes before AllCaps in enumeration order, and no letter of an
    // all-uppercase reference rules Caps out.
    assert_eq!(
        identify("SCREAMING_SNAKE", &[]),
        style(Sep::Empty, Case::Caps, Sep::Underscore)
    );
}

#[test]
fn classify_screaming_snake_with_priority() {
    let all_caps = style(Sep::Empty, Case::AllCaps, Sep::Underscore);
    assert_eq!(identify("SCREAMING_SNAKE", &[all_caps]), all_caps);
}

#[test]
fn classify_kebab_case() {
    assert_eq!(
        identify("kebab-case", &[]),
        style(Sep::Empty, Case::Lower, Sep::Hyphen)
    );
}

#[test]
fn classify_camel_and_caps() {
    assert_eq!(
        identify("myVarName", &[]),
        style(Sep::Empty, Case::Camel, Sep::Empty)
    );
    assert_eq!(
        identify("MyVarName", &[]),
        style(Sep::Empty, Case::Caps, Sep::Empty)
    );
}

#[test]
fn classify_leading_separator() {
    assert_eq!(
        identify("_unused_var", &[]),
        style(Sep::Underscore, Case::Lower, Sep::Underscore)
    );
    assert_eq!(
        identify("-Some Title", &[]),
        style(Sep::Hyphen, Case::Caps, Sep::Space)
    );
}

#[test]
fn classify_last_separator_wins() {
    assert_eq!(
        identify("a_b-c d", &[]),
        style(Sep::Empty, Case::Lower, Sep::Space)
    );
}

#[test]
fn classify_empty_reference_is_fallback() {
    let camel = style(Sep::Empty, Case::Camel, Sep::Empty);
    assert_eq!(
        identify("", &[camel]),
        style(Sep::Underscore, Case::Lower, Sep::Underscore)
    );
}

#[test]
fn priority_precedence() {
    // "ab" admits lowercase and camelCase with any separator.
    let camel_hyphen = style(Sep::Empty, Case::Camel, Sep::Hyphen);
    assert_eq!(identify("ab", &[camel_hyphen]), camel_hyphen);
    let caps = style(Sep::Empty, Case::Caps, Sep::Empty);
    assert_eq!(identify("ab", &[caps, camel_hyphen]), camel_hyphen);
    assert_eq!(identify("ab", &[caps]), style(Sep::Empty, Case::Lower, Sep::Empty));
}

#[test]
fn single_lowercase_letter_is_deterministic() {
    let expected = style(Sep::Empty, Case::Lower, Sep::Empty);
    assert_eq!(identify("x", &[]), expected);
    assert_eq!(identify("x", &[]), identify("x", &[]));
    assert_eq!(identify("q", &[]), expected);
}

#[test]
fn idempotence_of_style_example() {
    let reference = "my_var";
    let s = identify(reference, &[]);
    let out = construct("some thing", s);
    assert_eq!(out, "some_thing");
    let again = identify(&out, &[]);
    assert_eq!(again.case, s.case);
    assert_eq!(again.sep, s.sep);
}

#[test]
fn construct_case_conversion() {
    assert_eq!(construct("ABC def", style(Sep::Empty, Case::Lower, Sep::Underscore)), "abc_def");
    assert_eq!(construct("abc def", style(Sep::Empty, Case::AllCaps, Sep::Hyphen)), "ABC-DEF");
    assert_eq!(construct("straße", style(Sep::Empty, Case::AllCaps, Sep::Empty)), "STRASSE");
}

#[test]
fn construct_edges() {
    let s = style(Sep::Hyphen, Case::Caps, Sep::Empty);
    assert_eq!(construct("", s), "");
    assert_eq!(construct(" ", s), "-");
    assert_eq!(construct("a  b", s), "AB");
}

#[test]
fn recase_uses_reference_style() {
    assert_eq!(recase("foo bar", "myVar", &[]), "fooBar");
    assert_eq!(recase(" foo bar", "_Unused_Thing", &[]), "_Foo_Bar");
}

#[test]
fn recase_naive_positional() {
    assert_eq!(recase_naive("hello", "HeLLo"), "HeLLo");
    assert_eq!(recase_naive("abcd", "aB"), "aBCD");
    assert_eq!(recase_naive("ABCD", "Ab"), "Abcd");
    assert_eq!(recase_naive("ABC", ""), "abc");
    assert_eq!(recase_naive("", "Ab"), "");
}

#[test]
fn parse_styles() {
    assert_eq!(Style::parse("aA"), Ok(style(Sep::Empty, Case::Camel, Sep::Empty)));
    assert_eq!(Style::parse("Aa"), Ok(style(Sep::Empty, Case::Caps, Sep::Empty)));
    assert_eq!(
        Style::parse("_a_a"),
        Ok(style(Sep::Underscore, Case::Lower, Sep::Underscore))
    );
    assert_eq!(
        Style::parse("A-A"),
        Ok(style(Sep::Empty, Case::AllCaps, Sep::Hyphen))
    );
    assert_eq!(
        Style::parse(" a a"),
        Ok(style(Sep::Space, Case::Lower, Sep::Space))
    );
}

#[test]
fn parse_rejects() {
    assert_eq!(Style::parse(""), Err(()));
    assert_eq!(Style::parse("a"), Err(()));
    assert_eq!(Style::parse("_a"), Err(()));
    assert_eq!(Style::parse("1a"), Err(()));
    assert_eq!(Style::parse("a1"), Err(()));
    assert_eq!(Style::parse("a_"), Err(()));
    assert_eq!(Style::parse("__"), Err(()));
}

#[test]
fn possibility_set_narrowing() {
    let s = style(Sep::Hyphen, Case::Caps, Sep::Space);
    let mut p = Possibs::new();
    assert!(p.includes(s));
    p.set_pre(Sep::Underscore);
    assert!(!p.includes(s));
    assert!(p.includes(style(Sep::Underscore, Case::Caps, Sep::Space)));
    p.rem_case(Case::Caps);
    assert!(!p.includes(style(Sep::Underscore, Case::Caps, Sep::Space)));
    p.set_sep(Sep::Empty);
    assert!(p.includes(style(Sep::Underscore, Case::Lower, Sep::Empty)));
    assert!(!p.includes(style(Sep::Underscore, Case::Lower, Sep::Space)));
}

#[test]
fn separator_text() {
    let mut out = String::from("x");
    Sep::Empty.add_to(&mut out);
    Sep::Underscore.add_to(&mut out);
    Sep::Hyphen.add_to(&mut out);
    Sep::Space.add_to(&mut out);
    assert_eq!(out, "x_- ");
}

#[test]
fn lowercase_letters_rule_out_all_caps() {
    let all_caps = style(Sep::Empty, Case::AllCaps, Sep::Empty);
    assert_eq!(identify("abc", &[all_caps]), style(Sep::Empty, Case::Lower, Sep::Empty));
    assert_eq!(identify("ABC", &[all_caps]), all_caps);
}
