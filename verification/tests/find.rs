use bddkit_browser::find::{button, field, link, option_xpath, selector, xpath_literal};
use bddkit_browser::webdriver::Strategy;

#[test]
fn xpath_literals_survive_both_kinds_of_quote() {
    assert_eq!(xpath_literal("plain"), "'plain'");
    assert_eq!(xpath_literal("it's"), "\"it's\"");
    assert_eq!(
        xpath_literal(r#"say "it's""#),
        r#"concat('say "it', "'", 's"')"#
    );
}

#[test]
fn a_selector_defaults_to_css_and_honours_the_prefixes() {
    assert_eq!(
        selector("#cart").strategies,
        vec![(Strategy::Css, "#cart".to_string())]
    );
    assert_eq!(
        selector("xpath=//a[1]").strategies,
        vec![(Strategy::XPath, "//a[1]".to_string())]
    );
    let by_text = selector("text=Pay now");
    assert_eq!(by_text.strategies[0].0, Strategy::XPath);
    assert!(
        by_text.strategies[0]
            .1
            .contains("text()[contains(normalize-space(.), 'Pay now')]")
    );
}

#[test]
fn named_lookups_try_exact_then_partial_then_css() {
    let l = link("Sign in");
    assert_eq!(l.strategies.len(), 3);
    assert!(l.strategies[0].1.contains("normalize-space(.)='Sign in'"));
    assert!(
        l.strategies[1]
            .1
            .contains("contains(normalize-space(.), 'Sign in')")
    );
    assert_eq!(l.strategies[2], (Strategy::Css, "Sign in".to_string()));
    assert_eq!(l.what, "link \"Sign in\"");

    let b = button("Pay");
    assert!(
        b.strategies[0].1.contains("//button[") && b.strategies[0].1.contains("@type='submit'")
    );

    let f = field("E-mail");
    assert!(f.strategies[0].1.contains("@placeholder='E-mail'"));
    assert!(
        f.strategies[1]
            .1
            .contains("//label[normalize-space(.)='E-mail']/@for")
    );
    assert!(
        f.strategies[2]
            .1
            .contains("//label[contains(normalize-space(.), 'E-mail')]")
    );
    assert_eq!(
        f.strategies.last(),
        Some(&(Strategy::Css, "E-mail".to_string()))
    );

    assert_eq!(
        option_xpath("Latvia"),
        ".//option[normalize-space(.)='Latvia' or @value='Latvia']"
    );
}

#[test]
fn whole_lookup_texts_match_the_templates() {
    let b = button("Pay");
    assert_eq!(
        b.strategies[0].1,
        "//button[normalize-space(.)='Pay' or @value='Pay' or @id='Pay' or @name='Pay' or @title='Pay'] | //input[(@type='submit' or @type='button' or @type='reset' or @type='image') and (@value='Pay' or @id='Pay' or @name='Pay' or @title='Pay')]"
    );
    assert_eq!(
        b.strategies[1].1,
        "//button[contains(normalize-space(.), 'Pay')] | //input[(@type='submit' or @type='button' or @type='reset' or @type='image') and contains(@value, 'Pay')]"
    );
    let f = field("Name");
    assert_eq!(
        f.strategies[1].1,
        "//*[(self::input and not(@type='submit' or @type='button' or @type='reset' or @type='image')) or self::textarea or self::select][@id=//label[normalize-space(.)='Name']/@for] | //label[normalize-space(.)='Name']//*[self::input or self::select or self::textarea]"
    );
    assert_eq!(selector("#x").what, "element \"#x\"");
    assert_eq!(xpath_literal(""), "''");
    assert_eq!(xpath_literal("'\""), "concat('', \"'\", '\"')");
}

#[test]
fn a_text_selector_looks_only_inside_the_body() {
    let l = selector("text=Checkout");
    assert_eq!(
        l.strategies,
        vec![(Strategy::XPath, "//body//*[text()[contains(normalize-space(.), 'Checkout')]]".to_string())]
    );
    assert_eq!(l.what, "element \"text=Checkout\"");
}
