//! Laws of the skill rewrite chain.
//!
//! The chain either leaves a value untouched or rewrites it to one of
//! a fixed set of canonical tokens, and every canonical token is a
//! fixed point of the chain; together these give idempotence.

use vstd::prelude::*;

use crate::hh::skills::{
    apply_rules, canon_skill, rule_1c, rule_back, rule_css, rule_front, rule_full, rule_go, rule_html,
    rule_java, rule_js, rule_junior, rule_lead, rule_middle, rule_mladshiy, rule_php, rule_react,
    rule_rest, rule_sap, rule_senior, rule_starshiy, rule_vedushchiy, rule_webpack, w_1c,
    w_1s_cyr, w_back, w_css, w_front, w_full, w_go, w_golang, w_html, w_java, w_javascript, w_js,
    w_junior, w_lead, w_middle, w_mladshiy, w_native, w_php, w_react, w_react_native, w_rest,
    w_sap, w_script, w_senior, w_starshiy, w_vedushchiy, w_webpack,
};
use crate::text::{chars_within, has_sub, lemma_no_sub_longer, lemma_no_sub_outside, lower_of, sub_at};

verus! {

/// The tokens the rewrite chain can produce.
pub open spec fn is_canon_token(t: Seq<char>) -> bool {
    ||| t == w_1c()
    ||| t == w_php()
    ||| t == w_css()
    ||| t == w_html()
    ||| t == w_rest()
    ||| t == w_golang()
    ||| t == w_sap()
    ||| t == w_java()
    ||| t == w_javascript()
    ||| t == w_react()
    ||| t == w_react_native()
    ||| t == w_webpack()
    ||| t == w_front()
    ||| t == w_back()
    ||| t == w_full()
    ||| t == w_lead()
    ||| t == w_junior()
    ||| t == w_middle()
    ||| t == w_senior()
    ||| t == w_mladshiy()
    ||| t == w_starshiy()
    ||| t == w_vedushchiy()
}

/// The chain either returns its input or one of the canonical tokens.
pub proof fn lemma_apply_rules_cases(s: Seq<char>)
    ensures
        apply_rules(s) == s || is_canon_token(apply_rules(s)),
{
    let s1 = rule_1c(s);
    assert(s1 == s || s1 == w_1c());
    let s2 = rule_php(s1);
    assert(s2 == s1 || s2 == w_php());
    let s3 = rule_css(s2);
    assert(s3 == s2 || s3 == w_css());
    let s4 = rule_html(s3);
    assert(s4 == s3 || s4 == w_html());
    let s5 = rule_rest(s4);
    assert(s5 == s4 || s5 == w_rest());
    let s6 = rule_go(s5);
    assert(s6 == s5 || s6 == w_golang());
    let s7 = rule_sap(s6);
    assert(s7 == s6 || s7 == w_sap());
    let s8 = rule_java(s7);
    assert(s8 == s7 || s8 == w_java() || s8 == w_javascript());
    let s9 = rule_js(s8);
    assert(s9 == s8 || s9 == w_javascript());
    let s10 = rule_react(s9);
    assert(s10 == s9 || s10 == w_react() || s10 == w_react_native());
    let s11 = rule_webpack(s10);
    assert(s11 == s10 || s11 == w_webpack());
    let s12 = rule_front(s11);
    assert(s12 == s11 || s12 == w_front());
    let s13 = rule_back(s12);
    assert(s13 == s12 || s13 == w_back());
    let s14 = rule_full(s13);
    assert(s14 == s13 || s14 == w_full());
    let s15 = rule_lead(s14);
    assert(s15 == s14 || s15 == w_lead());
    let s16 = rule_junior(s15);
    assert(s16 == s15 || s16 == w_junior());
    let s17 = rule_middle(s16);
    assert(s17 == s16 || s17 == w_middle());
    let s18 = rule_senior(s17);
    assert(s18 == s17 || s18 == w_senior());
    let s19 = rule_mladshiy(s18);
    assert(s19 == s18 || s19 == w_mladshiy());
    let s20 = rule_starshiy(s19);
    assert(s20 == s19 || s20 == w_starshiy());
    let s21 = rule_vedushchiy(s20);
    assert(s21 == s20 || s21 == w_vedushchiy());
}

proof fn lemma_javascript_not_css()
    ensures
        !has_sub(w_javascript(), w_css()),
{
    reveal(has_sub);
    if has_sub(w_javascript(), w_css()) {
        let i = choose|i: int| sub_at(w_javascript(), w_css(), i);
        assert(w_javascript()[i] == 'c');
        assert(w_javascript()[i + 1] == 's');
        assert(false);
    }
}

proof fn lemma_javascript_not_sap()
    ensures
        !has_sub(w_javascript(), w_sap()),
{
    reveal(has_sub);
    if has_sub(w_javascript(), w_sap()) {
        let i = choose|i: int| sub_at(w_javascript(), w_sap(), i);
        assert(w_javascript()[i] == 's');
        assert(w_javascript()[i + 1] == 'a');
        assert(false);
    }
}

proof fn lemma_javascript_not_js()
    ensures
        !has_sub(w_javascript(), w_js()),
{
    reveal(has_sub);
    if has_sub(w_javascript(), w_js()) {
        let i = choose|i: int| sub_at(w_javascript(), w_js(), i);
        assert(w_javascript()[i] == 'j');
        assert(w_javascript()[i + 1] == 's');
        assert(false);
    }
}

proof fn lemma_webpack_not_back()
    ensures
        !has_sub(w_webpack(), w_back()),
{
    reveal(has_sub);
    if has_sub(w_webpack(), w_back()) {
        let i = choose|i: int| sub_at(w_webpack(), w_back(), i);
        assert(w_webpack()[i] == 'b');
        assert(w_webpack()[i + 1] == 'a');
        assert(false);
    }
}

proof fn lemma_fix_1c()
    ensures
        apply_rules(w_1c()) == w_1c(),
{
    let t = w_1c();
    let cs = set!['1', 'c'];
    assert(chars_within(t, cs));
    assert(rule_1c(t) == t) by {
        assert(has_sub(t, w_1c())) by {
            reveal(has_sub);
            assert(sub_at(t, w_1c(), 0));
        }
    }
    assert(rule_php(t) == t) by {
        lemma_no_sub_longer(t, w_php());
    }
    assert(rule_css(t) == t) by {
        lemma_no_sub_longer(t, w_css());
    }
    assert(rule_html(t) == t) by {
        lemma_no_sub_longer(t, w_html());
    }
    assert(rule_rest(t) == t) by {
        lemma_no_sub_longer(t, w_rest());
    }
    assert(rule_go(t) == t) by {
        assert(t[0] != w_go()[0]);
        assert(t != w_go());
    }
    assert(rule_sap(t) == t) by {
        lemma_no_sub_longer(t, w_sap());
    }
    assert(rule_java(t) == t) by {
        lemma_no_sub_longer(t, w_java());
    }
    assert(rule_js(t) == t) by {
        lemma_no_sub_outside(t, w_js(), cs, 0);
    }
    assert(rule_react(t) == t) by {
        lemma_no_sub_longer(t, w_react());
    }
    assert(rule_webpack(t) == t) by {
        lemma_no_sub_longer(t, w_webpack());
    }
    assert(rule_front(t) == t) by {
        lemma_no_sub_longer(t, w_front());
    }
    assert(rule_back(t) == t) by {
        lemma_no_sub_longer(t, w_back());
    }
    assert(rule_full(t) == t) by {
        lemma_no_sub_longer(t, w_full());
    }
    assert(rule_lead(t) == t) by {
        lemma_no_sub_longer(t, w_lead());
    }
    assert(rule_junior(t) == t) by {
        lemma_no_sub_longer(t, w_junior());
    }
    assert(rule_middle(t) == t) by {
        lemma_no_sub_longer(t, w_middle());
    }
    assert(rule_senior(t) == t) by {
        lemma_no_sub_longer(t, w_senior());
    }
    assert(rule_mladshiy(t) == t) by {
        lemma_no_sub_longer(t, w_mladshiy());
    }
    assert(rule_starshiy(t) == t) by {
        lemma_no_sub_longer(t, w_starshiy());
    }
    assert(rule_vedushchiy(t) == t) by {
        lemma_no_sub_longer(t, w_vedushchiy());
    }
    assert(apply_rules(t) == t);
}

proof fn lemma_fix_php()
    ensures
        apply_rules(w_php()) == w_php(),
{
    let t = w_php();
    let cs = set!['p', 'h'];
    assert(chars_within(t, cs));
    assert(rule_1c(t) == t) by {
        lemma_no_sub_outside(t, w_1c(), cs, 0);
        lemma_no_sub_outside(t, w_1s_cyr(), cs, 0);
    }
    assert(rule_php(t) == t) by {
        assert(has_sub(t, w_php())) by {
            reveal(has_sub);
            assert(sub_at(t, w_php(), 0));
        }
    }
    assert(rule_css(t) == t) by {
        lemma_no_sub_outside(t, w_css(), cs, 0);
    }
    assert(rule_html(t) == t) by {
        lemma_no_sub_longer(t, w_html());
    }
    assert(rule_rest(t) == t) by {
        lemma_no_sub_longer(t, w_rest());
    }
    assert(rule_go(t) == t) by {
        assert(t.len() == 3);
        assert(w_go().len() == 2);
        assert(t != w_go());
    }
    assert(rule_sap(t) == t) by {
        lemma_no_sub_outside(t, w_sap(), cs, 0);
    }
    assert(rule_java(t) == t) by {
        lemma_no_sub_longer(t, w_java());
    }
    assert(rule_js(t) == t) by {
        lemma_no_sub_outside(t, w_js(), cs, 0);
    }
    assert(rule_react(t) == t) by {
        lemma_no_sub_longer(t, w_react());
    }
    assert(rule_webpack(t) == t) by {
        lemma_no_sub_longer(t, w_webpack());
    }
    assert(rule_front(t) == t) by {
        lemma_no_sub_longer(t, w_front());
    }
    assert(rule_back(t) == t) by {
        lemma_no_sub_longer(t, w_back());
    }
    assert(rule_full(t) == t) by {
        lemma_no_sub_longer(t, w_full());
    }
    assert(rule_lead(t) == t) by {
        lemma_no_sub_longer(t, w_lead());
    }
    assert(rule_junior(t) == t) by {
        lemma_no_sub_longer(t, w_junior());
    }
    assert(rule_middle(t) == t) by {
        lemma_no_sub_longer(t, w_middle());
    }
    assert(rule_senior(t) == t) by {
        lemma_no_sub_longer(t, w_senior());
    }
    assert(rule_mladshiy(t) == t) by {
        lemma_no_sub_longer(t, w_mladshiy());
    }
    assert(rule_starshiy(t) == t) by {
        lemma_no_sub_longer(t, w_starshiy());
    }
    assert(rule_vedushchiy(t) == t) by {
        lemma_no_sub_longer(t, w_vedushchiy());
    }
    assert(apply_rules(t) == t);
}

proof fn lemma_fix_css()
    ensures
        apply_rules(w_css()) == w_css(),
{
    let t = w_css();
    let cs = set!['c', 's'];
    assert(chars_within(t, cs));
    assert(rule_1c(t) == t) by {
        lemma_no_sub_outside(t, w_1c(), cs, 0);
        lemma_no_sub_outside(t, w_1s_cyr(), cs, 0);
    }
    assert(rule_php(t) == t) by {
        lemma_no_sub_outside(t, w_php(), cs, 0);
    }
    assert(rule_css(t) == t) by {
        assert(has_sub(t, w_css())) by {
            reveal(has_sub);
            assert(sub_at(t, w_css(), 0));
        }
    }
    assert(rule_html(t) == t) by {
        lemma_no_sub_longer(t, w_html());
    }
    assert(rule_rest(t) == t) by {
        lemma_no_sub_longer(t, w_rest());
    }
    assert(rule_go(t) == t) by {
        assert(t.len() == 3);
        assert(w_go().len() == 2);
        assert(t != w_go());
    }
    assert(rule_sap(t) == t) by {
        lemma_no_sub_outside(t, w_sap(), cs, 1);
    }
    assert(rule_java(t) == t) by {
        lemma_no_sub_longer(t, w_java());
    }
    assert(rule_js(t) == t) by {
        lemma_no_sub_outside(t, w_js(), cs, 0);
    }
    assert(rule_react(t) == t) by {
        lemma_no_sub_longer(t, w_react());
    }
    assert(rule_webpack(t) == t) by {
        lemma_no_sub_longer(t, w_webpack());
    }
    assert(rule_front(t) == t) by {
        lemma_no_sub_longer(t, w_front());
    }
    assert(rule_back(t) == t) by {
        lemma_no_sub_longer(t, w_back());
    }
    assert(rule_full(t) == t) by {
        lemma_no_sub_longer(t, w_full());
    }
    assert(rule_lead(t) == t) by {
        lemma_no_sub_longer(t, w_lead());
    }
    assert(rule_junior(t) == t) by {
        lemma_no_sub_longer(t, w_junior());
    }
    assert(rule_middle(t) == t) by {
        lemma_no_sub_longer(t, w_middle());
    }
    assert(rule_senior(t) == t) by {
        lemma_no_sub_longer(t, w_senior());
    }
    assert(rule_mladshiy(t) == t) by {
        lemma_no_sub_longer(t, w_mladshiy());
    }
    assert(rule_starshiy(t) == t) by {
        lemma_no_sub_longer(t, w_starshiy());
    }
    assert(rule_vedushchiy(t) == t) by {
        lemma_no_sub_longer(t, w_vedushchiy());
    }
    assert(apply_rules(t) == t);
}

proof fn lemma_fix_html()
    ensures
        apply_rules(w_html()) == w_html(),
{
    let t = w_html();
    let cs = set!['h', 't', 'm', 'l'];
    assert(chars_within(t, cs));
    assert(rule_1c(t) == t) by {
        lemma_no_sub_outside(t, w_1c(), cs, 0);
        lemma_no_sub_outside(t, w_1s_cyr(), cs, 0);
    }
    assert(rule_php(t) == t) by {
        lemma_no_sub_outside(t, w_php(), cs, 0);
    }
    assert(rule_css(t) == t) by {
        lemma_no_sub_outside(t, w_css(), cs, 0);
    }
    assert(rule_html(t) == t) by {
        assert(has_sub(t, w_html())) by {
            reveal(has_sub);
            assert(sub_at(t, w_html(), 0));
        }
    }
    assert(rule_rest(t) == t) by {
        lemma_no_sub_outside(t, w_rest(), cs, 0);
    }
    assert(rule_go(t) == t) by {
        assert(t.len() == 4);
        assert(w_go().len() == 2);
        assert(t != w_go());
    }
    assert(rule_sap(t) == t) by {
        lemma_no_sub_outside(t, w_sap(), cs, 0);
    }
    assert(rule_java(t) == t) by {
        lemma_no_sub_outside(t, w_java(), cs, 0);
    }
    assert(rule_js(t) == t) by {
        lemma_no_sub_outside(t, w_js(), cs, 0);
    }
    assert(rule_react(t) == t) by {
        lemma_no_sub_longer(t, w_react());
    }
    assert(rule_webpack(t) == t) by {
        lemma_no_sub_longer(t, w_webpack());
    }
    assert(rule_front(t) == t) by {
        lemma_no_sub_longer(t, w_front());
    }
    assert(rule_back(t) == t) by {
        lemma_no_sub_outside(t, w_back(), cs, 0);
    }
    assert(rule_full(t) == t) by {
        lemma_no_sub_outside(t, w_full(), cs, 0);
    }
    assert(rule_lead(t) == t) by {
        lemma_no_sub_outside(t, w_lead(), cs, 1);
    }
    assert(rule_junior(t) == t) by {
        lemma_no_sub_longer(t, w_junior());
    }
    assert(rule_middle(t) == t) by {
        lemma_no_sub_longer(t, w_middle());
    }
    assert(rule_senior(t) == t) by {
        lemma_no_sub_longer(t, w_senior());
    }
    assert(rule_mladshiy(t) == t) by {
        lemma_no_sub_longer(t, w_mladshiy());
    }
    assert(rule_starshiy(t) == t) by {
        lemma_no_sub_longer(t, w_starshiy());
    }
    assert(rule_vedushchiy(t) == t) by {
        lemma_no_sub_longer(t, w_vedushchiy());
    }
    assert(apply_rules(t) == t);
}

proof fn lemma_fix_rest()
    ensures
        apply_rules(w_rest()) == w_rest(),
{
    let t = w_rest();
    let cs = set!['r', 'e', 's', 't'];
    assert(chars_within(t, cs));
    assert(rule_1c(t) == t) by {
        lemma_no_sub_outside(t, w_1c(), cs, 0);
        lemma_no_sub_outside(t, w_1s_cyr(), cs, 0);
    }
    assert(rule_php(t) == t) by {
        lemma_no_sub_outside(t, w_php(), cs, 0);
    }
    assert(rule_css(t) == t) by {
        lemma_no_sub_outside(t, w_css(), cs, 0);
    }
    assert(rule_html(t) == t) by {
        lemma_no_sub_outside(t, w_html(), cs, 0);
    }
    assert(rule_rest(t) == t) by {
        assert(has_sub(t, w_rest())) by {
            reveal(has_sub);
            assert(sub_at(t, w_rest(), 0));
        }
    }
    assert(rule_go(t) == t) by {
        assert(t.len() == 4);
        assert(w_go().len() == 2);
        assert(t != w_go());
    }
    assert(rule_sap(t) == t) by {
        lemma_no_sub_outside(t, w_sap(), cs, 1);
    }
    assert(rule_java(t) == t) by {
        lemma_no_sub_outside(t, w_java(), cs, 0);
    }
    assert(rule_js(t) == t) by {
        lemma_no_sub_outside(t, w_js(), cs, 0);
    }
    assert(rule_react(t) == t) by {
        lemma_no_sub_longer(t, w_react());
    }
    assert(rule_webpack(t) == t) by {
        lemma_no_sub_longer(t, w_webpack());
    }
    assert(rule_front(t) == t) by {
        lemma_no_sub_longer(t, w_front());
    }
    assert(rule_back(t) == t) by {
        lemma_no_sub_outside(t, w_back(), cs, 0);
    }
    assert(rule_full(t) == t) by {
        lemma_no_sub_outside(t, w_full(), cs, 0);
    }
    assert(rule_lead(t) == t) by {
        lemma_no_sub_outside(t, w_lead(), cs, 0);
    }
    assert(rule_junior(t) == t) by {
        lemma_no_sub_longer(t, w_junior());
    }
    assert(rule_middle(t) == t) by {
        lemma_no_sub_longer(t, w_middle());
    }
    assert(rule_senior(t) == t) by {
        lemma_no_sub_longer(t, w_senior());
    }
    assert(rule_mladshiy(t) == t) by {
        lemma_no_sub_longer(t, w_mladshiy());
    }
    assert(rule_starshiy(t) == t) by {
        lemma_no_sub_longer(t, w_starshiy());
    }
    assert(rule_vedushchiy(t) == t) by {
        lemma_no_sub_longer(t, w_vedushchiy());
    }
    assert(apply_rules(t) == t);
}

proof fn lemma_fix_golang()
    ensures
        apply_rules(w_golang()) == w_golang(),
{
    let t = w_golang();
    let cs = set!['g', 'o', 'l', 'a', 'n'];
    assert(chars_within(t, cs));
    assert(rule_1c(t) == t) by {
        lemma_no_sub_outside(t, w_1c(), cs, 0);
        lemma_no_sub_outside(t, w_1s_cyr(), cs, 0);
    }
    assert(rule_php(t) == t) by {
        lemma_no_sub_outside(t, w_php(), cs, 0);
    }
    assert(rule_css(t) == t) by {
        lemma_no_sub_outside(t, w_css(), cs, 0);
    }
    assert(rule_html(t) == t) by {
        lemma_no_sub_outside(t, w_html(), cs, 0);
    }
    assert(rule_rest(t) == t) by {
        lemma_no_sub_outside(t, w_rest(), cs, 0);
    }
    assert(rule_go(t) == t) by {
        assert(t.len() == 6);
        assert(w_go().len() == 2);
        assert(t != w_go());
    }
    assert(rule_sap(t) == t) by {
        lemma_no_sub_outside(t, w_sap(), cs, 0);
    }
    assert(rule_java(t) == t) by {
        lemma_no_sub_outside(t, w_java(), cs, 0);
    }
    assert(rule_js(t) == t) by {
        lemma_no_sub_outside(t, w_js(), cs, 0);
    }
    assert(rule_react(t) == t) by {
        lemma_no_sub_outside(t, w_react(), cs, 0);
    }
    assert(rule_webpack(t) == t) by {
        lemma_no_sub_longer(t, w_webpack());
    }
    assert(rule_front(t) == t) by {
        lemma_no_sub_outside(t, w_front(), cs, 0);
    }
    assert(rule_back(t) == t) by {
        lemma_no_sub_outside(t, w_back(), cs, 0);
    }
    assert(rule_full(t) == t) by {
        lemma_no_sub_outside(t, w_full(), cs, 0);
    }
    assert(rule_lead(t) == t) by {
        lemma_no_sub_outside(t, w_lead(), cs, 1);
    }
    assert(rule_junior(t) == t) by {
        lemma_no_sub_outside(t, w_junior(), cs, 0);
    }
    assert(rule_middle(t) == t) by {
        lemma_no_sub_outside(t, w_middle(), cs, 0);
    }
    assert(rule_senior(t) == t) by {
        lemma_no_sub_outside(t, w_senior(), cs, 0);
    }
    assert(rule_mladshiy(t) == t) by {
        lemma_no_sub_longer(t, w_mladshiy());
    }
    assert(rule_starshiy(t) == t) by {
        lemma_no_sub_longer(t, w_starshiy());
    }
    assert(rule_vedushchiy(t) == t) by {
        lemma_no_sub_longer(t, w_vedushchiy());
    }
    assert(apply_rules(t) == t);
}

proof fn lemma_fix_sap()
    ensures
        apply_rules(w_sap()) == w_sap(),
{
    let t = w_sap();
    let cs = set!['s', 'a', 'p'];
    assert(chars_within(t, cs));
    assert(rule_1c(t) == t) by {
        lemma_no_sub_outside(t, w_1c(), cs, 0);
        lemma_no_sub_outside(t, w_1s_cyr(), cs, 0);
    }
    assert(rule_php(t) == t) by {
        lemma_no_sub_outside(t, w_php(), cs, 1);
    }
    assert(rule_css(t) == t) by {
        lemma_no_sub_outside(t, w_css(), cs, 0);
    }
    assert(rule_html(t) == t) by {
        lemma_no_sub_longer(t, w_html());
    }
    assert(rule_rest(t) == t) by {
        lemma_no_sub_longer(t, w_rest());
    }
    assert(rule_go(t) == t) by {
        assert(t.len() == 3);
        assert(w_go().len() == 2);
        assert(t != w_go());
    }
    assert(rule_sap(t) == t) by {
        assert(has_sub(t, w_sap())) by {
            reveal(has_sub);
            assert(sub_at(t, w_sap(), 0));
        }
    }
    assert(rule_java(t) == t) by {
        lemma_no_sub_longer(t, w_java());
    }
    assert(rule_js(t) == t) by {
        lemma_no_sub_outside(t, w_js(), cs, 0);
    }
    assert(rule_react(t) == t) by {
        lemma_no_sub_longer(t, w_react());
    }
    assert(rule_webpack(t) == t) by {
        lemma_no_sub_longer(t, w_webpack());
    }
    assert(rule_front(t) == t) by {
        lemma_no_sub_longer(t, w_front());
    }
    assert(rule_back(t) == t) by {
        lemma_no_sub_longer(t, w_back());
    }
    assert(rule_full(t) == t) by {
        lemma_no_sub_longer(t, w_full());
    }
    assert(rule_lead(t) == t) by {
        lemma_no_sub_longer(t, w_lead());
    }
    assert(rule_junior(t) == t) by {
        lemma_no_sub_longer(t, w_junior());
    }
    assert(rule_middle(t) == t) by {
        lemma_no_sub_longer(t, w_middle());
    }
    assert(rule_senior(t) == t) by {
        lemma_no_sub_longer(t, w_senior());
    }
    assert(rule_mladshiy(t) == t) by {
        lemma_no_sub_longer(t, w_mladshiy());
    }
    assert(rule_starshiy(t) == t) by {
        lemma_no_sub_longer(t, w_starshiy());
    }
    assert(rule_vedushchiy(t) == t) by {
        lemma_no_sub_longer(t, w_vedushchiy());
    }
    assert(apply_rules(t) == t);
}

proof fn lemma_fix_java()
    ensures
        apply_rules(w_java()) == w_java(),
{
    let t = w_java();
    let cs = set!['j', 'a', 'v'];
    assert(chars_within(t, cs));
    assert(rule_1c(t) == t) by {
        lemma_no_sub_outside(t, w_1c(), cs, 0);
        lemma_no_sub_outside(t, w_1s_cyr(), cs, 0);
    }
    assert(rule_php(t) == t) by {
        lemma_no_sub_outside(t, w_php(), cs, 0);
    }
    assert(rule_css(t) == t) by {
        lemma_no_sub_outside(t, w_css(), cs, 0);
    }
    assert(rule_html(t) == t) by {
        lemma_no_sub_outside(t, w_html(), cs, 0);
    }
    assert(rule_rest(t) == t) by {
        lemma_no_sub_outside(t, w_rest(), cs, 0);
    }
    assert(rule_go(t) == t) by {
        assert(t.len() == 4);
        assert(w_go().len() == 2);
        assert(t != w_go());
    }
    assert(rule_sap(t) == t) by {
        lemma_no_sub_outside(t, w_sap(), cs, 0);
    }
    assert(rule_java(t) == t) by {
        assert(has_sub(t, w_java())) by {
            reveal(has_sub);
            assert(sub_at(t, w_java(), 0));
        }
        lemma_no_sub_longer(t, w_script());
    }
    assert(rule_js(t) == t) by {
        lemma_no_sub_outside(t, w_js(), cs, 1);
    }
    assert(rule_react(t) == t) by {
        lemma_no_sub_longer(t, w_react());
    }
    assert(rule_webpack(t) == t) by {
        lemma_no_sub_longer(t, w_webpack());
    }
    assert(rule_front(t) == t) by {
        lemma_no_sub_longer(t, w_front());
    }
    assert(rule_back(t) == t) by {
        lemma_no_sub_outside(t, w_back(), cs, 0);
    }
    assert(rule_full(t) == t) by {
        lemma_no_sub_outside(t, w_full(), cs, 0);
    }
    assert(rule_lead(t) == t) by {
        lemma_no_sub_outside(t, w_lead(), cs, 0);
    }
    assert(rule_junior(t) == t) by {
        lemma_no_sub_longer(t, w_junior());
    }
    assert(rule_middle(t) == t) by {
        lemma_no_sub_longer(t, w_middle());
    }
    assert(rule_senior(t) == t) by {
        lemma_no_sub_longer(t, w_senior());
    }
    assert(rule_mladshiy(t) == t) by {
        lemma_no_sub_longer(t, w_mladshiy());
    }
    assert(rule_starshiy(t) == t) by {
        lemma_no_sub_longer(t, w_starshiy());
    }
    assert(rule_vedushchiy(t) == t) by {
        lemma_no_sub_longer(t, w_vedushchiy());
    }
    assert(apply_rules(t) == t);
}

proof fn lemma_fix_javascript()
    ensures
        apply_rules(w_javascript()) == w_javascript(),
{
    let t = w_javascript();
    let cs = set!['j', 'a', 'v', 's', 'c', 'r', 'i', 'p', 't'];
    assert(chars_within(t, cs));
    assert(rule_1c(t) == t) by {
        lemma_no_sub_outside(t, w_1c(), cs, 0);
        lemma_no_sub_outside(t, w_1s_cyr(), cs, 0);
    }
    assert(rule_php(t) == t) by {
        lemma_no_sub_outside(t, w_php(), cs, 1);
    }
    assert(rule_css(t) == t) by {
        lemma_javascript_not_css();
    }
    assert(rule_html(t) == t) by {
        lemma_no_sub_outside(t, w_html(), cs, 0);
    }
    assert(rule_rest(t) == t) by {
        lemma_no_sub_outside(t, w_rest(), cs, 1);
    }
    assert(rule_go(t) == t) by {
        assert(t.len() == 10);
        assert(w_go().len() == 2);
        assert(t != w_go());
    }
    assert(rule_sap(t) == t) by {
        lemma_javascript_not_sap();
    }
    assert(rule_java(t) == t) by {
        assert(has_sub(t, w_java())) by {
            reveal(has_sub);
            assert(sub_at(t, w_java(), 0));
        }
        assert(has_sub(t, w_script())) by {
            reveal(has_sub);
            assert(sub_at(t, w_script(), 4));
        }
    }
    assert(rule_js(t) == t) by {
        lemma_javascript_not_js();
    }
    assert(rule_react(t) == t) by {
        lemma_no_sub_outside(t, w_react(), cs, 1);
    }
    assert(rule_webpack(t) == t) by {
        lemma_no_sub_outside(t, w_webpack(), cs, 0);
    }
    assert(rule_front(t) == t) by {
        lemma_no_sub_outside(t, w_front(), cs, 0);
    }
    assert(rule_back(t) == t) by {
        lemma_no_sub_outside(t, w_back(), cs, 0);
    }
    assert(rule_full(t) == t) by {
        lemma_no_sub_outside(t, w_full(), cs, 0);
    }
    assert(rule_lead(t) == t) by {
        lemma_no_sub_outside(t, w_lead(), cs, 0);
    }
    assert(rule_junior(t) == t) by {
        lemma_no_sub_outside(t, w_junior(), cs, 1);
    }
    assert(rule_middle(t) == t) by {
        lemma_no_sub_outside(t, w_middle(), cs, 0);
    }
    assert(rule_senior(t) == t) by {
        lemma_no_sub_outside(t, w_senior(), cs, 1);
    }
    assert(rule_mladshiy(t) == t) by {
        lemma_no_sub_outside(t, w_mladshiy(), cs, 0);
    }
    assert(rule_starshiy(t) == t) by {
        lemma_no_sub_outside(t, w_starshiy(), cs, 0);
    }
    assert(rule_vedushchiy(t) == t) by {
        lemma_no_sub_outside(t, w_vedushchiy(), cs, 0);
    }
    assert(apply_rules(t) == t);
}

proof fn lemma_fix_react()
    ensures
        apply_rules(w_react()) == w_react(),
{
    let t = w_react();
    let cs = set!['r', 'e', 'a', 'c', 't'];
    assert(chars_within(t, cs));
    assert(rule_1c(t) == t) by {
        lemma_no_sub_outside(t, w_1c(), cs, 0);
        lemma_no_sub_outside(t, w_1s_cyr(), cs, 0);
    }
    assert(rule_php(t) == t) by {
        lemma_no_sub_outside(t, w_php(), cs, 0);
    }
    assert(rule_css(t) == t) by {
        lemma_no_sub_outside(t, w_css(), cs, 1);
    }
    assert(rule_html(t) == t) by {
        lemma_no_sub_outside(t, w_html(), cs, 0);
    }
    assert(rule_rest(t) == t) by {
        lemma_no_sub_outside(t, w_rest(), cs, 2);
    }
    assert(rule_go(t) == t) by {
        assert(t.len() == 5);
        assert(w_go().len() == 2);
        assert(t != w_go());
    }
    assert(rule_sap(t) == t) by {
        lemma_no_sub_outside(t, w_sap(), cs, 0);
    }
    assert(rule_java(t) == t) by {
        lemma_no_sub_outside(t, w_java(), cs, 0);
    }
    assert(rule_js(t) == t) by {
        lemma_no_sub_outside(t, w_js(), cs, 0);
    }
    assert(rule_react(t) == t) by {
        assert(has_sub(t, w_react())) by {
            reveal(has_sub);
            assert(sub_at(t, w_react(), 0));
        }
        lemma_no_sub_longer(t, w_native());
    }
    assert(rule_webpack(t) == t) by {
        lemma_no_sub_longer(t, w_webpack());
    }
    assert(rule_front(t) == t) by {
        lemma_no_sub_outside(t, w_front(), cs, 0);
    }
    assert(rule_back(t) == t) by {
        lemma_no_sub_outside(t, w_back(), cs, 0);
    }
    assert(rule_full(t) == t) by {
        lemma_no_sub_outside(t, w_full(), cs, 0);
    }
    assert(rule_lead(t) == t) by {
        lemma_no_sub_outside(t, w_lead(), cs, 0);
    }
    assert(rule_junior(t) == t) by {
        lemma_no_sub_longer(t, w_junior());
    }
    assert(rule_middle(t) == t) by {
        lemma_no_sub_longer(t, w_middle());
    }
    assert(rule_senior(t) == t) by {
        lemma_no_sub_longer(t, w_senior());
    }
    assert(rule_mladshiy(t) == t) by {
        lemma_no_sub_longer(t, w_mladshiy());
    }
    assert(rule_starshiy(t) == t) by {
        lemma_no_sub_longer(t, w_starshiy());
    }
    assert(rule_vedushchiy(t) == t) by {
        lemma_no_sub_longer(t, w_vedushchiy());
    }
    assert(apply_rules(t) == t);
}

proof fn lemma_fix_react_native()
    ensures
        apply_rules(w_react_native()) == w_react_native(),
{
    let t = w_react_native();
    let cs = set!['r', 'e', 'a', 'c', 't', ' ', 'n', 'i', 'v'];
    assert(chars_within(t, cs));
    assert(rule_1c(t) == t) by {
        lemma_no_sub_outside(t, w_1c(), cs, 0);
        lemma_no_sub_outside(t, w_1s_cyr(), cs, 0);
    }
    assert(rule_php(t) == t) by {
        lemma_no_sub_outside(t, w_php(), cs, 0);
    }
    assert(rule_css(t) == t) by {
        lemma_no_sub_outside(t, w_css(), cs, 1);
    }
    assert(rule_html(t) == t) by {
        lemma_no_sub_outside(t, w_html(), cs, 0);
    }
    assert(rule_rest(t) == t) by {
        lemma_no_sub_outside(t, w_rest(), cs, 2);
    }
    assert(rule_go(t) == t) by {
        assert(t.len() == 12);
        assert(w_go().len() == 2);
        assert(t != w_go());
    }
    assert(rule_sap(t) == t) by {
        lemma_no_sub_outside(t, w_sap(), cs, 0);
    }
    assert(rule_java(t) == t) by {
        lemma_no_sub_outside(t, w_java(), cs, 0);
    }
    assert(rule_js(t) == t) by {
        lemma_no_sub_outside(t, w_js(), cs, 0);
    }
    assert(rule_react(t) == t) by {
        assert(has_sub(t, w_react())) by {
            reveal(has_sub);
            assert(sub_at(t, w_react(), 0));
        }
        assert(has_sub(t, w_native())) by {
            reveal(has_sub);
            assert(sub_at(t, w_native(), 6));
        }
    }
    assert(rule_webpack(t) == t) by {
        lemma_no_sub_outside(t, w_webpack(), cs, 0);
    }
    assert(rule_front(t) == t) by {
        lemma_no_sub_outside(t, w_front(), cs, 0);
    }
    assert(rule_back(t) == t) by {
        lemma_no_sub_outside(t, w_back(), cs, 0);
    }
    assert(rule_full(t) == t) by {
        lemma_no_sub_outside(t, w_full(), cs, 0);
    }
    assert(rule_lead(t) == t) by {
        lemma_no_sub_outside(t, w_lead(), cs, 0);
    }
    assert(rule_junior(t) == t) by {
        lemma_no_sub_outside(t, w_junior(), cs, 0);
    }
    assert(rule_middle(t) == t) by {
        lemma_no_sub_outside(t, w_middle(), cs, 0);
    }
    assert(rule_senior(t) == t) by {
        lemma_no_sub_outside(t, w_senior(), cs, 0);
    }
    assert(rule_mladshiy(t) == t) by {
        lemma_no_sub_outside(t, w_mladshiy(), cs, 0);
    }
    assert(rule_starshiy(t) == t) by {
        lemma_no_sub_outside(t, w_starshiy(), cs, 0);
    }
    assert(rule_vedushchiy(t) == t) by {
        lemma_no_sub_outside(t, w_vedushchiy(), cs, 0);
    }
    assert(apply_rules(t) == t);
}

proof fn lemma_fix_webpack()
    ensures
        apply_rules(w_webpack()) == w_webpack(),
{
    let t = w_webpack();
    let cs = set!['w', 'e', 'b', 'p', 'a', 'c', 'k'];
    assert(chars_within(t, cs));
    assert(rule_1c(t) == t) by {
        lemma_no_sub_outside(t, w_1c(), cs, 0);
        lemma_no_sub_outside(t, w_1s_cyr(), cs, 0);
    }
    assert(rule_php(t) == t) by {
        lemma_no_sub_outside(t, w_php(), cs, 1);
    }
    assert(rule_css(t) == t) by {
        lemma_no_sub_outside(t, w_css(), cs, 1);
    }
    assert(rule_html(t) == t) by {
        lemma_no_sub_outside(t, w_html(), cs, 0);
    }
    assert(rule_rest(t) == t) by {
        lemma_no_sub_outside(t, w_rest(), cs, 0);
    }
    assert(rule_go(t) == t) by {
        assert(t.len() == 7);
        assert(w_go().len() == 2);
        assert(t != w_go());
    }
    assert(rule_sap(t) == t) by {
        lemma_no_sub_outside(t, w_sap(), cs, 0);
    }
    assert(rule_java(t) == t) by {
        lemma_no_sub_outside(t, w_java(), cs, 0);
    }
    assert(rule_js(t) == t) by {
        lemma_no_sub_outside(t, w_js(), cs, 0);
    }
    assert(rule_react(t) == t) by {
        lemma_no_sub_outside(t, w_react(), cs, 0);
    }
    assert(rule_webpack(t) == t) by {
        assert(has_sub(t, w_webpack())) by {
            reveal(has_sub);
            assert(sub_at(t, w_webpack(), 0));
        }
    }
    assert(rule_front(t) == t) by {
        lemma_no_sub_outside(t, w_front(), cs, 0);
    }
    assert(rule_back(t) == t) by {
        lemma_webpack_not_back();
    }
    assert(rule_full(t) == t) by {
        lemma_no_sub_outside(t, w_full(), cs, 0);
    }
    assert(rule_lead(t) == t) by {
        lemma_no_sub_outside(t, w_lead(), cs, 0);
    }
    assert(rule_junior(t) == t) by {
        lemma_no_sub_outside(t, w_junior(), cs, 0);
    }
    assert(rule_middle(t) == t) by {
        lemma_no_sub_outside(t, w_middle(), cs, 0);
    }
    assert(rule_senior(t) == t) by {
        lemma_no_sub_outside(t, w_senior(), cs, 0);
    }
    assert(rule_mladshiy(t) == t) by {
        lemma_no_sub_outside(t, w_mladshiy(), cs, 0);
    }
    assert(rule_starshiy(t) == t) by {
        lemma_no_sub_outside(t, w_starshiy(), cs, 0);
    }
    assert(rule_vedushchiy(t) == t) by {
        lemma_no_sub_outside(t, w_vedushchiy(), cs, 0);
    }
    assert(apply_rules(t) == t);
}

proof fn lemma_fix_front()
    ensures
        apply_rules(w_front()) == w_front(),
{
    let t = w_front();
    let cs = set!['f', 'r', 'o', 'n', 't'];
    assert(chars_within(t, cs));
    assert(rule_1c(t) == t) by {
        lemma_no_sub_outside(t, w_1c(), cs, 0);
        lemma_no_sub_outside(t, w_1s_cyr(), cs, 0);
    }
    assert(rule_php(t) == t) by {
        lemma_no_sub_outside(t, w_php(), cs, 0);
    }
    assert(rule_css(t) == t) by {
        lemma_no_sub_outside(t, w_css(), cs, 0);
    }
    assert(rule_html(t) == t) by {
        lemma_no_sub_outside(t, w_html(), cs, 0);
    }
    assert(rule_rest(t) == t) by {
        lemma_no_sub_outside(t, w_rest(), cs, 1);
    }
    assert(rule_go(t) == t) by {
        assert(t.len() == 5);
        assert(w_go().len() == 2);
        assert(t != w_go());
    }
    assert(rule_sap(t) == t) by {
        lemma_no_sub_outside(t, w_sap(), cs, 0);
    }
    assert(rule_java(t) == t) by {
        lemma_no_sub_outside(t, w_java(), cs, 0);
    }
    assert(rule_js(t) == t) by {
        lemma_no_sub_outside(t, w_js(), cs, 0);
    }
    assert(rule_react(t) == t) by {
        lemma_no_sub_outside(t, w_react(), cs, 1);
    }
    assert(rule_webpack(t) == t) by {
        lemma_no_sub_longer(t, w_webpack());
    }
    assert(rule_front(t) == t) by {
        assert(has_sub(t, w_front())) by {
            reveal(has_sub);
            assert(sub_at(t, w_front(), 0));
        }
    }
    assert(rule_back(t) == t) by {
        lemma_no_sub_outside(t, w_back(), cs, 0);
    }
    assert(rule_full(t) == t) by {
        lemma_no_sub_outside(t, w_full(), cs, 1);
    }
    assert(rule_lead(t) == t) by {
        lemma_no_sub_outside(t, w_lead(), cs, 0);
    }
    assert(rule_junior(t) == t) by {
        lemma_no_sub_longer(t, w_junior());
    }
    assert(rule_middle(t) == t) by {
        lemma_no_sub_longer(t, w_middle());
    }
    assert(rule_senior(t) == t) by {
        lemma_no_sub_longer(t, w_senior());
    }
    assert(rule_mladshiy(t) == t) by {
        lemma_no_sub_longer(t, w_mladshiy());
    }
    assert(rule_starshiy(t) == t) by {
        lemma_no_sub_longer(t, w_starshiy());
    }
    assert(rule_vedushchiy(t) == t) by {
        lemma_no_sub_longer(t, w_vedushchiy());
    }
    assert(apply_rules(t) == t);
}

proof fn lemma_fix_back()
    ensures
        apply_rules(w_back()) == w_back(),
{
    let t = w_back();
    let cs = set!['b', 'a', 'c', 'k'];
    assert(chars_within(t, cs));
    assert(rule_1c(t) == t) by {
        lemma_no_sub_outside(t, w_1c(), cs, 0);
        lemma_no_sub_outside(t, w_1s_cyr(), cs, 0);
    }
    assert(rule_php(t) == t) by {
        lemma_no_sub_outside(t, w_php(), cs, 0);
    }
    assert(rule_css(t) == t) by {
        lemma_no_sub_outside(t, w_css(), cs, 1);
    }
    assert(rule_html(t) == t) by {
        lemma_no_sub_outside(t, w_html(), cs, 0);
    }
    assert(rule_rest(t) == t) by {
        lemma_no_sub_outside(t, w_rest(), cs, 0);
    }
    assert(rule_go(t) == t) by {
        assert(t.len() == 4);
        assert(w_go().len() == 2);
        assert(t != w_go());
    }
    assert(rule_sap(t) == t) by {
        lemma_no_sub_outside(t, w_sap(), cs, 0);
    }
    assert(rule_java(t) == t) by {
        lemma_no_sub_outside(t, w_java(), cs, 0);
    }
    assert(rule_js(t) == t) by {
        lemma_no_sub_outside(t, w_js(), cs, 0);
    }
    assert(rule_react(t) == t) by {
        lemma_no_sub_longer(t, w_react());
    }
    assert(rule_webpack(t) == t) by {
        lemma_no_sub_longer(t, w_webpack());
    }
    assert(rule_front(t) == t) by {
        lemma_no_sub_longer(t, w_front());
    }
    assert(rule_back(t) == t) by {
        assert(has_sub(t, w_back())) by {
            reveal(has_sub);
            assert(sub_at(t, w_back(), 0));
        }
    }
    assert(rule_full(t) == t) by {
        lemma_no_sub_outside(t, w_full(), cs, 0);
    }
    assert(rule_lead(t) == t) by {
        lemma_no_sub_outside(t, w_lead(), cs, 0);
    }
    assert(rule_junior(t) == t) by {
        lemma_no_sub_longer(t, w_junior());
    }
    assert(rule_middle(t) == t) by {
        lemma_no_sub_longer(t, w_middle());
    }
    assert(rule_senior(t) == t) by {
        lemma_no_sub_longer(t, w_senior());
    }
    assert(rule_mladshiy(t) == t) by {
        lemma_no_sub_longer(t, w_mladshiy());
    }
    assert(rule_starshiy(t) == t) by {
        lemma_no_sub_longer(t, w_starshiy());
    }
    assert(rule_vedushchiy(t) == t) by {
        lemma_no_sub_longer(t, w_vedushchiy());
    }
    assert(apply_rules(t) == t);
}

proof fn lemma_fix_full()
    ensures
        apply_rules(w_full()) == w_full(),
{
    let t = w_full();
    let cs = set!['f', 'u', 'l'];
    assert(chars_within(t, cs));
    assert(rule_1c(t) == t) by {
        lemma_no_sub_outside(t, w_1c(), cs, 0);
        lemma_no_sub_outside(t, w_1s_cyr(), cs, 0);
    }
    assert(rule_php(t) == t) by {
        lemma_no_sub_outside(t, w_php(), cs, 0);
    }
    assert(rule_css(t) == t) by {
        lemma_no_sub_outside(t, w_css(), cs, 0);
    }
    assert(rule_html(t) == t) by {
        lemma_no_sub_outside(t, w_html(), cs, 0);
    }
    assert(rule_rest(t) == t) by {
        lemma_no_sub_outside(t, w_rest(), cs, 0);
    }
    assert(rule_go(t) == t) by {
        assert(t.len() == 4);
        assert(w_go().len() == 2);
        assert(t != w_go());
    }
    assert(rule_sap(t) == t) by {
        lemma_no_sub_outside(t, w_sap(), cs, 0);
    }
    assert(rule_java(t) == t) by {
        lemma_no_sub_outside(t, w_java(), cs, 0);
    }
    assert(rule_js(t) == t) by {
        lemma_no_sub_outside(t, w_js(), cs, 0);
    }
    assert(rule_react(t) == t) by {
        lemma_no_sub_longer(t, w_react());
    }
    assert(rule_webpack(t) == t) by {
        lemma_no_sub_longer(t, w_webpack());
    }
    assert(rule_front(t) == t) by {
        lemma_no_sub_longer(t, w_front());
    }
    assert(rule_back(t) == t) by {
        lemma_no_sub_outside(t, w_back(), cs, 0);
    }
    assert(rule_full(t) == t) by {
        assert(has_sub(t, w_full())) by {
            reveal(has_sub);
            assert(sub_at(t, w_full(), 0));
        }
    }
    assert(rule_lead(t) == t) by {
        lemma_no_sub_outside(t, w_lead(), cs, 1);
    }
    assert(rule_junior(t) == t) by {
        lemma_no_sub_longer(t, w_junior());
    }
    assert(rule_middle(t) == t) by {
        lemma_no_sub_longer(t, w_middle());
    }
    assert(rule_senior(t) == t) by {
        lemma_no_sub_longer(t, w_senior());
    }
    assert(rule_mladshiy(t) == t) by {
        lemma_no_sub_longer(t, w_mladshiy());
    }
    assert(rule_starshiy(t) == t) by {
        lemma_no_sub_longer(t, w_starshiy());
    }
    assert(rule_vedushchiy(t) == t) by {
        lemma_no_sub_longer(t, w_vedushchiy());
    }
    assert(apply_rules(t) == t);
}

proof fn lemma_fix_lead()
    ensures
        apply_rules(w_lead()) == w_lead(),
{
    let t = w_lead();
    let cs = set!['l', 'e', 'a', 'd'];
    assert(chars_within(t, cs));
    assert(rule_1c(t) == t) by {
        lemma_no_sub_outside(t, w_1c(), cs, 0);
        lemma_no_sub_outside(t, w_1s_cyr(), cs, 0);
    }
    assert(rule_php(t) == t) by {
        lemma_no_sub_outside(t, w_php(), cs, 0);
    }
    assert(rule_css(t) == t) by {
        lemma_no_sub_outside(t, w_css(), cs, 0);
    }
    assert(rule_html(t) == t) by {
        lemma_no_sub_outside(t, w_html(), cs, 0);
    }
    assert(rule_rest(t) == t) by {
        lemma_no_sub_outside(t, w_rest(), cs, 0);
    }
    assert(rule_go(t) == t) by {
        assert(t.len() == 4);
        assert(w_go().len() == 2);
        assert(t != w_go());
    }
    assert(rule_sap(t) == t) by {
        lemma_no_sub_outside(t, w_sap(), cs, 0);
    }
    assert(rule_java(t) == t) by {
        lemma_no_sub_outside(t, w_java(), cs, 0);
    }
    assert(rule_js(t) == t) by {
        lemma_no_sub_outside(t, w_js(), cs, 0);
    }
    assert(rule_react(t) == t) by {
        lemma_no_sub_longer(t, w_react());
    }
    assert(rule_webpack(t) == t) by {
        lemma_no_sub_longer(t, w_webpack());
    }
    assert(rule_front(t) == t) by {
        lemma_no_sub_longer(t, w_front());
    }
    assert(rule_back(t) == t) by {
        lemma_no_sub_outside(t, w_back(), cs, 0);
    }
    assert(rule_full(t) == t) by {
        lemma_no_sub_outside(t, w_full(), cs, 0);
    }
    assert(rule_lead(t) == t) by {
        assert(has_sub(t, w_lead())) by {
            reveal(has_sub);
            assert(sub_at(t, w_lead(), 0));
        }
    }
    assert(rule_junior(t) == t) by {
        lemma_no_sub_longer(t, w_junior());
    }
    assert(rule_middle(t) == t) by {
        lemma_no_sub_longer(t, w_middle());
    }
    assert(rule_senior(t) == t) by {
        lemma_no_sub_longer(t, w_senior());
    }
    assert(rule_mladshiy(t) == t) by {
        lemma_no_sub_longer(t, w_mladshiy());
    }
    assert(rule_starshiy(t) == t) by {
        lemma_no_sub_longer(t, w_starshiy());
    }
    assert(rule_vedushchiy(t) == t) by {
        lemma_no_sub_longer(t, w_vedushchiy());
    }
    assert(apply_rules(t) == t);
}

proof fn lemma_fix_junior()
    ensures
        apply_rules(w_junior()) == w_junior(),
{
    let t = w_junior();
    let cs = set!['j', 'u', 'n', 'i', 'o', 'r'];
    assert(chars_within(t, cs));
    assert(rule_1c(t) == t) by {
        lemma_no_sub_outside(t, w_1c(), cs, 0);
        lemma_no_sub_outside(t, w_1s_cyr(), cs, 0);
    }
    assert(rule_php(t) == t) by {
        lemma_no_sub_outside(t, w_php(), cs, 0);
    }
    assert(rule_css(t) == t) by {
        lemma_no_sub_outside(t, w_css(), cs, 0);
    }
    assert(rule_html(t) == t) by {
        lemma_no_sub_outside(t, w_html(), cs, 0);
    }
    assert(rule_rest(t) == t) by {
        lemma_no_sub_outside(t, w_rest(), cs, 1);
    }
    assert(rule_go(t) == t) by {
        assert(t.len() == 6);
        assert(w_go().len() == 2);
        assert(t != w_go());
    }
    assert(rule_sap(t) == t) by {
        lemma_no_sub_outside(t, w_sap(), cs, 0);
    }
    assert(rule_java(t) == t) by {
        lemma_no_sub_outside(t, w_java(), cs, 1);
    }
    assert(rule_js(t) == t) by {
        lemma_no_sub_outside(t, w_js(), cs, 1);
    }
    assert(rule_react(t) == t) by {
        lemma_no_sub_outside(t, w_react(), cs, 1);
    }
    assert(rule_webpack(t) == t) by {
        lemma_no_sub_longer(t, w_webpack());
    }
    assert(rule_front(t) == t) by {
        lemma_no_sub_outside(t, w_front(), cs, 0);
    }
    assert(rule_back(t) == t) by {
        lemma_no_sub_outside(t, w_back(), cs, 0);
    }
    assert(rule_full(t) == t) by {
        lemma_no_sub_outside(t, w_full(), cs, 0);
    }
    assert(rule_lead(t) == t) by {
        lemma_no_sub_outside(t, w_lead(), cs, 0);
    }
    assert(rule_junior(t) == t) by {
        assert(has_sub(t, w_junior())) by {
            reveal(has_sub);
            assert(sub_at(t, w_junior(), 0));
        }
    }
    assert(rule_middle(t) == t) by {
        lemma_no_sub_outside(t, w_middle(), cs, 0);
    }
    assert(rule_senior(t) == t) by {
        lemma_no_sub_outside(t, w_senior(), cs, 0);
    }
    assert(rule_mladshiy(t) == t) by {
        lemma_no_sub_longer(t, w_mladshiy());
    }
    assert(rule_starshiy(t) == t) by {
        lemma_no_sub_longer(t, w_starshiy());
    }
    assert(rule_vedushchiy(t) == t) by {
        lemma_no_sub_longer(t, w_vedushchiy());
    }
    assert(apply_rules(t) == t);
}

proof fn lemma_fix_middle()
    ensures
        apply_rules(w_middle()) == w_middle(),
{
    let t = w_middle();
    let cs = set!['m', 'i', 'd', 'l', 'e'];
    assert(chars_within(t, cs));
    assert(rule_1c(t) == t) by {
        lemma_no_sub_outside(t, w_1c(), cs, 0);
        lemma_no_sub_outside(t, w_1s_cyr(), cs, 0);
    }
    assert(rule_php(t) == t) by {
        lemma_no_sub_outside(t, w_php(), cs, 0);
    }
    assert(rule_css(t) == t) by {
        lemma_no_sub_outside(t, w_css(), cs, 0);
    }
    assert(rule_html(t) == t) by {
        lemma_no_sub_outside(t, w_html(), cs, 0);
    }
    assert(rule_rest(t) == t) by {
        lemma_no_sub_outside(t, w_rest(), cs, 0);
    }
    assert(rule_go(t) == t) by {
        assert(t.len() == 6);
        assert(w_go().len() == 2);
        assert(t != w_go());
    }
    assert(rule_sap(t) == t) by {
        lemma_no_sub_outside(t, w_sap(), cs, 0);
    }
    assert(rule_java(t) == t) by {
        lemma_no_sub_outside(t, w_java(), cs, 0);
    }
    assert(rule_js(t) == t) by {
        lemma_no_sub_outside(t, w_js(), cs, 0);
    }
    assert(rule_react(t) == t) by {
        lemma_no_sub_outside(t, w_react(), cs, 0);
    }
    assert(rule_webpack(t) == t) by {
        lemma_no_sub_longer(t, w_webpack());
    }
    assert(rule_front(t) == t) by {
        lemma_no_sub_outside(t, w_front(), cs, 0);
    }
    assert(rule_back(t) == t) by {
        lemma_no_sub_outside(t, w_back(), cs, 0);
    }
    assert(rule_full(t) == t) by {
        lemma_no_sub_outside(t, w_full(), cs, 0);
    }
    assert(rule_lead(t) == t) by {
        lemma_no_sub_outside(t, w_lead(), cs, 2);
    }
    assert(rule_junior(t) == t) by {
        lemma_no_sub_outside(t, w_junior(), cs, 0);
    }
    assert(rule_middle(t) == t) by {
        assert(has_sub(t, w_middle())) by {
            reveal(has_sub);
            assert(sub_at(t, w_middle(), 0));
        }
    }
    assert(rule_senior(t) == t) by {
        lemma_no_sub_outside(t, w_senior(), cs, 0);
    }
    assert(rule_mladshiy(t) == t) by {
        lemma_no_sub_longer(t, w_mladshiy());
    }
    assert(rule_starshiy(t) == t) by {
        lemma_no_sub_longer(t, w_starshiy());
    }
    assert(rule_vedushchiy(t) == t) by {
        lemma_no_sub_longer(t, w_vedushchiy());
    }
    assert(apply_rules(t) == t);
}

proof fn lemma_fix_senior()
    ensures
        apply_rules(w_senior()) == w_senior(),
{
    let t = w_senior();
    let cs = set!['s', 'e', 'n', 'i', 'o', 'r'];
    assert(chars_within(t, cs));
    assert(rule_1c(t) == t) by {
        lemma_no_sub_outside(t, w_1c(), cs, 0);
        lemma_no_sub_outside(t, w_1s_cyr(), cs, 0);
    }
    assert(rule_php(t) == t) by {
        lemma_no_sub_outside(t, w_php(), cs, 0);
    }
    assert(rule_css(t) == t) by {
        lemma_no_sub_outside(t, w_css(), cs, 0);
    }
    assert(rule_html(t) == t) by {
        lemma_no_sub_outside(t, w_html(), cs, 0);
    }
    assert(rule_rest(t) == t) by {
        lemma_no_sub_outside(t, w_rest(), cs, 3);
    }
    assert(rule_go(t) == t) by {
        assert(t.len() == 6);
        assert(w_go().len() == 2);
        assert(t != w_go());
    }
    assert(rule_sap(t) == t) by {
        lemma_no_sub_outside(t, w_sap(), cs, 1);
    }
    assert(rule_java(t) == t) by {
        lemma_no_sub_outside(t, w_java(), cs, 0);
    }
    assert(rule_js(t) == t) by {
        lemma_no_sub_outside(t, w_js(), cs, 0);
    }
    assert(rule_react(t) == t) by {
        lemma_no_sub_outside(t, w_react(), cs, 2);
    }
    assert(rule_webpack(t) == t) by {
        lemma_no_sub_longer(t, w_webpack());
    }
    assert(rule_front(t) == t) by {
        lemma_no_sub_outside(t, w_front(), cs, 0);
    }
    assert(rule_back(t) == t) by {
        lemma_no_sub_outside(t, w_back(), cs, 0);
    }
    assert(rule_full(t) == t) by {
        lemma_no_sub_outside(t, w_full(), cs, 0);
    }
    assert(rule_lead(t) == t) by {
        lemma_no_sub_outside(t, w_lead(), cs, 0);
    }
    assert(rule_junior(t) == t) by {
        lemma_no_sub_outside(t, w_junior(), cs, 0);
    }
    assert(rule_middle(t) == t) by {
        lemma_no_sub_outside(t, w_middle(), cs, 0);
    }
    assert(rule_senior(t) == t) by {
        assert(has_sub(t, w_senior())) by {
            reveal(has_sub);
            assert(sub_at(t, w_senior(), 0));
        }
    }
    assert(rule_mladshiy(t) == t) by {
        lemma_no_sub_longer(t, w_mladshiy());
    }
    assert(rule_starshiy(t) == t) by {
        lemma_no_sub_longer(t, w_starshiy());
    }
    assert(rule_vedushchiy(t) == t) by {
        lemma_no_sub_longer(t, w_vedushchiy());
    }
    assert(apply_rules(t) == t);
}

proof fn lemma_fix_mladshiy()
    ensures
        apply_rules(w_mladshiy()) == w_mladshiy(),
{
    let t = w_mladshiy();
    let cs = set!['\u{43c}', '\u{43b}', '\u{430}', '\u{434}', '\u{448}', '\u{438}', '\u{439}'];
    assert(chars_within(t, cs));
    assert(rule_1c(t) == t) by {
        lemma_no_sub_outside(t, w_1c(), cs, 0);
        lemma_no_sub_outside(t, w_1s_cyr(), cs, 0);
    }
    assert(rule_php(t) == t) by {
        lemma_no_sub_outside(t, w_php(), cs, 0);
    }
    assert(rule_css(t) == t) by {
        lemma_no_sub_outside(t, w_css(), cs, 0);
    }
    assert(rule_html(t) == t) by {
        lemma_no_sub_outside(t, w_html(), cs, 0);
    }
    assert(rule_rest(t) == t) by {
        lemma_no_sub_outside(t, w_rest(), cs, 0);
    }
    assert(rule_go(t) == t) by {
        assert(t.len() == 7);
        assert(w_go().len() == 2);
        assert(t != w_go());
    }
    assert(rule_sap(t) == t) by {
        lemma_no_sub_outside(t, w_sap(), cs, 0);
    }
    assert(rule_java(t) == t) by {
        lemma_no_sub_outside(t, w_java(), cs, 0);
    }
    assert(rule_js(t) == t) by {
        lemma_no_sub_outside(t, w_js(), cs, 0);
    }
    assert(rule_react(t) == t) by {
        lemma_no_sub_outside(t, w_react(), cs, 0);
    }
    assert(rule_webpack(t) == t) by {
        lemma_no_sub_outside(t, w_webpack(), cs, 0);
    }
    assert(rule_front(t) == t) by {
        lemma_no_sub_outside(t, w_front(), cs, 0);
    }
    assert(rule_back(t) == t) by {
        lemma_no_sub_outside(t, w_back(), cs, 0);
    }
    assert(rule_full(t) == t) by {
        lemma_no_sub_outside(t, w_full(), cs, 0);
    }
    assert(rule_lead(t) == t) by {
        lemma_no_sub_outside(t, w_lead(), cs, 0);
    }
    assert(rule_junior(t) == t) by {
        lemma_no_sub_outside(t, w_junior(), cs, 0);
    }
    assert(rule_middle(t) == t) by {
        lemma_no_sub_outside(t, w_middle(), cs, 0);
    }
    assert(rule_senior(t) == t) by {
        lemma_no_sub_outside(t, w_senior(), cs, 0);
    }
    assert(rule_mladshiy(t) == t) by {
        assert(has_sub(t, w_mladshiy())) by {
            reveal(has_sub);
            assert(sub_at(t, w_mladshiy(), 0));
        }
    }
    assert(rule_starshiy(t) == t) by {
        lemma_no_sub_outside(t, w_starshiy(), cs, 0);
    }
    assert(rule_vedushchiy(t) == t) by {
        lemma_no_sub_outside(t, w_vedushchiy(), cs, 0);
    }
    assert(apply_rules(t) == t);
}

proof fn lemma_fix_starshiy()
    ensures
        apply_rules(w_starshiy()) == w_starshiy(),
{
    let t = w_starshiy();
    let cs = set!['\u{441}', '\u{442}', '\u{430}', '\u{440}', '\u{448}', '\u{438}', '\u{439}'];
    assert(chars_within(t, cs));
    assert(rule_1c(t) == t) by {
        lemma_no_sub_outside(t, w_1c(), cs, 0);
        lemma_no_sub_outside(t, w_1s_cyr(), cs, 0);
    }
    assert(rule_php(t) == t) by {
        lemma_no_sub_outside(t, w_php(), cs, 0);
    }
    assert(rule_css(t) == t) by {
        lemma_no_sub_outside(t, w_css(), cs, 0);
    }
    assert(rule_html(t) == t) by {
        lemma_no_sub_outside(t, w_html(), cs, 0);
    }
    assert(rule_rest(t) == t) by {
        lemma_no_sub_outside(t, w_rest(), cs, 0);
    }
    assert(rule_go(t) == t) by {
        assert(t.len() == 7);
        assert(w_go().len() == 2);
        assert(t != w_go());
    }
    assert(rule_sap(t) == t) by {
        lemma_no_sub_outside(t, w_sap(), cs, 0);
    }
    assert(rule_java(t) == t) by {
        lemma_no_sub_outside(t, w_java(), cs, 0);
    }
    assert(rule_js(t) == t) by {
        lemma_no_sub_outside(t, w_js(), cs, 0);
    }
    assert(rule_react(t) == t) by {
        lemma_no_sub_outside(t, w_react(), cs, 0);
    }
    assert(rule_webpack(t) == t) by {
        lemma_no_sub_outside(t, w_webpack(), cs, 0);
    }
    assert(rule_front(t) == t) by {
        lemma_no_sub_outside(t, w_front(), cs, 0);
    }
    assert(rule_back(t) == t) by {
        lemma_no_sub_outside(t, w_back(), cs, 0);
    }
    assert(rule_full(t) == t) by {
        lemma_no_sub_outside(t, w_full(), cs, 0);
    }
    assert(rule_lead(t) == t) by {
        lemma_no_sub_outside(t, w_lead(), cs, 0);
    }
    assert(rule_junior(t) == t) by {
        lemma_no_sub_outside(t, w_junior(), cs, 0);
    }
    assert(rule_middle(t) == t) by {
        lemma_no_sub_outside(t, w_middle(), cs, 0);
    }
    assert(rule_senior(t) == t) by {
        lemma_no_sub_outside(t, w_senior(), cs, 0);
    }
    assert(rule_mladshiy(t) == t) by {
        lemma_no_sub_outside(t, w_mladshiy(), cs, 0);
    }
    assert(rule_starshiy(t) == t) by {
        assert(has_sub(t, w_starshiy())) by {
            reveal(has_sub);
            assert(sub_at(t, w_starshiy(), 0));
        }
    }
    assert(rule_vedushchiy(t) == t) by {
        lemma_no_sub_outside(t, w_vedushchiy(), cs, 0);
    }
    assert(apply_rules(t) == t);
}

proof fn lemma_fix_vedushchiy()
    ensures
        apply_rules(w_vedushchiy()) == w_vedushchiy(),
{
    let t = w_vedushchiy();
    let cs = set!['\u{432}', '\u{435}', '\u{434}', '\u{443}', '\u{449}', '\u{438}', '\u{439}'];
    assert(chars_within(t, cs));
    assert(rule_1c(t) == t) by {
        lemma_no_sub_outside(t, w_1c(), cs, 0);
        lemma_no_sub_outside(t, w_1s_cyr(), cs, 0);
    }
    assert(rule_php(t) == t) by {
        lemma_no_sub_outside(t, w_php(), cs, 0);
    }
    assert(rule_css(t) == t) by {
        lemma_no_sub_outside(t, w_css(), cs, 0);
    }
    assert(rule_html(t) == t) by {
        lemma_no_sub_outside(t, w_html(), cs, 0);
    }
    assert(rule_rest(t) == t) by {
        lemma_no_sub_outside(t, w_rest(), cs, 0);
    }
    assert(rule_go(t) == t) by {
        assert(t.len() == 7);
        assert(w_go().len() == 2);
        assert(t != w_go());
    }
    assert(rule_sap(t) == t) by {
        lemma_no_sub_outside(t, w_sap(), cs, 0);
    }
    assert(rule_java(t) == t) by {
        lemma_no_sub_outside(t, w_java(), cs, 0);
    }
    assert(rule_js(t) == t) by {
        lemma_no_sub_outside(t, w_js(), cs, 0);
    }
    assert(rule_react(t) == t) by {
        lemma_no_sub_outside(t, w_react(), cs, 0);
    }
    assert(rule_webpack(t) == t) by {
        lemma_no_sub_outside(t, w_webpack(), cs, 0);
    }
    assert(rule_front(t) == t) by {
        lemma_no_sub_outside(t, w_front(), cs, 0);
    }
    assert(rule_back(t) == t) by {
        lemma_no_sub_outside(t, w_back(), cs, 0);
    }
    assert(rule_full(t) == t) by {
        lemma_no_sub_outside(t, w_full(), cs, 0);
    }
    assert(rule_lead(t) == t) by {
        lemma_no_sub_outside(t, w_lead(), cs, 0);
    }
    assert(rule_junior(t) == t) by {
        lemma_no_sub_outside(t, w_junior(), cs, 0);
    }
    assert(rule_middle(t) == t) by {
        lemma_no_sub_outside(t, w_middle(), cs, 0);
    }
    assert(rule_senior(t) == t) by {
        lemma_no_sub_outside(t, w_senior(), cs, 0);
    }
    assert(rule_mladshiy(t) == t) by {
        lemma_no_sub_outside(t, w_mladshiy(), cs, 0);
    }
    assert(rule_starshiy(t) == t) by {
        lemma_no_sub_outside(t, w_starshiy(), cs, 0);
    }
    assert(rule_vedushchiy(t) == t) by {
        assert(has_sub(t, w_vedushchiy())) by {
            reveal(has_sub);
            assert(sub_at(t, w_vedushchiy(), 0));
        }
    }
    assert(apply_rules(t) == t);
}

/// Every canonical token is a fixed point of the chain.
pub proof fn lemma_canon_tokens_fixed(t: Seq<char>)
    requires
        is_canon_token(t),
    ensures
        apply_rules(t) == t,
{
    if t == w_1c() {
        lemma_fix_1c();
    } else if t == w_php() {
        lemma_fix_php();
    } else if t == w_css() {
        lemma_fix_css();
    } else if t == w_html() {
        lemma_fix_html();
    } else if t == w_rest() {
        lemma_fix_rest();
    } else if t == w_golang() {
        lemma_fix_golang();
    } else if t == w_sap() {
        lemma_fix_sap();
    } else if t == w_java() {
        lemma_fix_java();
    } else if t == w_javascript() {
        lemma_fix_javascript();
    } else if t == w_react() {
        lemma_fix_react();
    } else if t == w_react_native() {
        lemma_fix_react_native();
    } else if t == w_webpack() {
        lemma_fix_webpack();
    } else if t == w_front() {
        lemma_fix_front();
    } else if t == w_back() {
        lemma_fix_back();
    } else if t == w_full() {
        lemma_fix_full();
    } else if t == w_lead() {
        lemma_fix_lead();
    } else if t == w_junior() {
        lemma_fix_junior();
    } else if t == w_middle() {
        lemma_fix_middle();
    } else if t == w_senior() {
        lemma_fix_senior();
    } else if t == w_mladshiy() {
        lemma_fix_mladshiy();
    } else if t == w_starshiy() {
        lemma_fix_starshiy();
    } else {
        lemma_fix_vedushchiy();
    }
}

/// Applying the rewrite chain twice yields the same value as applying
/// it once, whatever the input.
pub proof fn lemma_apply_rules_idempotent(s: Seq<char>)
    ensures
        apply_rules(apply_rules(s)) == apply_rules(s),
{
    let y = apply_rules(s);
    if y != s {
        lemma_apply_rules_cases(s);
        lemma_canon_tokens_fixed(y);
    }
}

/// A canonicalized skill is stable: running the rewrite chain over
/// what canonicalization produced changes nothing.
pub proof fn lemma_canon_skill_stable(s: Seq<char>)
    ensures
        apply_rules(canon_skill(s)) == canon_skill(s),
{
    lemma_apply_rules_idempotent(lower_of(s));
}

} // verus!
