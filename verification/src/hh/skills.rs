//! Canonicalization of skill names.
//!
//! A raw skill is lower-cased and then run through a fixed, ordered
//! chain of substring-based rewrite rules that collapse variant
//! spellings into one canonical token. The rules are independent
//! left-to-right passes: each rule sees the output of the previous
//! one, and a value may be rewritten by more than one rule in turn.

use vstd::prelude::*;
use vstd::string::StringExecFns;

use crate::text::{
    find_sub, has_sub, insert_sorted_unique, lower_of, lowercase, seq_has_view, split_spaces,
    split_ws, str_eq, strictly_sorted_views,
};

verus! {

// The canonical words the rule chain tests for and rewrites to.
// The transliterated seniority tokens are written with escaped
// Cyrillic letters.
pub open spec fn w_1c() -> Seq<char> {
    seq!['1', 'c']
}

pub open spec fn w_1s_cyr() -> Seq<char> {
    seq!['1', '\u{441}']
}

pub open spec fn w_php() -> Seq<char> {
    seq!['p', 'h', 'p']
}

pub open spec fn w_css() -> Seq<char> {
    seq!['c', 's', 's']
}

pub open spec fn w_html() -> Seq<char> {
    seq!['h', 't', 'm', 'l']
}

pub open spec fn w_rest() -> Seq<char> {
    seq!['r', 'e', 's', 't']
}

pub open spec fn w_go() -> Seq<char> {
    seq!['g', 'o']
}

pub open spec fn w_golang() -> Seq<char> {
    seq!['g', 'o', 'l', 'a', 'n', 'g']
}

pub open spec fn w_sap() -> Seq<char> {
    seq!['s', 'a', 'p']
}

pub open spec fn w_java() -> Seq<char> {
    seq!['j', 'a', 'v', 'a']
}

pub open spec fn w_script() -> Seq<char> {
    seq!['s', 'c', 'r', 'i', 'p', 't']
}

pub open spec fn w_javascript() -> Seq<char> {
    seq!['j', 'a', 'v', 'a', 's', 'c', 'r', 'i', 'p', 't']
}

pub open spec fn w_js() -> Seq<char> {
    seq!['j', 's']
}

pub open spec fn w_react() -> Seq<char> {
    seq!['r', 'e', 'a', 'c', 't']
}

pub open spec fn w_native() -> Seq<char> {
    seq!['n', 'a', 't', 'i', 'v', 'e']
}

pub open spec fn w_react_native() -> Seq<char> {
    seq!['r', 'e', 'a', 'c', 't', ' ', 'n', 'a', 't', 'i', 'v', 'e']
}

pub open spec fn w_webpack() -> Seq<char> {
    seq!['w', 'e', 'b', 'p', 'a', 'c', 'k']
}

pub open spec fn w_front() -> Seq<char> {
    seq!['f', 'r', 'o', 'n', 't']
}

pub open spec fn w_back() -> Seq<char> {
    seq!['b', 'a', 'c', 'k']
}

pub open spec fn w_full() -> Seq<char> {
    seq!['f', 'u', 'l', 'l']
}

pub open spec fn w_lead() -> Seq<char> {
    seq!['l', 'e', 'a', 'd']
}

pub open spec fn w_junior() -> Seq<char> {
    seq!['j', 'u', 'n', 'i', 'o', 'r']
}

pub open spec fn w_middle() -> Seq<char> {
    seq!['m', 'i', 'd', 'd', 'l', 'e']
}

pub open spec fn w_senior() -> Seq<char> {
    seq!['s', 'e', 'n', 'i', 'o', 'r']
}

pub open spec fn w_mladshiy() -> Seq<char> {
    seq!['\u{43c}', '\u{43b}', '\u{430}', '\u{434}', '\u{448}', '\u{438}', '\u{439}']
}

pub open spec fn w_starshiy() -> Seq<char> {
    seq!['\u{441}', '\u{442}', '\u{430}', '\u{440}', '\u{448}', '\u{438}', '\u{439}']
}

pub open spec fn w_vedushchiy() -> Seq<char> {
    seq!['\u{432}', '\u{435}', '\u{434}', '\u{443}', '\u{449}', '\u{438}', '\u{439}']
}

// The rewrite rules, in the order the chain applies them.
pub open spec fn rule_1c(s: Seq<char>) -> Seq<char> {
    if has_sub(s, w_1c()) || has_sub(s, w_1s_cyr()) {
        w_1c()
    } else {
        s
    }
}

pub open spec fn rule_php(s: Seq<char>) -> Seq<char> {
    if has_sub(s, w_php()) {
        w_php()
    } else {
        s
    }
}

pub open spec fn rule_css(s: Seq<char>) -> Seq<char> {
    if has_sub(s, w_css()) {
        w_css()
    } else {
        s
    }
}

pub open spec fn rule_html(s: Seq<char>) -> Seq<char> {
    if has_sub(s, w_html()) {
        w_html()
    } else {
        s
    }
}

pub open spec fn rule_rest(s: Seq<char>) -> Seq<char> {
    if has_sub(s, w_rest()) {
        w_rest()
    } else {
        s
    }
}

pub open spec fn rule_go(s: Seq<char>) -> Seq<char> {
    if s == w_go() {
        w_golang()
    } else {
        s
    }
}

pub open spec fn rule_sap(s: Seq<char>) -> Seq<char> {
    if has_sub(s, w_sap()) {
        w_sap()
    } else {
        s
    }
}

pub open spec fn rule_java(s: Seq<char>) -> Seq<char> {
    if has_sub(s, w_java()) {
        if has_sub(s, w_script()) {
            w_javascript()
        } else {
            w_java()
        }
    } else {
        s
    }
}

pub open spec fn rule_js(s: Seq<char>) -> Seq<char> {
    if has_sub(s, w_js()) {
        w_javascript()
    } else {
        s
    }
}

pub open spec fn rule_react(s: Seq<char>) -> Seq<char> {
    if has_sub(s, w_react()) {
        if has_sub(s, w_native()) {
            w_react_native()
        } else {
            w_react()
        }
    } else {
        s
    }
}

pub open spec fn rule_webpack(s: Seq<char>) -> Seq<char> {
    if has_sub(s, w_webpack()) {
        w_webpack()
    } else {
        s
    }
}

pub open spec fn rule_front(s: Seq<char>) -> Seq<char> {
    if has_sub(s, w_front()) {
        w_front()
    } else {
        s
    }
}

pub open spec fn rule_back(s: Seq<char>) -> Seq<char> {
    if has_sub(s, w_back()) {
        w_back()
    } else {
        s
    }
}

pub open spec fn rule_full(s: Seq<char>) -> Seq<char> {
    if has_sub(s, w_full()) {
        w_full()
    } else {
        s
    }
}

pub open spec fn rule_lead(s: Seq<char>) -> Seq<char> {
    if has_sub(s, w_lead()) {
        w_lead()
    } else {
        s
    }
}

pub open spec fn rule_junior(s: Seq<char>) -> Seq<char> {
    if has_sub(s, w_junior()) {
        w_junior()
    } else {
        s
    }
}

pub open spec fn rule_middle(s: Seq<char>) -> Seq<char> {
    if has_sub(s, w_middle()) {
        w_middle()
    } else {
        s
    }
}

pub open spec fn rule_senior(s: Seq<char>) -> Seq<char> {
    if has_sub(s, w_senior()) {
        w_senior()
    } else {
        s
    }
}

pub open spec fn rule_mladshiy(s: Seq<char>) -> Seq<char> {
    if has_sub(s, w_mladshiy()) {
        w_mladshiy()
    } else {
        s
    }
}

pub open spec fn rule_starshiy(s: Seq<char>) -> Seq<char> {
    if has_sub(s, w_starshiy()) {
        w_starshiy()
    } else {
        s
    }
}

pub open spec fn rule_vedushchiy(s: Seq<char>) -> Seq<char> {
    if has_sub(s, w_vedushchiy()) {
        w_vedushchiy()
    } else {
        s
    }
}

/// The whole rule chain applied to one (already lower-cased) value.
pub open spec fn apply_rules(s: Seq<char>) -> Seq<char> {
    let s1 = rule_1c(s);
    let s2 = rule_php(s1);
    let s3 = rule_css(s2);
    let s4 = rule_html(s3);
    let s5 = rule_rest(s4);
    let s6 = rule_go(s5);
    let s7 = rule_sap(s6);
    let s8 = rule_java(s7);
    let s9 = rule_js(s8);
    let s10 = rule_react(s9);
    let s11 = rule_webpack(s10);
    let s12 = rule_front(s11);
    let s13 = rule_back(s12);
    let s14 = rule_full(s13);
    let s15 = rule_lead(s14);
    let s16 = rule_junior(s15);
    let s17 = rule_middle(s16);
    let s18 = rule_senior(s17);
    let s19 = rule_mladshiy(s18);
    let s20 = rule_starshiy(s19);
    rule_vedushchiy(s20)
}

/// What one raw skill becomes: lower-cased, then run through the chain.
pub open spec fn canon_skill(s: Seq<char>) -> Seq<char> {
    apply_rules(lower_of(s))
}

fn rewrite_contains(s: String, pat: &str, tok: &str) -> (r: String)
    ensures
        r@ == (if has_sub(s@, pat@) {
            tok@
        } else {
            s@
        }),
{
    if find_sub(s.as_str(), pat) {
        String::from_str(tok)
    } else {
        s
    }
}

/// Run the rewrite chain over one lower-cased skill value.
pub fn apply_skill_rules(s: String) -> (r: String)
    ensures
        r@ == apply_rules(s@),
{
    proof {
        reveal_strlit("1c");
        reveal_strlit("1\u{441}");
        reveal_strlit("php");
        reveal_strlit("css");
        reveal_strlit("html");
        reveal_strlit("rest");
        reveal_strlit("go");
        reveal_strlit("golang");
        reveal_strlit("sap");
        reveal_strlit("java");
        reveal_strlit("script");
        reveal_strlit("javascript");
        reveal_strlit("js");
        reveal_strlit("react");
        reveal_strlit("native");
        reveal_strlit("react native");
        reveal_strlit("webpack");
        reveal_strlit("front");
        reveal_strlit("back");
        reveal_strlit("full");
        reveal_strlit("lead");
        reveal_strlit("junior");
        reveal_strlit("middle");
        reveal_strlit("senior");
        reveal_strlit("\u{43c}\u{43b}\u{430}\u{434}\u{448}\u{438}\u{439}");
        reveal_strlit("\u{441}\u{442}\u{430}\u{440}\u{448}\u{438}\u{439}");
        reveal_strlit("\u{432}\u{435}\u{434}\u{443}\u{449}\u{438}\u{439}");
        assert("1c"@ =~= w_1c());
        assert("1\u{441}"@ =~= w_1s_cyr());
        assert("php"@ =~= w_php());
        assert("css"@ =~= w_css());
        assert("html"@ =~= w_html());
        assert("rest"@ =~= w_rest());
        assert("go"@ =~= w_go());
        assert("golang"@ =~= w_golang());
        assert("sap"@ =~= w_sap());
        assert("java"@ =~= w_java());
        assert("script"@ =~= w_script());
        assert("javascript"@ =~= w_javascript());
        assert("js"@ =~= w_js());
        assert("react"@ =~= w_react());
        assert("native"@ =~= w_native());
        assert("react native"@ =~= w_react_native());
        assert("webpack"@ =~= w_webpack());
        assert("front"@ =~= w_front());
        assert("back"@ =~= w_back());
        assert("full"@ =~= w_full());
        assert("lead"@ =~= w_lead());
        assert("junior"@ =~= w_junior());
        assert("middle"@ =~= w_middle());
        assert("senior"@ =~= w_senior());
        assert("\u{43c}\u{43b}\u{430}\u{434}\u{448}\u{438}\u{439}"@ =~= w_mladshiy());
        assert("\u{441}\u{442}\u{430}\u{440}\u{448}\u{438}\u{439}"@ =~= w_starshiy());
        assert("\u{432}\u{435}\u{434}\u{443}\u{449}\u{438}\u{439}"@ =~= w_vedushchiy());
    }
    let ghost v0 = s@;
    let s = if find_sub(s.as_str(), "1c") || find_sub(s.as_str(), "1\u{441}") {
        String::from_str("1c")
    } else {
        s
    };
    assert(s@ == rule_1c(v0));
    let ghost v1 = s@;
    let s = rewrite_contains(s, "php", "php");
    assert(s@ == rule_php(v1));
    let ghost v2 = s@;
    let s = rewrite_contains(s, "css", "css");
    assert(s@ == rule_css(v2));
    let ghost v3 = s@;
    let s = rewrite_contains(s, "html", "html");
    assert(s@ == rule_html(v3));
    let ghost v4 = s@;
    let s = rewrite_contains(s, "rest", "rest");
    assert(s@ == rule_rest(v4));
    let ghost v5 = s@;
    let s = if str_eq(s.as_str(), "go") {
        String::from_str("golang")
    } else {
        s
    };
    assert(s@ == rule_go(v5));
    let ghost v6 = s@;
    let s = rewrite_contains(s, "sap", "sap");
    assert(s@ == rule_sap(v6));
    let ghost v7 = s@;
    let s = if find_sub(s.as_str(), "java") {
        if find_sub(s.as_str(), "script") {
            String::from_str("javascript")
        } else {
            String::from_str("java")
        }
    } else {
        s
    };
    assert(s@ == rule_java(v7));
    let ghost v8 = s@;
    let s = rewrite_contains(s, "js", "javascript");
    assert(s@ == rule_js(v8));
    let ghost v9 = s@;
    let s = if find_sub(s.as_str(), "react") {
        if find_sub(s.as_str(), "native") {
            String::from_str("react native")
        } else {
            String::from_str("react")
        }
    } else {
        s
    };
    assert(s@ == rule_react(v9));
    let ghost v10 = s@;
    let s = rewrite_contains(s, "webpack", "webpack");
    assert(s@ == rule_webpack(v10));
    let ghost v11 = s@;
    let s = rewrite_contains(s, "front", "front");
    assert(s@ == rule_front(v11));
    let ghost v12 = s@;
    let s = rewrite_contains(s, "back", "back");
    assert(s@ == rule_back(v12));
    let ghost v13 = s@;
    let s = rewrite_contains(s, "full", "full");
    assert(s@ == rule_full(v13));
    let ghost v14 = s@;
    let s = rewrite_contains(s, "lead", "lead");
    assert(s@ == rule_lead(v14));
    let ghost v15 = s@;
    let s = rewrite_contains(s, "junior", "junior");
    assert(s@ == rule_junior(v15));
    let ghost v16 = s@;
    let s = rewrite_contains(s, "middle", "middle");
    assert(s@ == rule_middle(v16));
    let ghost v17 = s@;
    let s = rewrite_contains(s, "senior", "senior");
    assert(s@ == rule_senior(v17));
    let ghost v18 = s@;
    let s = rewrite_contains(
        s,
        "\u{43c}\u{43b}\u{430}\u{434}\u{448}\u{438}\u{439}",
        "\u{43c}\u{43b}\u{430}\u{434}\u{448}\u{438}\u{439}",
    );
    assert(s@ == rule_mladshiy(v18));
    let ghost v19 = s@;
    let s = rewrite_contains(
        s,
        "\u{441}\u{442}\u{430}\u{440}\u{448}\u{438}\u{439}",
        "\u{441}\u{442}\u{430}\u{440}\u{448}\u{438}\u{439}",
    );
    assert(s@ == rule_starshiy(v19));
    let ghost v20 = s@;
    let s = rewrite_contains(
        s,
        "\u{432}\u{435}\u{434}\u{443}\u{449}\u{438}\u{439}",
        "\u{432}\u{435}\u{434}\u{443}\u{449}\u{438}\u{439}",
    );
    assert(s@ == rule_vedushchiy(v20));
    s
}

/// Lower-case one raw skill name and run it through the rule chain.
pub fn canonicalize_skill(s: &str) -> (r: String)
    ensures
        r@ == canon_skill(s@),
{
    let lowered = lowercase(s);
    apply_skill_rules(lowered)
}

/// The seniority and role vocabulary whose tokens a title can imply.
pub open spec fn in_vocab(t: Seq<char>) -> bool {
    ||| t == w_junior()
    ||| t == w_middle()
    ||| t == w_senior()
    ||| t == w_mladshiy()
    ||| t == w_starshiy()
    ||| t == w_vedushchiy()
    ||| t == w_lead()
    ||| t == w_front()
    ||| t == w_back()
    ||| t == w_full()
}

fn in_vocab_impl(s: &str) -> (r: bool)
    ensures
        r == in_vocab(s@),
{
    proof {
        reveal_strlit("junior");
        reveal_strlit("middle");
        reveal_strlit("senior");
        reveal_strlit("\u{43c}\u{43b}\u{430}\u{434}\u{448}\u{438}\u{439}");
        reveal_strlit("\u{441}\u{442}\u{430}\u{440}\u{448}\u{438}\u{439}");
        reveal_strlit("\u{432}\u{435}\u{434}\u{443}\u{449}\u{438}\u{439}");
        reveal_strlit("lead");
        reveal_strlit("front");
        reveal_strlit("back");
        reveal_strlit("full");
        assert("junior"@ =~= w_junior());
        assert("middle"@ =~= w_middle());
        assert("senior"@ =~= w_senior());
        assert("\u{43c}\u{43b}\u{430}\u{434}\u{448}\u{438}\u{439}"@ =~= w_mladshiy());
        assert("\u{441}\u{442}\u{430}\u{440}\u{448}\u{438}\u{439}"@ =~= w_starshiy());
        assert("\u{432}\u{435}\u{434}\u{443}\u{449}\u{438}\u{439}"@ =~= w_vedushchiy());
        assert("lead"@ =~= w_lead());
        assert("front"@ =~= w_front());
        assert("back"@ =~= w_back());
        assert("full"@ =~= w_full());
    }
    str_eq(s, "junior") || str_eq(s, "middle") || str_eq(s, "senior") || str_eq(
        s,
        "\u{43c}\u{43b}\u{430}\u{434}\u{448}\u{438}\u{439}",
    ) || str_eq(s, "\u{441}\u{442}\u{430}\u{440}\u{448}\u{438}\u{439}") || str_eq(
        s,
        "\u{432}\u{435}\u{434}\u{443}\u{449}\u{438}\u{439}",
    ) || str_eq(s, "lead") || str_eq(s, "front") || str_eq(s, "back") || str_eq(s, "full")
}

/// A skill the (lower-cased) title implies: a whitespace-separated
/// token that the rewrite chain maps into the vocabulary above.
pub open spec fn implied_skill(title: Seq<char>, x: Seq<char>) -> bool {
    exists|i: int|
        0 <= i < split_spaces(title).len() && x == apply_rules(split_spaces(title)[i]) && in_vocab(
            x,
        )
}

/// The normalized skill set of one record: every raw skill
/// canonicalized, every title-implied token added, the whole sorted
/// and deduplicated.
///
/// The result is strictly sorted, so it holds no duplicates, whatever
/// the input was.
pub fn normalize_skills(skills: &Vec<String>, title: &str) -> (r: Vec<String>)
    ensures
        strictly_sorted_views(r@),
        forall|x: Seq<char>|
            #[trigger] seq_has_view(r@, x) <==> ((exists|i: int|
                0 <= i < skills@.len() && x == canon_skill(skills@[i]@)) || implied_skill(
                title@,
                x,
            )),
{
    let mut out: Vec<String> = Vec::new();
    let mut i: usize = 0;
    while i < skills.len()
        invariant
            strictly_sorted_views(out@),
            i <= skills@.len(),
            forall|x: Seq<char>|
                #[trigger] seq_has_view(out@, x) <==> (exists|k: int|
                    0 <= k < i && x == canon_skill(skills@[k]@)),
        decreases skills@.len() - i,
    {
        let c = canonicalize_skill(skills[i].as_str());
        let ghost cv = c@;
        let ghost gi = i as int;
        let ghost pre = out@;
        insert_sorted_unique(&mut out, c);
        proof {
            assert forall|x: Seq<char>|
                seq_has_view(out@, x) <==> (exists|k: int|
                    0 <= k < gi + 1 && x == canon_skill(skills@[k]@)) by {
                if seq_has_view(out@, x) {
                    if x == cv {
                        assert(x == canon_skill(skills@[gi]@));
                    }
                }
                if exists|k: int| 0 <= k < gi + 1 && x == canon_skill(skills@[k]@) {
                    let k = choose|k: int| 0 <= k < gi + 1 && x == canon_skill(skills@[k]@);
                    if k < gi {
                        assert(seq_has_view(pre, x));
                    } else {
                        assert(x == cv);
                    }
                }
            }
        }
        i = i + 1;
    }
    let toks = split_ws(title);
    let ghost base = out@;
    let mut j: usize = 0;
    while j < toks.len()
        invariant
            strictly_sorted_views(out@),
            j <= toks@.len(),
            toks@.len() == split_spaces(title@).len(),
            forall|k: int| 0 <= k < toks@.len() ==> toks@[k]@ == split_spaces(title@)[k],
            forall|x: Seq<char>|
                #[trigger] seq_has_view(out@, x) <==> (seq_has_view(base, x) || (exists|k: int|
                    0 <= k < j && x == apply_rules(split_spaces(title@)[k]) && in_vocab(x))),
            forall|x: Seq<char>|
                #[trigger] seq_has_view(base, x) <==> (exists|k: int|
                    0 <= k < skills@.len() && x == canon_skill(skills@[k]@)),
        decreases toks@.len() - j,
    {
        let c = apply_skill_rules(toks[j].clone());
        let ghost cv = c@;
        let ghost gj = j as int;
        let ghost pre = out@;
        proof {
            assert(forall|x: Seq<char>|
                seq_has_view(pre, x) <==> (seq_has_view(base, x) || (exists|k: int|
                    0 <= k < gj && x == apply_rules(split_spaces(title@)[k]) && in_vocab(x))));
        }
        if in_vocab_impl(c.as_str()) {
            insert_sorted_unique(&mut out, c);
        }
        proof {
            assert forall|x: Seq<char>|
                seq_has_view(out@, x) <==> (seq_has_view(base, x) || (exists|k: int|
                    0 <= k < gj + 1 && x == apply_rules(split_spaces(title@)[k]) && in_vocab(
                        x,
                    ))) by {
                if seq_has_view(out@, x) {
                    if !seq_has_view(pre, x) {
                        assert(x == cv && in_vocab(x));
                        assert(x == apply_rules(split_spaces(title@)[gj]));
                    }
                }
                if exists|k: int|
                    0 <= k < gj + 1 && x == apply_rules(split_spaces(title@)[k]) && in_vocab(x) {
                    let k = choose|k: int|
                        0 <= k < gj + 1 && x == apply_rules(split_spaces(title@)[k]) && in_vocab(
                            x,
                        );
                    if k < gj {
                        assert(0 <= k < gj && x == apply_rules(split_spaces(title@)[k])
                            && in_vocab(x));
                        assert(exists|k2: int|
                            0 <= k2 < gj && x == apply_rules(split_spaces(title@)[k2])
                                && in_vocab(x));
                        assert(seq_has_view(pre, x));
                        assert(seq_has_view(out@, x));
                    } else {
                        assert(x == cv);
                        assert(in_vocab(cv));
                        assert(seq_has_view(out@, x));
                    }
                }
            }
        }
        j = j + 1;
    }
    proof {
        assert forall|x: Seq<char>|
            seq_has_view(out@, x) <==> ((exists|i: int|
                0 <= i < skills@.len() && x == canon_skill(skills@[i]@)) || implied_skill(
                title@,
                x,
            )) by {
            let n = split_spaces(title@).len() as int;
            if seq_has_view(out@, x) {
                if !seq_has_view(base, x) {
                    let k = choose|k: int|
                        0 <= k < n && x == apply_rules(split_spaces(title@)[k]) && in_vocab(x);
                    assert(0 <= k < n && x == apply_rules(split_spaces(title@)[k]) && in_vocab(
                        x,
                    ));
                    assert(implied_skill(title@, x));
                }
            }
            if implied_skill(title@, x) {
                let k = choose|k: int|
                    0 <= k < n && x == apply_rules(split_spaces(title@)[k]) && in_vocab(x);
                assert(0 <= k < n && x == apply_rules(split_spaces(title@)[k]) && in_vocab(x));
                assert(j == toks@.len());
                assert(toks@.len() == split_spaces(title@).len());
                assert(k < j);
                assert(exists|k2: int|
                    0 <= k2 < j && x == apply_rules(split_spaces(title@)[k2]) && in_vocab(x));
                assert(seq_has_view(out@, x));
            }
            if exists|i: int| 0 <= i < skills@.len() && x == canon_skill(skills@[i]@) {
                assert(seq_has_view(base, x));
                assert(seq_has_view(out@, x));
            }
        }
    }
    out
}

} // verus!
