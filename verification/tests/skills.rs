use extract_transform_load::hh::skills::{apply_skill_rules, canonicalize_skill, normalize_skills};

fn canon(s: &str) -> String {
    canonicalize_skill(s)
}

#[test]
fn skill_lowercase_test() {
    // the raw name is lower-cased before the rules run
    assert_eq!(canon("PHP"), "php");
    assert_eq!(canon("Senior Management"), "senior");
}

#[test]
fn skill_rule_1c_test() {
    assert_eq!(canon("1c enterprise"), "1c");
    assert_eq!(canon("1\u{441} enterprise"), "1c");
}

#[test]
fn skill_rule_php_test() {
    assert_eq!(canon("advanced php"), "php");
}

#[test]
fn skill_rule_css_test() {
    assert_eq!(canon("css3"), "css");
}

#[test]
fn skill_rule_html_test() {
    assert_eq!(canon("html5"), "html");
}

#[test]
fn skill_rule_rest_test() {
    assert_eq!(canon("restful api"), "rest");
}

#[test]
fn skill_rule_go_test() {
    // only the exact name is rewritten
    assert_eq!(canon("go"), "golang");
    assert_eq!(canon("gopher"), "gopher");
}

#[test]
fn skill_rule_sap_test() {
    assert_eq!(canon("sap erp"), "sap");
}

#[test]
fn skill_rule_java_test() {
    assert_eq!(canon("java se"), "java");
    assert_eq!(canon("typescript and javascript"), "javascript");
}

#[test]
fn skill_rule_js_test() {
    assert_eq!(canon("node.js"), "javascript");
}

#[test]
fn skill_rule_react_test() {
    assert_eq!(canon("reactjs"), "javascript");
    assert_eq!(canon("react hooks"), "react");
    assert_eq!(canon("react native apps"), "react native");
}

#[test]
fn skill_rule_webpack_test() {
    assert_eq!(canon("webpack 4"), "webpack");
}

#[test]
fn skill_rule_seniority_test() {
    assert_eq!(canon("frontend"), "front");
    assert_eq!(canon("backend"), "back");
    assert_eq!(canon("fullstack"), "full");
    assert_eq!(canon("team lead"), "lead");
    assert_eq!(canon("junior dev"), "junior");
    assert_eq!(canon("middle dev"), "middle");
    assert_eq!(canon("senior dev"), "senior");
    assert_eq!(
        canon("\u{43c}\u{43b}\u{430}\u{434}\u{448}\u{438}\u{439} \u{434}\u{435}\u{432}"),
        "\u{43c}\u{43b}\u{430}\u{434}\u{448}\u{438}\u{439}"
    );
    assert_eq!(
        canon("\u{441}\u{442}\u{430}\u{440}\u{448}\u{438}\u{439} \u{434}\u{435}\u{432}"),
        "\u{441}\u{442}\u{430}\u{440}\u{448}\u{438}\u{439}"
    );
    assert_eq!(
        canon("\u{432}\u{435}\u{434}\u{443}\u{449}\u{438}\u{439} \u{434}\u{435}\u{432}"),
        "\u{432}\u{435}\u{434}\u{443}\u{449}\u{438}\u{439}"
    );
}

#[test]
fn skill_untouched_test() {
    assert_eq!(canon("postgresql"), "postgresql");
    assert_eq!(canon(""), "");
}

#[test]
fn skill_chain_idempotent_test() {
    // applying the rewrite chain twice equals applying it once
    let samples = vec![
        "advanced php",
        "node.js",
        "react native apps",
        "go",
        "gopher",
        "1c enterprise",
        "typescript and javascript",
        "postgresql",
        "backend",
        "",
    ];

    for s in samples {
        let once = canon(s);
        let twice = apply_skill_rules(once.clone());
        assert_eq!(twice, once);
    }
}

#[test]
fn normalize_skills_sorted_dedup_test() {
    let skills = vec![
        String::from("PHP"),
        String::from("php frameworks"),
        String::from("Java"),
        String::from("1C"),
    ];
    let out = normalize_skills(&skills, "senior backend developer");

    assert_eq!(out, vec!["1c", "back", "java", "php", "senior"]);
}

#[test]
fn normalize_skills_title_only_test() {
    let skills: Vec<String> = Vec::new();
    let out = normalize_skills(&skills, "middle frontend developer");

    assert_eq!(out, vec!["front", "middle"]);
}
