use std::fmt;

use fluvio_control::generate::expand::{
    build_liquid_globals, expand_text, expansion_input, expansion_output, output_name_of,
};
use fluvio_control::generate::ignore::{build_globset, is_ignored};
use fluvio_control::generate::kebab::kebab_case;
use fluvio_control::generate::project::{
    generate, load_genignore_from_embedded, plan_project, GenerateConfig, PlanItem,
    TemplateEntry, TemplateTree,
};
use fluvio_control::generate::references::extract_template_variables;
use fluvio_control::generate::tame::is_tame;
use fluvio_control::generate::tags::{preprocess_template, rewrite_tag};
use fluvio_control::generate::variables::{
    hyphenated_names, parse_variables, variables_of_project,
};
use fluvio_control::string_map::StringMap;
use liquid_core::parser::{FilterArguments, ParameterReflection};
use liquid_core::{
    Filter, FilterReflection, ParseFilter, Runtime, Value, ValueView,
};

#[derive(Clone)]
struct KebabParser;

#[derive(Debug)]
struct Kebab;

impl fmt::Display for Kebab {
    fn fmt(&self, f: &mut fmt::Formatter<'_>) -> fmt::Result {
        f.write_str("kebab_case")
    }
}

impl Filter for Kebab {
    fn evaluate(
        &self,
        input: &dyn ValueView,
        _runtime: &dyn Runtime,
    ) -> liquid_core::Result<Value> {
        Ok(Value::scalar(kebab_case(input.to_kstr().as_str())))
    }
}

impl FilterReflection for KebabParser {
    fn name(&self) -> &str {
        "kebab_case"
    }

    fn description(&self) -> &str {
        "Convert a string to kebab-case"
    }

    fn positional_parameters(&self) -> &'static [ParameterReflection] {
        &[]
    }

    fn keyword_parameters(&self) -> &'static [ParameterReflection] {
        &[]
    }
}

impl ParseFilter for KebabParser {
    fn parse(&self, _arguments: FilterArguments<'_>) -> liquid_core::Result<Box<dyn Filter>> {
        Ok(Box::new(Kebab))
    }

    fn reflection(&self) -> &dyn FilterReflection {
        self
    }
}

fn parser() -> liquid::Parser {
    liquid::ParserBuilder::with_stdlib()
        .filter(KebabParser)
        .build()
        .unwrap()
}

fn strings(list: &[&str]) -> Vec<String> {
    list.iter().map(|s| s.to_string()).collect()
}

fn variables(list: &[(&str, &str)]) -> StringMap<String> {
    let mut vars = StringMap::new();
    for (key, value) in list {
        vars.insert(key.to_string(), value.to_string());
    }
    vars
}

fn file(name: &str, contents: &str) -> TemplateEntry {
    TemplateEntry::File {
        name: name.to_string(),
        contents: Some(contents.to_string()),
    }
}

fn dir(name: &str, entries: Vec<TemplateEntry>) -> TemplateEntry {
    TemplateEntry::Dir {
        name: name.to_string(),
        tree: TemplateTree { entries },
    }
}

fn config(name: &str) -> GenerateConfig {
    GenerateConfig {
        name: name.to_string(),
        destination: Some("/out".to_string()),
        define: vec![],
        silent: true,
        verbose: false,
    }
}

fn listed(items: &[PlanItem]) -> Vec<(String, Option<String>)> {
    items
        .iter()
        .map(|item| match item {
            PlanItem::Dir { path } => (path.clone(), None),
            PlanItem::File { path, contents } => (path.clone(), Some(contents.clone())),
        })
        .collect()
}

#[test]
fn test_parse_variables() {
    let define = vec![
        "project-name=my-project".to_string(),
        "connector-type=source".to_string(),
    ];
    let vars = parse_variables(&define);
    assert_eq!(vars.get("project-name"), Some(&"my-project".to_string()));
    assert_eq!(vars.get("project_name"), Some(&"my-project".to_string()));
    assert_eq!(vars.get("connector-type"), Some(&"source".to_string()));
    assert_eq!(vars.get("connector_type"), Some(&"source".to_string()));
}

#[test]
fn variables_with_and_without_a_value() {
    let vars = parse_variables(&strings(&["a=b=c", "flag", "=x", "e=", "a=d"]));
    assert_eq!(vars.len(), 3);
    assert_eq!(vars.get("a"), Some(&"d".to_string()));
    assert_eq!(vars.get(""), Some(&"x".to_string()));
    assert_eq!(vars.get("e"), Some(&String::new()));
    assert_eq!(vars.get("flag"), None);
}

#[test]
fn the_name_of_the_project_wins() {
    let vars = variables_of_project("my-app", &strings(&["project-name=x", "crate_name=y", "a-b=1"]));
    assert_eq!(vars.get("project-name"), Some(&"my-app".to_string()));
    assert_eq!(vars.get("project_name"), Some(&"my-app".to_string()));
    assert_eq!(vars.get("crate_name"), Some(&"my_app".to_string()));
    assert_eq!(vars.get("crate-name"), None);
    assert_eq!(hyphenated_names(&vars), strings(&["project-name", "a-b"]));
}

#[test]
fn no_definition_changes_the_name_in_the_template() {
    let parser = liquid::ParserBuilder::with_stdlib().build().unwrap();
    let define = strings(&["project_name=p", "project-name=other", "crate_name=c", "crate-name=d"]);
    let vars = variables_of_project("app-x", &define);
    let globals = build_liquid_globals(&vars);
    let names = hyphenated_names(&vars);
    let text = "{{ project-name }} {{ project_name }} {{ crate_name }} {{ crate-name }}";
    assert_eq!(expand_text(text, &parser, &globals, &names), "app-x app-x app_x app_x");
}

#[test]
fn test_expand_and_write_plain() {
    let parser = liquid::ParserBuilder::with_stdlib().build().unwrap();
    let globals = liquid::Object::new();
    let content = expand_text("hello world", &parser, &globals, &vec![]);
    assert_eq!(content, "hello world");
    assert_eq!(output_name_of("test.txt"), "test.txt");
}

#[test]
fn test_expand_and_write_liquid() {
    let parser = liquid::ParserBuilder::with_stdlib().build().unwrap();
    let mut globals = liquid::Object::new();
    globals.insert("name".into(), liquid_core::Value::scalar("fluvio"));
    let content = expand_text("hello {{ name }}", &parser, &globals, &vec![]);
    assert_eq!(content, "hello fluvio");
}

#[test]
fn test_expand_and_write_strips_liquid_extension() {
    let parser = liquid::ParserBuilder::with_stdlib().build().unwrap();
    let globals = liquid::Object::new();
    let content = expand_text("[package]", &parser, &globals, &vec![]);
    assert_eq!(content, "[package]");
    assert_eq!(output_name_of("Cargo.toml.liquid"), "Cargo.toml");
    assert_eq!(output_name_of(".liquid"), "");
    assert_eq!(output_name_of("liquid"), "liquid");
}

#[test]
fn test_build_liquid_globals_uses_underscores() {
    let vars = variables(&[("project-name", "my-project"), ("crate_name", "my_project")]);
    let globals = build_liquid_globals(&vars);
    assert!(globals.contains_key("project_name"));
    assert!(globals.contains_key("crate_name"));
    assert!(!globals.contains_key("project-name"));
    assert_eq!(
        globals.get("project_name").unwrap().to_kstr().as_str(),
        "my-project"
    );
}

#[test]
fn test_preprocess_output_tags() {
    let vars = vec!["project-name".to_string()];
    let input = "name = \"{{project-name}}\"";
    let result = preprocess_template(input, &vars);
    assert_eq!(result, "name = \"{{project_name}}\"");
}

#[test]
fn test_preprocess_output_tags_with_spaces() {
    let vars = vec!["project-name".to_string()];
    let input = "name = \"{{ project-name }}\"";
    let result = preprocess_template(input, &vars);
    assert_eq!(result, "name = \"{{ project_name }}\"");
}

#[test]
fn test_preprocess_output_tags_with_filter() {
    let vars = vec!["project-group".to_string()];
    let input = "group = \"{{project-group | kebab_case}}\"";
    let result = preprocess_template(input, &vars);
    assert_eq!(result, "group = \"{{project_group | kebab_case}}\"");
}

#[test]
fn test_preprocess_if_conditional() {
    let vars = vec!["connector-type".to_string()];
    let input = "{% if connector-type == \"source\" %}source{% endif %}";
    let result = preprocess_template(input, &vars);
    assert_eq!(
        result,
        "{% if connector_type == \"source\" %}source{% endif %}"
    );
}

#[test]
fn test_preprocess_elsif() {
    let vars = vec!["smartmodule-type".to_string()];
    let input = "{% if smartmodule-type == \"filter\" %}f{% elsif smartmodule-type == \"map\" %}m{% endif %}";
    let result = preprocess_template(input, &vars);
    assert_eq!(
        result,
        "{% if smartmodule_type == \"filter\" %}f{% elsif smartmodule_type == \"map\" %}m{% endif %}"
    );
}

#[test]
fn test_preprocess_truthy_check() {
    let vars = vec!["smartmodule-params".to_string()];
    let input = "{% if smartmodule-params %}has params{% endif %}";
    let result = preprocess_template(input, &vars);
    assert_eq!(
        result,
        "{% if smartmodule_params %}has params{% endif %}"
    );
}

#[test]
fn test_preprocess_whitespace_trimming_tags() {
    let vars = vec!["connector-type".to_string()];
    let input = "{%- if connector-type == \"sink\" -%}sink{%- endif -%}";
    let result = preprocess_template(input, &vars);
    assert_eq!(
        result,
        "{%- if connector_type == \"sink\" -%}sink{%- endif -%}"
    );
}

#[test]
fn test_preprocess_leaves_non_tag_text_alone() {
    let vars = vec!["project-name".to_string()];
    let input = "The project-name is {{ project-name }}";
    let result = preprocess_template(input, &vars);
    // "project-name" in prose is NOT changed, only inside {{ }}
    assert_eq!(result, "The project-name is {{ project_name }}");
}

#[test]
fn test_preprocess_multiple_vars() {
    let vars = vec![
        "project-name".to_string(),
        "connector-type".to_string(),
    ];
    let input = "{{ project-name }} {% if connector-type == \"source\" %}src{% endif %}";
    let result = preprocess_template(input, &vars);
    assert_eq!(
        result,
        "{{ project_name }} {% if connector_type == \"source\" %}src{% endif %}"
    );
}

#[test]
fn a_tag_ends_on_its_line() {
    let names = strings(&["a-b"]);
    assert_eq!(preprocess_template("{{ a-b\n a-b }}", &names), "{{ a-b\n a-b }}");
    assert_eq!(preprocess_template("{{ a-b }} a-b {{a-b}}", &names), "{{ a_b }} a-b {{a_b}}");
    assert_eq!(preprocess_template("{% a-b }} %} a-b", &names), "{% a_b }} %} a-b");
    assert_eq!(preprocess_template("{{ a-b }}", &vec![]), "{{ a-b }}");
}

#[test]
fn the_longest_name_is_rewritten() {
    assert_eq!(rewrite_tag("{{ a-b-c }}", &strings(&["a-b"])), "{{ a_b-c }}");
    assert_eq!(rewrite_tag("{{ a-b-c }}", &strings(&["a-b", "a-b-c"])), "{{ a_b_c }}");
    assert_eq!(rewrite_tag("{{ a-b-c }}", &strings(&["a-b-c", "a-b"])), "{{ a_b_c }}");
    assert_eq!(rewrite_tag("{{ a-b-c }}", &strings(&["a-b", "b-c"])), "{{ a_b-c }}");
    assert_eq!(rewrite_tag("{{ a-b-c-d }}", &strings(&["a-b-c", "b-c-d"])), "{{ a_b_c-d }}");
    assert_eq!(rewrite_tag("{{ a-b | x-y }}", &strings(&["", "x-y", "a-b"])), "{{ a_b | x_y }}");
    assert_eq!(rewrite_tag("{{ a-a-a }}", &strings(&["a-a"])), "{{ a_a-a }}");
}

#[test]
fn references_of_a_template() {
    assert_eq!(
        extract_template_variables(
            "{{ a }}{{-b | c }}{% if  d == e %}{%- elsif f2 %}{% unless _g %}{% assign h = 1 %}\
             {% for i in j %}{% endif %}{% ifx %}{{ 9z }}{{\u{2003}k }} l"
        ),
        strings(&["a", "b", "d", "e", "f2", "_g", "h", "i", "j", "k"])
    );
    assert!(extract_template_variables("plain").is_empty());
}

#[test]
fn every_variable_of_a_tag_is_found() {
    for (text, names) in [
        ("{% if a and b %}x{% endif %}", vec!["a", "b"]),
        ("{% if a == true or b contains 'c d' %}", vec!["a", "b"]),
        ("{{ a | default: b, c: d | e }}", vec!["a", "b", "d"]),
        ("{{ a.b.c }}{{ d[e] }}", vec!["a", "d", "e"]),
        ("{% for i in (1..n) reversed limit: m %}", vec!["i", "n", "m"]),
        ("{% case a %}{% when b, \"c\" %}{% endcase %}", vec!["a", "b"]),
        ("{{\n a\n}} b {{ a }}", vec!["a", "a"]),
        ("{{ \"it's {{ a\" }}", vec![]),
        ("{{ nil }}{{ null }}{{ empty }}{{ blank }}{{ false }}", vec![]),
        ("{{ a", vec!["a"]),
    ] {
        assert_eq!(extract_template_variables(text), strings(&names), "{text}");
    }
}

#[test]
fn texts_on_which_the_language_could_stop_stay_as_they_are() {
    let parser = liquid::ParserBuilder::with_stdlib().build().unwrap();
    let mut globals = build_liquid_globals(&variables(&[("n", "-9223372036854775808")]));
    globals.insert("list".into(), Value::Array(vec![Value::scalar("a"), Value::scalar(1)]));
    for text in [
        "{{ 99999999999999999999 }}",
        "{{ -9223372036854775808 | divided_by: -1 }}",
        "{{ n | divided_by: -1 }}",
        "{{ n | modulo: -1 }}",
        "{{ n | minus: 1 }}",
        "{{ '9' | append: '99999999999999999' | times: 1000 }}",
        "{% if nil99999999999999999999 %}{% endif %}",
        "{{ 'a}}' | plus: 99999999999999999999 }}",
        "{% for i in (1..9223372036854775807) %}{% endfor %}",
        "{% for i in (1..n) %}{% endfor %}",
        "{%assign -=\"-9223372036854775808\"%}{{ -|divided_by:-1}}",
        "{%assign -=\"-9223372036854775808\"%}{{ -|modulo:-1}}",
        "{% assign a-1 = -9223372036854775807 %}{% for i in (a-1..5) %}{% endfor %}",
        "{% assign -a = n %}{{--a|abs}}",
        "{% assign x = 9 %}{% for i in (1..99) %}{% assign x = x | times: x %}{% endfor %}",
        "{% capture x %}{{ n }}{% endcapture %}{{ x | abs }}",
        "{{ '1e18' | plus: 0 | upcase | times: 10 }}",
        "{{ 1.0 | divided_by: 3 | append: '999' | remove: '.' | times: 9 }}",
        "{{ 'now' | date: '%\u{e9}' }}",
        "{{ list | sort }}",
        "{{ '' | split: ',' | default: list | sort }}",
        "{% assign l = 'a,b' | split: ',' %}{% assign m = 5 | sort %}{{ l | concat: m | sort }}",
        "{% assign l = list %}{{ l | sort }}",
        "{% comment %}{{ '{% endcomment %}' }}{% if n %}",
        "{% tablerow i in x cols: 0 %}{% endtablerow %}",
        "{% cycle 'a': %}",
        "{{ 'abc' | slice: 1, 9223372036854775807 }}",
        "{{ 'now' | date: '%99999N' }}",
        "{{ 'now' | date: n }}",
        "\u{e9}\u{e9}\u{e9}\u{e9}\u{e9}{{ \"x\" }}{{ \" }}",
        "{{ \"x\n {{ \" }}{{ \" }}",
        "{% comment %}{% if n %}",
        "{% comment %}{% raw %}{% endcomment %}",
        "{% comment %}{% if n %}{{ 1 1 }}{% endif %}{% endcomment %}",
        "{% comment %}{% if n %}{% endcomment %}{% endif %}",
    ] {
        assert_eq!(expand_text(text, &parser, &globals, &vec![]), text);
        assert!(!is_tame(text, &globals), "{text}");
    }
}

#[test]
fn texts_that_the_language_works_on() {
    let parser = liquid::ParserBuilder::with_stdlib().build().unwrap();
    let globals = build_liquid_globals(&variables(&[("a", "x"), ("b", ""), ("n", "4")]));
    for (text, expected) in [
        ("{{ 9223372036854775807 }} 99999999999999999999", "9223372036854775807 99999999999999999999"),
        ("{{ \"99999999999999999999\" }}", "99999999999999999999"),
        ("{{ 7 | plus: 2 }} {{ 7 | divided_by: -2 }} {{ -5 | abs }}", "9 -3 5"),
        ("{{ 999999999 | times: 999999999 }}", "999999998000000001"),
        ("{% for i in (1..3) %}{{ i }}{% endfor %}...", "123..."),
        ("{% if a == 'x' and b == '' %}{{ a | upcase }}{% endif %}", "X"),
        ("{{ a | append: '1' | size }}", "2"),
        ("{% raw %}{{ a }}{% endraw %}", "{{ a }}"),
        ("{{ missing }}|{{ a }}", "|x"),
        ("{{x|slice:0}}{{ 'abc' | slice: 1, 2 }}{{ 'abcdef' | slice: n }}", "bce"),
        ("{{ n | plus: 1 }} {{ n | times: n | minus: 6 | abs }} {{ 'a' | size | plus: 1 }}", "5 10 2"),
        ("{{ n | plus: 1 | append: '%' }}", "5%"),
        ("{% assign y = n | times: 2 %}{{ y | plus: n }}", "12"),
        ("{% for i in (1..n) %}{{ i | times: 10 }} {% endfor %}", "10 20 30 40 "),
        ("{% for i in (1..3) %}{% cycle 'p', 'q' %}{% endfor %}", "pqp"),
        ("{{ 'b,a' | split: ',' | sort | join: ',' }}", "a,b"),
        ("{% assign l = 'b,a' | split: ',' %}{{ l | sort | join: ',' }}", "a,b"),
        ("{{ n | sort }}{{ missing | sort }}", "4"),
        ("{{ '2020-01-02 03:04:05' | date: '%4Y-%-m' }}", "2020-1"),
        (
            "{% assign l = 'a,b' | split: ',' %}{% tablerow i in l cols: 2 %}{{ i }}{% endtablerow %}",
            "<tr class=\"row1\"><td class=\"col1\">a</td><td class=\"col2\">b</td></tr>",
        ),
        ("{% comment %}{% assign z = 1 %}{{ z }}{% else %}{% endcomment %}{{ n }}", "4"),
        (
            "{% comment %}{% if a %}{{ a | upcase }}{% else %}{% unless b %}{% endunless %}\
             {% endif %}{{ bad bad }}{% endcomment %}{{ n }}",
            "4",
        ),
        ("{% for i in (1..2) %}{{ forloop.index | plus: 1 }}{% endfor %}", "23"),
        ("\u{e9}{{ \"'\" }}{{ a | append: \"y\" | replace: 'x', \"z\" }}", "\u{e9}'zy"),
        ("\u{e9}{{ \"'\" }}{% if a == \"x\" %}{{- a -}}{% endif %}", "\u{e9}'x"),
        ("{% if a %}\u{e9}{{ \"'\" }}{{ a }}{%- endif %}", "\u{e9}'x"),
        ("{{ '{{' }} {{ a | upcase }} {{ \"}}\" }}", "{{ X }}"),
        ("{{ a }}{% comment %}\n {{ a }} 'b'\n{%- endcomment -%}", "x"),
    ] {
        assert!(is_tame(text, &globals), "{text}");
        assert_eq!(expand_text(text, &parser, &globals, &vec![]), expected);
    }
    let year = expand_text("{{ 'now' | date: '%Y' }}", &parser, &globals, &vec![]);
    assert_eq!(year.len(), 4);
}

#[test]
fn missing_variables_are_empty() {
    let globals = build_liquid_globals(&variables(&[("a", "1")]));
    let (text, full) = expansion_input("{{a}}-{{b}}-{{ c-d }}", &globals, &strings(&["c-d"])).unwrap();
    assert_eq!(text, "{{a}}-{{b}}-{{ c_d }}");
    assert_eq!(full.get("a").unwrap().to_kstr().as_str(), "1");
    assert_eq!(full.get("b").unwrap().to_kstr().as_str(), "");
    assert_eq!(full.get("c_d").unwrap().to_kstr().as_str(), "");
    assert_eq!(full.len(), 3);
    assert_eq!(
        expand_text("{{a}}-{{b}}-{{ c-d }}", &parser(), &globals, &strings(&["c-d"])),
        "1--"
    );
    assert!(expansion_input("no tag", &globals, &vec![]).is_none());
}

#[test]
fn a_text_that_makes_no_sense_stays() {
    let globals = liquid::Object::new();
    let names = strings(&["a-b"]);
    assert_eq!(expand_text("{% if a-b %}", &parser(), &globals, &names), "{% if a-b %}");
    assert_eq!(expand_text("{{ a-b", &parser(), &globals, &names), "{{ a-b");
    assert_eq!(expansion_output("as it was", None), "as it was");
    assert_eq!(expansion_output("as it was", Some("new".to_string())), "new");
}

#[test]
fn test_end_to_end_hyphenated_variable() {
    let parser = liquid::ParserBuilder::with_stdlib().build().unwrap();
    let globals = build_liquid_globals(&variables(&[("project-name", "my-connector")]));
    let hyphenated = vec!["project-name".to_string()];

    let template = "name = \"{{project-name}}\"\ncrate = \"{{ project-name }}\"";
    let content = expand_text(template, &parser, &globals, &hyphenated);
    assert_eq!(content, "name = \"my-connector\"\ncrate = \"my-connector\"");
    assert!(!content.contains("{{"));
}

#[test]
fn test_end_to_end_conditional_with_hyphenated_var() {
    let parser = liquid::ParserBuilder::with_stdlib().build().unwrap();
    let globals = build_liquid_globals(&variables(&[
        ("connector-type", "source"),
        ("connector_type", "source"),
    ]));
    let hyphenated = vec!["connector-type".to_string()];

    let template = "{% if connector-type == \"source\" %}SOURCE{% else %}SINK{% endif %}";
    let content = expand_text(template, &parser, &globals, &hyphenated);
    assert_eq!(content, "SOURCE");
}

#[test]
fn test_end_to_end_filter_with_hyphenated_var() {
    let globals = build_liquid_globals(&variables(&[
        ("project-group", "MyGroup"),
        ("project_group", "MyGroup"),
    ]));
    let hyphenated = vec!["project-group".to_string()];

    let template = "group = \"{{project-group | kebab_case}}\"";
    let content = expand_text(template, &parser(), &globals, &hyphenated);
    assert_eq!(content, "group = \"my-group\"");
    assert!(!content.contains("{{"));
}

#[test]
fn names_in_kebab_case() {
    assert_eq!(kebab_case("MyGroup"), "my-group");
    assert_eq!(kebab_case("my_group name"), "my-group-name");
    assert_eq!(kebab_case("HTTPServer"), "h-t-t-p-server");
    assert_eq!(kebab_case("\u{c4}\u{d6}x"), "\u{e4}-\u{f6}x");
    assert_eq!(kebab_case("a\u{130}"), "a-i");
    assert_eq!(kebab_case(""), "");
}

#[test]
fn test_genignore_skips_matching_files() {
    let tree = TemplateTree {
        entries: vec![
            file("keep.txt", "hello"),
            file("skip.log", "should not appear"),
            file(".genignore", "*.log\n"),
        ],
    };
    let project = generate(&tree, &config("test"), &parser());
    assert_eq!(
        listed(&project.items),
        vec![("/out/test/keep.txt".to_string(), Some("hello".to_string()))]
    );
}

#[test]
fn test_genignore_handles_comments_and_blanks() {
    let content = "# comment\n\n*.tmp\n  \n# another comment\n*.bak\n";
    let globset = build_globset(content).unwrap();
    assert!(globset.is_match("foo.tmp"));
    assert!(globset.is_match("bar.bak"));
    assert!(!globset.is_match("keep.txt"));
}

#[test]
fn simple_patterns_make_a_set() {
    let set = build_globset("README\n*~\n*.tar.gz\ntarget/*\n.*\n");
    assert!(set.is_some());
    for path in ["README", "a/b~", "x.tar.gz", "target/a/b", ".git/x", "d/.tar.gz"] {
        assert!(is_ignored(&set, path), "{path}");
    }
    for path in ["README.md", "a/README", "~a", "x.gz", "a/target/b", "target", "a/.git"] {
        assert!(!is_ignored(&set, path), "{path}");
    }
}

#[test]
fn values_take_the_places_of_their_names() {
    let parser = liquid::ParserBuilder::with_stdlib().build().unwrap();
    let globals = build_liquid_globals(&variables(&[("a-b", "x"), ("c", "{{ d }}")]));
    let names = strings(&["a-b"]);
    for (text, expected) in [
        ("{{a-b}} {{ a_b }} {{\n c \r\n}}!", "x x {{ d }}!"),
        ("{ {{ missing }} }", "{  }"),
        ("{{ a99999999999999999999 }}.", "."),
        // The start of such a word is a value of its own.
        ("{{ nullable }}", "{{ nullable }}"),
    ] {
        assert_eq!(expand_text(text, &parser, &globals, &names), expected);
    }
}

#[test]
fn test_genignore_empty_returns_none() {
    let content = "# only comments\n\n";
    assert!(build_globset(content).is_none());
}

#[test]
fn patterns_that_are_no_globs_are_passed_over() {
    assert!(build_globset("a[\n").is_none());
    let some = build_globset("a[\r\n\t*.log \n");
    assert!(is_ignored(&some, "x/y.log"));
    assert!(!is_ignored(&some, "a["));
    assert!(!is_ignored(&None, "x/y.log"));
    let more = build_globset("a[\n*.log\nsrc/*\n");
    assert!(is_ignored(&more, "x/y.log") && is_ignored(&more, "src/main.rs"));
}

#[test]
fn test_full_generate_local_dir() {
    let tree = TemplateTree {
        entries: vec![
            file("Cargo.toml.liquid", "[package]\nname = \"{{project-name}}\""),
            dir("src", vec![file("main.rs", "fn main() {}")]),
            file("cargo-generate.toml", "[placeholders]"),
        ],
    };
    let result = generate(&tree, &config("my-app"), &parser());
    assert_eq!(result.dir, "/out/my-app");
    assert_eq!(
        listed(&result.items),
        vec![
            (
                "/out/my-app/Cargo.toml".to_string(),
                Some("[package]\nname = \"my-app\"".to_string())
            ),
            ("/out/my-app/src".to_string(), None),
            (
                "/out/my-app/src/main.rs".to_string(),
                Some("fn main() {}".to_string())
            ),
        ]
    );
}

#[test]
fn directories_are_left_out_with_what_they_hold() {
    let tree = TemplateTree {
        entries: vec![
            dir("target", vec![file("a", "a")]),
            dir(
                "src",
                vec![
                    file(".genignore", "never"),
                    file("gen.rs", "x"),
                    TemplateEntry::File {
                        name: "raw.bin".to_string(),
                        contents: None,
                    },
                ],
            ),
            dir(".genignore", vec![]),
            file(".genignore", "target\nsrc/gen.rs"),
        ],
    };
    let genignore = load_genignore_from_embedded(&tree);
    assert_eq!(
        listed(&plan_project(&tree, &genignore, "out")),
        vec![
            ("out/src".to_string(), None),
            ("out/src/raw.bin".to_string(), Some(String::new())),
            ("out/.genignore".to_string(), None),
        ]
    );
    assert!(load_genignore_from_embedded(&TemplateTree { entries: vec![] }).is_none());
}

#[test]
fn the_directory_of_a_project() {
    let mut config = config("app");
    assert_eq!(config.output_dir(), "/out/app");
    config.destination = None;
    assert_eq!(config.output_dir(), "./app");
}

#[test]
fn kebab_case_keeps_letters_and_is_kept() {
    for (name, expected) in [
        ("MyProject_name v2", "my-project-name-v2"),
        ("already-kebab", "already-kebab"),
        ("", ""),
    ] {
        let once = kebab_case(name);
        assert_eq!(once, expected);
        assert_eq!(kebab_case(&once), once);
    }
}
