use mcp_prompts_rs::render::{
    deliver, is_plain, needs_rendering, render, substitute, Binding, BoundValue, RenderOutcome,
};

fn bind(name: &str, value: &str) -> Binding {
    Binding { name: name.to_string(), value: BoundValue::Text(value.to_string()) }
}

fn bind_json(name: &str, json: &str) -> Binding {
    Binding { name: name.to_string(), value: BoundValue::Json(json.to_string()) }
}

#[test]
fn placeholder_is_replaced_by_its_bound_value() {
    let bindings = vec![bind("name", "World")];
    assert_eq!(render("Hello, {{name}}!".to_string(), &bindings), "Hello, World!");
}

#[test]
fn content_is_returned_unmodified_without_bindings() {
    let bindings: Vec<Binding> = Vec::new();
    assert_eq!(render("Hello, {{name}}!".to_string(), &bindings), "Hello, {{name}}!");
}

#[test]
fn malformed_template_is_returned_unmodified_even_without_bindings() {
    let bindings: Vec<Binding> = Vec::new();
    assert_eq!(render("Hello, {{name".to_string(), &bindings), "Hello, {{name");
}

#[test]
fn empty_content_stays_empty() {
    let bindings = vec![bind("name", "World")];
    assert_eq!(render(String::new(), &bindings), "");
}

#[test]
fn malformed_template_gives_the_stored_content() {
    let bindings = vec![bind("name", "World")];
    assert_eq!(render("Hello, {{name".to_string(), &bindings), "Hello, {{name");
    assert_eq!(render("{% if %}".to_string(), &bindings), "{% if %}");
}

#[test]
fn unbound_placeholder_gives_the_stored_content() {
    let bindings = vec![bind("name", "World")];
    assert_eq!(
        render("Hello, {{name}} and {{other}}!".to_string(), &bindings),
        "Hello, {{name}} and {{other}}!"
    );
}

#[test]
fn every_placeholder_is_replaced() {
    let bindings = vec![bind("a", "1"), bind("b", "2")];
    assert_eq!(render("{{a}}+{{b}}={{a}}{{b}}".to_string(), &bindings), "1+2=12");
}

#[test]
fn bound_values_are_not_escaped() {
    let bindings = vec![bind("tag", "<b>&</b>")];
    assert_eq!(render("{{tag}}".to_string(), &bindings), "<b>&</b>");
}

#[test]
fn a_later_binding_of_a_name_replaces_an_earlier_one() {
    let bindings = vec![bind("name", "first"), bind("name", "second")];
    assert_eq!(render("{{name}}".to_string(), &bindings), "second");
}

#[test]
fn content_without_placeholders_is_rendered_as_it_is() {
    let bindings = vec![bind("name", "World")];
    assert_eq!(render("plain text".to_string(), &bindings), "plain text");
}

#[test]
fn rendering_is_needed_only_with_bindings_and_content() {
    let bindings = vec![bind("name", "World")];
    let none: Vec<Binding> = Vec::new();
    assert!(needs_rendering("x", &bindings));
    assert!(!needs_rendering("", &bindings));
    assert!(!needs_rendering("x", &none));
    assert!(!needs_rendering("", &none));
}

#[test]
fn substitute_reports_what_the_engine_made() {
    let bindings = vec![bind("name", "World")];
    match substitute("Hello, {{name}}!", &bindings) {
        RenderOutcome::Rendered(text) => assert_eq!(text, "Hello, World!"),
        RenderOutcome::Failed => panic!("the template is well formed"),
    }
    assert!(matches!(substitute("Hello, {{name", &bindings), RenderOutcome::Failed));
}

#[test]
fn deliver_falls_back_to_the_stored_content() {
    assert_eq!(deliver("stored".to_string(), RenderOutcome::Failed), "stored");
    assert_eq!(
        deliver("stored".to_string(), RenderOutcome::Rendered("rendered".to_string())),
        "rendered"
    );
    assert_eq!(deliver("stored".to_string(), RenderOutcome::Rendered(String::new())), "");
}

#[test]
fn plain_templates_hold_text_and_placeholders_of_one_name() {
    assert!(is_plain(""));
    assert!(is_plain("no placeholder at all"));
    assert!(is_plain("Hello, {{name}}!"));
    assert!(is_plain("Hello, {{ name }}!"));
    assert!(is_plain("{{  first_name2  }}{{B}}"));
    assert!(is_plain("a { b } c }} d %} e #} f"));
    assert!(is_plain("price: 1.5 + 2 - 3 * 4"));
    assert!(is_plain("données {{ nom }} — été"));
    assert!(is_plain("{{ 123 }}"));
    assert!(is_plain("{"));
    assert!(is_plain("a{"));
}

#[test]
fn other_tags_and_expressions_are_not_plain() {
    assert!(!is_plain("{% if name %}x{% endif %}"));
    assert!(!is_plain("{# comment #}"));
    assert!(!is_plain("{{ name | upper }}"));
    assert!(!is_plain("{{ a + b }}"));
    assert!(!is_plain("{{ a b }}"));
    assert!(!is_plain("{{ user.name }}"));
    assert!(!is_plain("{{ now() }}"));
    assert!(!is_plain("{{ get_env(name=\"HOME\") }}"));
    assert!(!is_plain("{{ 1.5 }}"));
    assert!(!is_plain("{{- name }}"));
    assert!(!is_plain("{{ name"));
    assert!(!is_plain("{{ name }"));
    assert!(!is_plain("{{ }}"));
    assert!(!is_plain("{{}}"));
    assert!(!is_plain("{{{ name }}}"));
    assert!(!is_plain("{{ nom\u{e9} }}"));
    assert!(!is_plain("{{\tname }}"));
    assert!(!is_plain("text {{"));
    assert!(!is_plain("{%"));
}

#[test]
fn content_that_is_no_plain_template_is_returned_as_it_is_stored() {
    let bindings = vec![bind("name", "World")];
    for content in [
        "{{ name | upper }}",
        "{% if name %}Hello{% endif %}",
        "{{ 1 + 1 }}",
        "{{ range(end=1, step_by=0) }}",
        "{{ get_env(name=\"HOME\") }}",
    ] {
        assert_eq!(render(content.to_string(), &bindings), content);
        assert!(matches!(substitute(content, &bindings), RenderOutcome::Failed));
    }
}

#[test]
fn a_number_too_long_for_the_engine_is_returned_as_it_is_stored() {
    let bindings = vec![bind("name", "World")];
    let float = format!("{{{{ 1{}.0 }}}}", "0".repeat(400));
    assert_eq!(render(float.clone(), &bindings), float);
    let int = format!("{{{{ 1{} }}}}", "0".repeat(400));
    assert_eq!(render(int.clone(), &bindings), int);
}

#[test]
fn a_number_alone_in_a_placeholder_is_rendered() {
    let bindings = vec![bind("name", "World")];
    assert_eq!(render("{{ 42 }} {{name}}".to_string(), &bindings), "42 World");
    assert_eq!(render("{{ true }}".to_string(), &bindings), "true");
}

#[test]
fn values_that_are_no_texts_are_rendered_in_the_engine_s_way() {
    let bindings = vec![
        bind_json("n", "3"),
        bind_json("x", "1.5"),
        bind_json("yes", "true"),
        bind_json("nothing", "null"),
        bind_json("list", "[1,\"a\",[2]]"),
        bind_json("object", "{\"a\":1}"),
        bind_json("quoted", "\"text\""),
    ];
    assert_eq!(render("{{n}}".to_string(), &bindings), "3");
    assert_eq!(render("{{x}}".to_string(), &bindings), "1.5");
    assert_eq!(render("{{yes}}".to_string(), &bindings), "true");
    assert_eq!(render("[{{nothing}}]".to_string(), &bindings), "[]");
    assert_eq!(render("{{list}}".to_string(), &bindings), "[1, a, [2]]");
    assert_eq!(render("{{object}}".to_string(), &bindings), "[object]");
    assert_eq!(render("{{quoted}}".to_string(), &bindings), "text");
}

#[test]
fn a_json_text_that_cannot_be_read_is_bound_as_text() {
    let bindings = vec![bind_json("broken", "{not json")];
    assert_eq!(render("{{broken}}".to_string(), &bindings), "{not json");
}

#[test]
fn a_text_is_rendered_as_it_is_even_where_it_reads_as_json() {
    let bindings = vec![bind("n", "[1,2]"), bind("q", "\"x\"")];
    assert_eq!(render("{{n}} {{q}}".to_string(), &bindings), "[1,2] \"x\"");
}
