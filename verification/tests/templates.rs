use prime::templates::{TaskTemplates, TemplateError};

#[test]
fn test_template_rendering() {
    let templates = TaskTemplates::new();
    let data = "{\"package\": \"requests\"}";
    let result = templates.render_template("install_python_package", data).unwrap();
    assert!(result.contains("pip install requests"));
    let data = "{\"project_name\": \"test-project\", \"description\": \"A test project\"}";
    let result = templates.render_template("create_project", data).unwrap();
    assert!(result.contains("# test-project"));
    assert!(result.contains("A test project"));
}

#[test]
fn missing_template_is_reported() {
    let templates = TaskTemplates::new();
    let r = templates.render_template("nope", "{}");
    assert_eq!(r, Err(TemplateError::NotFound("nope".to_string())));
    assert_eq!(r.unwrap_err().message(), "Template 'nope' not found");
}

#[test]
fn builtin_templates_are_listed() {
    let templates = TaskTemplates::new();
    let mut names = templates.list_templates();
    names.sort();
    assert_eq!(names, vec!["create_project", "install_python_package", "setup_nodejs"]);
}

#[test]
fn added_template_is_rendered_and_replaces() {
    let mut templates = TaskTemplates::new();
    templates.add_template("greet".to_string(), "Hello {{name}}!".to_string()).unwrap();
    assert_eq!(templates.render_template("greet", "{\"name\": \"Ann\"}").unwrap(), "Hello Ann!");
    templates.add_template("greet".to_string(), "Bye {{name}}".to_string()).unwrap();
    assert_eq!(templates.render_template("greet", "{\"name\": \"Ann\"}").unwrap(), "Bye Ann");
    assert_eq!(templates.list_templates().len(), 4);
}

#[test]
fn invalid_template_is_refused() {
    let mut templates = TaskTemplates::new();
    let r = templates.add_template("bad".to_string(), "{{#if}}".to_string());
    assert!(matches!(r, Err(TemplateError::Invalid(_))));
    assert_eq!(templates.list_templates().len(), 3);
}

#[test]
fn each_helper_renders_dependencies() {
    let templates = TaskTemplates::new();
    let out = templates
        .render_template("setup_nodejs", "{\"dependencies\": [\"express\", \"cors\"]}")
        .unwrap();
    assert!(out.contains("npm install express cors "));
}

#[test]
fn templates_can_use_each_other_as_partials() {
    let mut templates = TaskTemplates::new();
    templates.add_template("who".to_string(), "{{name}}".to_string()).unwrap();
    templates.add_template("greet".to_string(), "Hi {{> who}}!".to_string()).unwrap();
    assert_eq!(templates.render_template("greet", "{\"name\": \"Ann\"}").unwrap(), "Hi Ann!");
}

#[test]
fn refusal_names_the_template() {
    let mut templates = TaskTemplates::new();
    let e = templates.add_template("bad".to_string(), "{{#if}}".to_string()).unwrap_err();
    assert!(e.message().contains("\"bad\""));
}
