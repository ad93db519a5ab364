use aksum::engine::{render_template, EngineError, TemplateVars};

fn vars() -> TemplateVars {
    TemplateVars {
        text: vec![
            ("project_name".to_string(), "demo".to_string()),
            ("ProjectName".to_string(), "Demo".to_string()),
        ],
        flags: vec![("with_db".to_string(), true), ("with_redis".to_string(), false)],
    }
}

#[test]
fn renders_variables_and_flags() {
    let src = b"name={{ project_name }} {{ ProjectName }}{% if with_db %} db{% endif %}{% if with_redis %} redis{% endif %}";
    let r = render_template("project/x.tmpl", Some(&src[..]), &vars());
    assert_eq!(r, Ok("name=demo Demo db".to_string()));
}

#[test]
fn missing_template() {
    let r = render_template("nope.tmpl", None, &vars());
    assert_eq!(r, Err(EngineError::TemplateNotFound("nope.tmpl".to_string())));
}

#[test]
fn invalid_utf8_template() {
    let r = render_template("bad.tmpl", Some(&[0x66u8, 0xff, 0x66][..]), &vars());
    assert_eq!(r, Err(EngineError::InvalidUtf8("bad.tmpl".to_string())));
}

#[test]
fn syntax_error_template() {
    let r = render_template("syntax.tmpl", Some(&b"{% if %}"[..]), &vars());
    assert!(matches!(r, Err(EngineError::ParseFailed(ref p, _)) if p == "syntax.tmpl"), "{r:?}");
}

#[test]
fn render_error_template() {
    let r = render_template("render.tmpl", Some(&b"{{ no_such_function() }}"[..]), &vars());
    assert!(matches!(r, Err(EngineError::RenderFailed(ref p, _)) if p == "render.tmpl"), "{r:?}");
}
