//! Template rendering: the text of an embedded template, checked to be UTF-8
//! and rendered by minijinja with a set of named variables.
use vstd::prelude::*;
use vstd::utf8::{decode_utf8, valid_utf8};

verus! {

#[verifier::external_type_specification]
#[verifier::external_body]
pub struct ExMinijinjaError(minijinja::Error);

/// The variables a template is rendered with: named strings and named flags.
#[derive(Debug, Clone, PartialEq, Eq)]
pub struct TemplateVars {
    pub text: Vec<(String, String)>,
    pub flags: Vec<(String, bool)>,
}

/// Named strings, by their characters.
pub open spec fn text_view(text: Seq<(String, String)>) -> Seq<(Seq<char>, Seq<char>)> {
    text.map_values(|p: (String, String)| (p.0@, p.1@))
}

/// Named flags, by the characters of their names.
pub open spec fn flags_view(flags: Seq<(String, bool)>) -> Seq<(Seq<char>, bool)> {
    flags.map_values(|p: (String, bool)| (p.0@, p.1))
}

impl View for TemplateVars {
    type V = (Seq<(Seq<char>, Seq<char>)>, Seq<(Seq<char>, bool)>);

    open spec fn view(&self) -> Self::V {
        (text_view(self.text@), flags_view(self.flags@))
    }
}

/// Why a template could not be rendered.
#[derive(Debug, Clone, PartialEq, Eq)]
pub enum EngineError {
    /// No template is embedded under this path.
    TemplateNotFound(String),
    /// The embedded template is not valid UTF-8.
    InvalidUtf8(String),
    /// The template has a syntax error; the path and minijinja's message.
    ParseFailed(String, String),
    /// Rendering the template failed; the path and minijinja's message.
    RenderFailed(String, String),
}

/// Whether minijinja accepts `source` as a template.
pub uninterp spec fn minijinja_parses(source: Seq<char>) -> bool;

/// What minijinja renders from `source` with the given variables, if it renders.
pub uninterp spec fn minijinja_rendered(
    source: Seq<char>,
    text: Seq<(Seq<char>, Seq<char>)>,
    flags: Seq<(Seq<char>, bool)>,
) -> Option<Seq<char>>;

/// A name minijinja reads as a plain variable: ASCII letters, digits and `_`,
/// not starting with a digit, holding an `_` or an upper-case letter (so that
/// it is none of the lower-case keywords), and not `True`, `False` or `None`.
pub open spec fn is_plain_variable(n: Seq<char>) -> bool {
    &&& n.len() > 0
    &&& !('0' <= n[0] && n[0] <= '9')
    &&& forall|i: int| 0 <= i < n.len() ==> {
        let c = #[trigger] n[i];
        c == '_' || ('a' <= c && c <= 'z') || ('A' <= c && c <= 'Z') || ('0' <= c && c <= '9')
    }
    &&& exists|i: int| 0 <= i < n.len() && (#[trigger] n[i] == '_' || ('A' <= n[i] && n[i] <= 'Z'))
    &&& n != "True"@
    &&& n != "False"@
    &&& n != "None"@
}

/// The flag at index `k` is the only variable named `n`.
pub open spec fn flag_binding(text: Seq<(Seq<char>, Seq<char>)>, flags: Seq<(Seq<char>, bool)>, n: Seq<char>, k: int) -> bool {
    &&& 0 <= k < flags.len()
    &&& flags[k].0 == n
    &&& forall|j: int| 0 <= j < flags.len() && j != k ==> #[trigger] flags[j].0 != n
    &&& forall|j: int| 0 <= j < text.len() ==> #[trigger] text[j].0 != n
}

/// The string at index `k` is the only variable named `n`.
pub open spec fn text_binding(text: Seq<(Seq<char>, Seq<char>)>, flags: Seq<(Seq<char>, bool)>, n: Seq<char>, k: int) -> bool {
    &&& 0 <= k < text.len()
    &&& text[k].0 == n
    &&& forall|j: int| 0 <= j < text.len() && j != k ==> #[trigger] text[j].0 != n
    &&& forall|j: int| 0 <= j < flags.len() ==> #[trigger] flags[j].0 != n
}

/// A template that prints `a` when the variable `n` is true.
pub open spec fn flag_probe(n: Seq<char>) -> Seq<char> {
    "{% if "@ + n + " %}a{% endif %}"@
}

/// What the flag probe prints for a flag with value `b`.
pub open spec fn flag_probe_output(b: bool) -> Seq<char> {
    if b {
        "a"@
    } else {
        Seq::empty()
    }
}

/// A template that prints the variable `n`.
pub open spec fn text_probe(n: Seq<char>) -> Seq<char> {
    "{{ "@ + n + " }}"@
}

/// `std::str::from_utf8`: the decoded text exactly when the bytes are valid UTF-8.
#[verifier::external_body]
fn decode_utf8_text(bytes: &[u8]) -> (r: Option<String>)
    ensures
        r is Some <==> valid_utf8(bytes@),
        r matches Some(s) ==> s@ == decode_utf8(bytes@),
{
    std::str::from_utf8(bytes).ok().map(|s| s.to_string())
}

/// `minijinja::Environment::template_from_named_str` in a default environment:
/// compiles `source` under the name `tpl`. The outcome is a function of the
/// source text, named `minijinja_parses`; the contract also claims that a
/// template printing one plain variable, or testing it with `if`, compiles.
#[verifier::external_body]
fn minijinja_compile(source: &str) -> (r: Result<(), minijinja::Error>)
    ensures
        r is Ok <==> minijinja_parses(source@),
        forall|n: Seq<char>| #![trigger flag_probe(n)] #![trigger text_probe(n)]
            is_plain_variable(n) && (source@ == flag_probe(n) || source@ == text_probe(n)) ==> r is Ok,
{
    minijinja::Environment::new().template_from_named_str("tpl", source).map(|_| ())
}

/// `minijinja::Environment::render_named_str` in a default environment: renders
/// `source`, under the name `tpl`, with a map from each variable's name to its
/// value. The outcome is a function of the source text and the variables, named
/// `minijinja_rendered`. The contract also claims how a variable is looked up:
/// in a template that tests one plain variable bound once with `if`, or prints
/// it, the variable has the value it was given (no escaping, the name `tpl`
/// having no extension), wherever it stands among the variables.
#[verifier::external_body]
fn minijinja_render(source: &str, vars: &TemplateVars) -> (r: Result<String, minijinja::Error>)
    ensures
        r is Ok <==> minijinja_rendered(source@, vars@.0, vars@.1) is Some,
        r matches Ok(s) ==> minijinja_rendered(source@, vars@.0, vars@.1) == Some(s@),
        forall|nk: (Seq<char>, int)| #![trigger flag_binding(vars@.0, vars@.1, nk.0, nk.1)]
            is_plain_variable(nk.0) && source@ == flag_probe(nk.0) && flag_binding(vars@.0, vars@.1, nk.0, nk.1)
            ==> (r is Ok && r->Ok_0@ == flag_probe_output(vars@.1[nk.1].1)),
        forall|nk: (Seq<char>, int)| #![trigger text_binding(vars@.0, vars@.1, nk.0, nk.1)]
            is_plain_variable(nk.0) && source@ == text_probe(nk.0) && text_binding(vars@.0, vars@.1, nk.0, nk.1)
            ==> (r is Ok && r->Ok_0@ == vars@.0[nk.1].1),
{
    let text = vars.text.iter().map(|p| (p.0.clone(), minijinja::Value::from(p.1.clone())));
    let flags = vars.flags.iter().map(|p| (p.0.clone(), minijinja::Value::from(p.1)));
    let ctx: minijinja::Value = text.chain(flags).collect();
    minijinja::Environment::new().render_named_str("tpl", source, ctx)
}

/// Render the template embedded under `template_path`, whose bytes are
/// `template` (`None` when nothing is embedded there), with `vars`.
pub fn render_template(template_path: &str, template: Option<&[u8]>, vars: &TemplateVars) -> (r: Result<String, EngineError>)
    ensures
        template is None <==> r matches Err(EngineError::TemplateNotFound(p)),
        r matches Err(EngineError::TemplateNotFound(p)) ==> p@ == template_path@,
        (template matches Some(b) && !valid_utf8(b@)) <==> r matches Err(EngineError::InvalidUtf8(p)),
        r matches Err(EngineError::InvalidUtf8(p)) ==> p@ == template_path@,
        (template matches Some(b) && valid_utf8(b@) && !minijinja_parses(decode_utf8(b@)))
            <==> r matches Err(EngineError::ParseFailed(p, _)),
        r matches Err(EngineError::ParseFailed(p, _)) ==> p@ == template_path@,
        (template matches Some(b) && valid_utf8(b@) && minijinja_parses(decode_utf8(b@))
            && minijinja_rendered(decode_utf8(b@), vars@.0, vars@.1) is None)
            <==> r matches Err(EngineError::RenderFailed(p, _)),
        r matches Err(EngineError::RenderFailed(p, _)) ==> p@ == template_path@,
        r matches Ok(s) ==> (template matches Some(b) && valid_utf8(b@) && minijinja_parses(decode_utf8(b@))
            && minijinja_rendered(decode_utf8(b@), vars@.0, vars@.1) == Some(s@)),
        forall|nk: (Seq<char>, int)| #![trigger flag_binding(vars@.0, vars@.1, nk.0, nk.1)]
            is_plain_variable(nk.0) && flag_binding(vars@.0, vars@.1, nk.0, nk.1)
            && (template matches Some(b) && valid_utf8(b@) && decode_utf8(b@) == flag_probe(nk.0))
            ==> (r matches Ok(s) && s@ == flag_probe_output(vars@.1[nk.1].1)),
        forall|nk: (Seq<char>, int)| #![trigger text_binding(vars@.0, vars@.1, nk.0, nk.1)]
            is_plain_variable(nk.0) && text_binding(vars@.0, vars@.1, nk.0, nk.1)
            && (template matches Some(b) && valid_utf8(b@) && decode_utf8(b@) == text_probe(nk.0))
            ==> (r matches Ok(s) && s@ == vars@.0[nk.1].1),
{
    let bytes = match template {
        Some(b) => b,
        None => return Err(EngineError::TemplateNotFound(template_path.to_owned())),
    };
    let source = match decode_utf8_text(bytes) {
        Some(s) => s,
        None => return Err(EngineError::InvalidUtf8(template_path.to_owned())),
    };
    match minijinja_compile(source.as_str()) {
        Ok(()) => {},
        Err(e) => return Err(EngineError::ParseFailed(template_path.to_owned(), e.to_string())),
    }
    match minijinja_render(source.as_str(), vars) {
        Ok(s) => Ok(s),
        Err(e) => Err(EngineError::RenderFailed(template_path.to_owned(), e.to_string())),
    }
}

} // verus!
