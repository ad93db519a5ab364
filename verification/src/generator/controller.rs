//! The plan of a new controller handler inside an existing module.
use vstd::prelude::*;

use crate::text::lemma_differ_at;
use crate::engine::{flag_binding, is_plain_variable, text_binding, TemplateVars};
use crate::generator::{
    component_target, declaration_line, insertion_view, job_view, render_job, surround,
    ComponentKind, ComponentTarget, GenerateError, MarkerInsertion, RenderJob,
};
use crate::naming::{is_snake_name, pascal_case, snake_pascal, to_pascal_case};
use crate::paths::{count_char, join, join_path};

verus! {

/// Variables the controller template is rendered with.
pub struct ControllerContext {
    pub module_name: String,
    /// Rendered under the name `ModuleName`.
    pub module_name_pascal: String,
    pub controller_name: String,
    /// Rendered under the name `ControllerName`.
    pub controller_name_pascal: String,
}

/// A controller to create: the variables of its template, the file to render,
/// and its declaration in the controller directory's `mod.rs`.
pub struct ControllerPlan {
    pub context: ControllerContext,
    pub job: RenderJob,
    pub insertion: MarkerInsertion,
}

impl ControllerContext {
    /// The template variables: each field under its name, the Pascal-case names
    /// under `ModuleName` and `ControllerName`.
    pub fn template_vars(&self) -> (v: TemplateVars)
        ensures
            v@.0 == seq![
                ("module_name"@, self.module_name@),
                ("ModuleName"@, self.module_name_pascal@),
                ("controller_name"@, self.controller_name@),
                ("ControllerName"@, self.controller_name_pascal@),
            ],
            v@.1 == Seq::<(Seq<char>, bool)>::empty(),
            is_plain_variable("module_name"@) && text_binding(v@.0, v@.1, "module_name"@, 0),
            is_plain_variable("ModuleName"@) && text_binding(v@.0, v@.1, "ModuleName"@, 1),
            is_plain_variable("controller_name"@) && text_binding(v@.0, v@.1, "controller_name"@, 2),
            is_plain_variable("ControllerName"@) && text_binding(v@.0, v@.1, "ControllerName"@, 3),
    {
        let mut text: Vec<(String, String)> = Vec::new();
        text.push(("module_name".to_owned(), self.module_name.clone()));
        text.push(("ModuleName".to_owned(), self.module_name_pascal.clone()));
        text.push(("controller_name".to_owned(), self.controller_name.clone()));
        text.push(("ControllerName".to_owned(), self.controller_name_pascal.clone()));
        let flags: Vec<(String, bool)> = Vec::new();
        let v = TemplateVars { text, flags };
        assert(v@.0 =~= seq![
            ("module_name"@, self.module_name@),
            ("ModuleName"@, self.module_name_pascal@),
            ("controller_name"@, self.controller_name@),
            ("ControllerName"@, self.controller_name_pascal@),
        ]);
        assert(v@.1 =~= Seq::<(Seq<char>, bool)>::empty());
        proof {
            lemma_controller_vars_bound(*self, v@.0, v@.1);
        }
        v
    }
}

/// Locate the controller named by `path` (`module_name/controller_name`).
pub fn controller_target(path: &str) -> (r: Result<ComponentTarget, GenerateError>)
    ensures
        r is Ok <==> count_char(path@, '/') == 1,
        r is Err ==> (r matches Err(GenerateError::InvalidComponentPath(k)) && k == ComponentKind::Controller),
        r matches Ok(t) ==> {
            &&& t.module_name@ + seq!['/'] + t.component_name@ == path@
            &&& !t.module_name@.contains('/')
            &&& !t.component_name@.contains('/')
            &&& t.dir@ == join_path(join_path("src/modules"@, t.module_name@), "controller"@)
            &&& t.output_file@ == join_path(t.dir@, t.component_name@ + ".rs"@)
        },
{
    component_target(path, ComponentKind::Controller)
}

/// Plan the controller at `target`. Refused when the module has no controller
/// directory, and when the controller's file already exists.
pub fn generate(target: &ComponentTarget, dir_exists: bool, output_exists: bool) -> (r: Result<ControllerPlan, GenerateError>)
    ensures
        !dir_exists ==> (r matches Err(GenerateError::ComponentDirMissing(k, d, m))
            && k == ComponentKind::Controller && d@ == target.dir@ && m@ == target.module_name@),
        dir_exists && output_exists ==> (r matches Err(GenerateError::ComponentExists(k, n, m))
            && k == ComponentKind::Controller && n@ == target.component_name@ && m@ == target.module_name@),
        dir_exists && !output_exists ==> (r matches Ok(plan) && {
            &&& plan.context.module_name@ == target.module_name@
            &&& plan.context.module_name_pascal@ == pascal_case(target.module_name@)
            &&& (is_snake_name(target.module_name@) ==> plan.context.module_name_pascal@ == snake_pascal(target.module_name@))
            &&& plan.context.controller_name@ == target.component_name@
            &&& plan.context.controller_name_pascal@ == pascal_case(target.component_name@)
            &&& (is_snake_name(target.component_name@) ==> plan.context.controller_name_pascal@ == snake_pascal(target.component_name@))
            &&& job_view(plan.job) == ("controller/handler.rs.tmpl"@, target.output_file@)
            &&& insertion_view(plan.insertion) == (
                join_path(target.dir@, "mod.rs"@),
                "// aksum:controller_handlers"@,
                declaration_line(target.component_name@),
            )
        }),
{
    if !dir_exists {
        return Err(GenerateError::ComponentDirMissing(ComponentKind::Controller, target.dir.clone(), target.module_name.clone()));
    }
    if output_exists {
        return Err(GenerateError::ComponentExists(ComponentKind::Controller, target.component_name.clone(), target.module_name.clone()));
    }
    let context = ControllerContext {
        module_name: target.module_name.clone(),
        module_name_pascal: to_pascal_case(target.module_name.as_str()),
        controller_name: target.component_name.clone(),
        controller_name_pascal: to_pascal_case(target.component_name.as_str()),
    };
    let job = render_job("controller/handler.rs.tmpl", target.output_file.clone());
    let insertion = MarkerInsertion {
        file: join(target.dir.as_str(), "mod.rs"),
        marker: "// aksum:controller_handlers".to_owned(),
        line: surround("pub mod ", target.component_name.as_str(), ";"),
    };
    Ok(ControllerPlan { context, job, insertion })
}


/// Every variable of these templates has a plain name bound exactly once.
proof fn lemma_controller_vars_bound(ctx: ControllerContext, text: Seq<(Seq<char>, Seq<char>)>, flags: Seq<(Seq<char>, bool)>)
    requires
        text == seq![("module_name"@, ctx.module_name@), ("ModuleName"@, ctx.module_name_pascal@), ("controller_name"@, ctx.controller_name@), ("ControllerName"@, ctx.controller_name_pascal@)],
        flags == Seq::<(Seq<char>, bool)>::empty(),
    ensures
        is_plain_variable("module_name"@) && text_binding(text, flags, "module_name"@, 0),
        is_plain_variable("ModuleName"@) && text_binding(text, flags, "ModuleName"@, 1),
        is_plain_variable("controller_name"@) && text_binding(text, flags, "controller_name"@, 2),
        is_plain_variable("ControllerName"@) && text_binding(text, flags, "ControllerName"@, 3),
{
    reveal_strlit("module_name");
    reveal_strlit("ModuleName");
    reveal_strlit("controller_name");
    reveal_strlit("ControllerName");
    reveal_strlit("True");
    reveal_strlit("False");
    reveal_strlit("None");
    assert forall|i: int| 0 <= i < "module_name"@.len() implies {
        let c = #[trigger] "module_name"@[i];
        c == '_' || ('a' <= c && c <= 'z') || ('A' <= c && c <= 'Z') || ('0' <= c && c <= '9')
    } by {
        if i == 0 {} else if i == 1 {} else if i == 2 {} else if i == 3 {} else if i == 4 {} else if i == 5 {} else if i == 6 {} else if i == 7 {} else if i == 8 {} else if i == 9 {} else {}
    }
    assert("module_name"@[6] == '_');
    assert(is_plain_variable("module_name"@));
    assert forall|i: int| 0 <= i < "ModuleName"@.len() implies {
        let c = #[trigger] "ModuleName"@[i];
        c == '_' || ('a' <= c && c <= 'z') || ('A' <= c && c <= 'Z') || ('0' <= c && c <= '9')
    } by {
        if i == 0 {} else if i == 1 {} else if i == 2 {} else if i == 3 {} else if i == 4 {} else if i == 5 {} else if i == 6 {} else if i == 7 {} else if i == 8 {} else {}
    }
    assert("ModuleName"@[0] == 'M');
    assert(is_plain_variable("ModuleName"@));
    assert forall|i: int| 0 <= i < "controller_name"@.len() implies {
        let c = #[trigger] "controller_name"@[i];
        c == '_' || ('a' <= c && c <= 'z') || ('A' <= c && c <= 'Z') || ('0' <= c && c <= '9')
    } by {
        if i == 0 {} else if i == 1 {} else if i == 2 {} else if i == 3 {} else if i == 4 {} else if i == 5 {} else if i == 6 {} else if i == 7 {} else if i == 8 {} else if i == 9 {} else if i == 10 {} else if i == 11 {} else if i == 12 {} else if i == 13 {} else {}
    }
    assert("controller_name"@[10] == '_');
    assert(is_plain_variable("controller_name"@));
    assert forall|i: int| 0 <= i < "ControllerName"@.len() implies {
        let c = #[trigger] "ControllerName"@[i];
        c == '_' || ('a' <= c && c <= 'z') || ('A' <= c && c <= 'Z') || ('0' <= c && c <= '9')
    } by {
        if i == 0 {} else if i == 1 {} else if i == 2 {} else if i == 3 {} else if i == 4 {} else if i == 5 {} else if i == 6 {} else if i == 7 {} else if i == 8 {} else if i == 9 {} else if i == 10 {} else if i == 11 {} else if i == 12 {} else {}
    }
    assert("ControllerName"@[0] == 'C');
    assert(is_plain_variable("ControllerName"@));
}

} // verus!
