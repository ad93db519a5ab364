//! The plan of a new service file inside an existing module.
use vstd::prelude::*;

use crate::text::lemma_differ_at;
use crate::engine::{flag_binding, is_plain_variable, text_binding, TemplateVars};
use crate::generator::{
    component_target, declaration_line, insertion_view, job_view, render_job, surround,
    ComponentKind, ComponentTarget, GenerateError, MarkerInsertion, RenderJob,
};
use crate::naming::{is_snake_name, pascal_case, snake_pascal, to_pascal_case};
use crate::paths::{count_char, join, join_path};

verus! {

/// Variables the service template is rendered with.
pub struct ServiceContext {
    pub module_name: String,
    /// Rendered under the name `ModuleName`.
    pub module_name_pascal: String,
    pub service_name: String,
    /// Rendered under the name `ServiceName`.
    pub service_name_pascal: String,
}

/// A service to create: the variables of its template, the file to render,
/// and its declaration in the service directory's `mod.rs`.
pub struct ServicePlan {
    pub context: ServiceContext,
    pub job: RenderJob,
    pub insertion: MarkerInsertion,
}

impl ServiceContext {
    /// The template variables: each field under its name, the Pascal-case names
    /// under `ModuleName` and `ServiceName`.
    pub fn template_vars(&self) -> (v: TemplateVars)
        ensures
            v@.0 == seq![
                ("module_name"@, self.module_name@),
                ("ModuleName"@, self.module_name_pascal@),
                ("service_name"@, self.service_name@),
                ("ServiceName"@, self.service_name_pascal@),
            ],
            v@.1 == Seq::<(Seq<char>, bool)>::empty(),
            is_plain_variable("module_name"@) && text_binding(v@.0, v@.1, "module_name"@, 0),
            is_plain_variable("ModuleName"@) && text_binding(v@.0, v@.1, "ModuleName"@, 1),
            is_plain_variable("service_name"@) && text_binding(v@.0, v@.1, "service_name"@, 2),
            is_plain_variable("ServiceName"@) && text_binding(v@.0, v@.1, "ServiceName"@, 3),
    {
        let mut text: Vec<(String, String)> = Vec::new();
        text.push(("module_name".to_owned(), self.module_name.clone()));
        text.push(("ModuleName".to_owned(), self.module_name_pascal.clone()));
        text.push(("service_name".to_owned(), self.service_name.clone()));
        text.push(("ServiceName".to_owned(), self.service_name_pascal.clone()));
        let flags: Vec<(String, bool)> = Vec::new();
        let v = TemplateVars { text, flags };
        assert(v@.0 =~= seq![
            ("module_name"@, self.module_name@),
            ("ModuleName"@, self.module_name_pascal@),
            ("service_name"@, self.service_name@),
            ("ServiceName"@, self.service_name_pascal@),
        ]);
        assert(v@.1 =~= Seq::<(Seq<char>, bool)>::empty());
        proof {
            lemma_service_vars_bound(*self, v@.0, v@.1);
        }
        v
    }
}

/// Locate the service named by `path` (`module_name/service_name`).
pub fn service_target(path: &str) -> (r: Result<ComponentTarget, GenerateError>)
    ensures
        r is Ok <==> count_char(path@, '/') == 1,
        r is Err ==> (r matches Err(GenerateError::InvalidComponentPath(k)) && k == ComponentKind::Service),
        r matches Ok(t) ==> {
            &&& t.module_name@ + seq!['/'] + t.component_name@ == path@
            &&& !t.module_name@.contains('/')
            &&& !t.component_name@.contains('/')
            &&& t.dir@ == join_path(join_path("src/modules"@, t.module_name@), "service"@)
            &&& t.output_file@ == join_path(t.dir@, t.component_name@ + ".rs"@)
        },
{
    component_target(path, ComponentKind::Service)
}

/// Plan the service at `target`. Refused when the module has no service
/// directory, and when the service's file already exists.
pub fn generate(target: &ComponentTarget, dir_exists: bool, output_exists: bool) -> (r: Result<ServicePlan, GenerateError>)
    ensures
        !dir_exists ==> (r matches Err(GenerateError::ComponentDirMissing(k, d, m))
            && k == ComponentKind::Service && d@ == target.dir@ && m@ == target.module_name@),
        dir_exists && output_exists ==> (r matches Err(GenerateError::ComponentExists(k, n, m))
            && k == ComponentKind::Service && n@ == target.component_name@ && m@ == target.module_name@),
        dir_exists && !output_exists ==> (r matches Ok(plan) && {
            &&& plan.context.module_name@ == target.module_name@
            &&& plan.context.module_name_pascal@ == pascal_case(target.module_name@)
            &&& (is_snake_name(target.module_name@) ==> plan.context.module_name_pascal@ == snake_pascal(target.module_name@))
            &&& plan.context.service_name@ == target.component_name@
            &&& plan.context.service_name_pascal@ == pascal_case(target.component_name@)
            &&& (is_snake_name(target.component_name@) ==> plan.context.service_name_pascal@ == snake_pascal(target.component_name@))
            &&& job_view(plan.job) == ("service/service.rs.tmpl"@, target.output_file@)
            &&& insertion_view(plan.insertion) == (
                join_path(target.dir@, "mod.rs"@),
                "// aksum:service_functions"@,
                declaration_line(target.component_name@),
            )
        }),
{
    if !dir_exists {
        return Err(GenerateError::ComponentDirMissing(ComponentKind::Service, target.dir.clone(), target.module_name.clone()));
    }
    if output_exists {
        return Err(GenerateError::ComponentExists(ComponentKind::Service, target.component_name.clone(), target.module_name.clone()));
    }
    let context = ServiceContext {
        module_name: target.module_name.clone(),
        module_name_pascal: to_pascal_case(target.module_name.as_str()),
        service_name: target.component_name.clone(),
        service_name_pascal: to_pascal_case(target.component_name.as_str()),
    };
    let job = render_job("service/service.rs.tmpl", target.output_file.clone());
    let insertion = MarkerInsertion {
        file: join(target.dir.as_str(), "mod.rs"),
        marker: "// aksum:service_functions".to_owned(),
        line: surround("pub mod ", target.component_name.as_str(), ";"),
    };
    Ok(ServicePlan { context, job, insertion })
}


/// Every variable of these templates has a plain name bound exactly once.
proof fn lemma_service_vars_bound(ctx: ServiceContext, text: Seq<(Seq<char>, Seq<char>)>, flags: Seq<(Seq<char>, bool)>)
    requires
        text == seq![("module_name"@, ctx.module_name@), ("ModuleName"@, ctx.module_name_pascal@), ("service_name"@, ctx.service_name@), ("ServiceName"@, ctx.service_name_pascal@)],
        flags == Seq::<(Seq<char>, bool)>::empty(),
    ensures
        is_plain_variable("module_name"@) && text_binding(text, flags, "module_name"@, 0),
        is_plain_variable("ModuleName"@) && text_binding(text, flags, "ModuleName"@, 1),
        is_plain_variable("service_name"@) && text_binding(text, flags, "service_name"@, 2),
        is_plain_variable("ServiceName"@) && text_binding(text, flags, "ServiceName"@, 3),
{
    reveal_strlit("module_name");
    reveal_strlit("ModuleName");
    reveal_strlit("service_name");
    reveal_strlit("ServiceName");
    reveal_strlit("True");
    reveal_strlit("False");
    reveal_strlit("None");
    lemma_differ_at("module_name"@, "ServiceName"@, 0);
    assert forall|i: int| 0 <= i < "module_name"@.len() implies {
        let c = #[trigger] "module_name"@[i];
        c == '_' || ('a' <= c && c <= 'z') || ('A' <= c && c <= 'Z') || ('0' <= c && c <= '9')
    } by {
        if i == 0 {} else if i == 1 {} else if i == 2 {} else if i == 3 {} else if i == 4 {} else if i == 5 {} else if i == 6 {} else if i == 7 {} else if i == 8 {} else if i == 9 {} else {}
    }
    assert("module_name"@[6] == '_');
    assert(is_plain_variable("module_name"@));
    assert forall|i: int| 0 <= i < "ModuleName"@.len() implies {
        let c = #[trigger] "ModuleName"@[i];
        c == '_' || ('a' <= c && c <= 'z') || ('A' <= c && c <= 'Z') || ('0' <= c && c <= '9')
    } by {
        if i == 0 {} else if i == 1 {} else if i == 2 {} else if i == 3 {} else if i == 4 {} else if i == 5 {} else if i == 6 {} else if i == 7 {} else if i == 8 {} else {}
    }
    assert("ModuleName"@[0] == 'M');
    assert(is_plain_variable("ModuleName"@));
    assert forall|i: int| 0 <= i < "service_name"@.len() implies {
        let c = #[trigger] "service_name"@[i];
        c == '_' || ('a' <= c && c <= 'z') || ('A' <= c && c <= 'Z') || ('0' <= c && c <= '9')
    } by {
        if i == 0 {} else if i == 1 {} else if i == 2 {} else if i == 3 {} else if i == 4 {} else if i == 5 {} else if i == 6 {} else if i == 7 {} else if i == 8 {} else if i == 9 {} else if i == 10 {} else {}
    }
    assert("service_name"@[7] == '_');
    assert(is_plain_variable("service_name"@));
    assert forall|i: int| 0 <= i < "ServiceName"@.len() implies {
        let c = #[trigger] "ServiceName"@[i];
        c == '_' || ('a' <= c && c <= 'z') || ('A' <= c && c <= 'Z') || ('0' <= c && c <= '9')
    } by {
        if i == 0 {} else if i == 1 {} else if i == 2 {} else if i == 3 {} else if i == 4 {} else if i == 5 {} else if i == 6 {} else if i == 7 {} else if i == 8 {} else if i == 9 {} else {}
    }
    assert("ServiceName"@[0] == 'S');
    assert(is_plain_variable("ServiceName"@));
}

} // verus!
