//! The plan of a new module inside an existing project: its files, chosen by
//! flags, and its wiring into the module registry, the router and the OpenAPI
//! document.
use vstd::prelude::*;

use crate::engine::{flag_binding, is_plain_variable, text_binding, TemplateVars};
use crate::generator::{
    declaration_line, insertions_view, job_templates, jobs_view, render_job, surround, GenerateError,
    MarkerInsertion, RenderJob,
};
use crate::naming::{is_snake_name, pascal_case, snake_pascal, to_pascal_case};
use crate::paths::{is_relative, join, join_path, lemma_join_extends};
use crate::text::{lemma_differ_at, lemma_listed_in_concat};

verus! {

/// Variables the module templates are rendered with.
pub struct ModuleContext {
    pub module_name: String,
    /// Rendered under the name `ModuleName`.
    pub module_name_pascal: String,
    pub no_repo: bool,
    pub no_service: bool,
    pub no_controller: bool,
    pub no_dto: bool,
    pub no_schema: bool,
}

/// Options of the `generate module` command.
pub struct ModuleOptions {
    pub name: String,
    pub no_repo: bool,
    pub no_service: bool,
    pub no_controller: bool,
    pub no_dto: bool,
    pub no_schema: bool,
}

/// A module to create: its directory, the variables of its templates, the files
/// to render, and the lines to insert into the project's entry points, in order.
pub struct ModulePlan {
    pub module_dir: String,
    pub context: ModuleContext,
    pub jobs: Vec<RenderJob>,
    pub insertions: Vec<MarkerInsertion>,
}

impl ModuleContext {
    /// The template variables: each field under its name, the Pascal-case name
    /// under `ModuleName`.
    pub fn template_vars(&self) -> (v: TemplateVars)
        ensures
            v@.0 == seq![
                ("module_name"@, self.module_name@),
                ("ModuleName"@, self.module_name_pascal@),
            ],
            v@.1 == seq![
                ("no_repo"@, self.no_repo),
                ("no_service"@, self.no_service),
                ("no_controller"@, self.no_controller),
                ("no_dto"@, self.no_dto),
                ("no_schema"@, self.no_schema),
            ],
            is_plain_variable("module_name"@) && text_binding(v@.0, v@.1, "module_name"@, 0),
            is_plain_variable("ModuleName"@) && text_binding(v@.0, v@.1, "ModuleName"@, 1),
            is_plain_variable("no_repo"@) && flag_binding(v@.0, v@.1, "no_repo"@, 0),
            is_plain_variable("no_service"@) && flag_binding(v@.0, v@.1, "no_service"@, 1),
            is_plain_variable("no_controller"@) && flag_binding(v@.0, v@.1, "no_controller"@, 2),
            is_plain_variable("no_dto"@) && flag_binding(v@.0, v@.1, "no_dto"@, 3),
            is_plain_variable("no_schema"@) && flag_binding(v@.0, v@.1, "no_schema"@, 4),
    {
        let mut text: Vec<(String, String)> = Vec::new();
        text.push(("module_name".to_owned(), self.module_name.clone()));
        text.push(("ModuleName".to_owned(), self.module_name_pascal.clone()));
        let mut flags: Vec<(String, bool)> = Vec::new();
        flags.push(("no_repo".to_owned(), self.no_repo));
        flags.push(("no_service".to_owned(), self.no_service));
        flags.push(("no_controller".to_owned(), self.no_controller));
        flags.push(("no_dto".to_owned(), self.no_dto));
        flags.push(("no_schema".to_owned(), self.no_schema));
        let v = TemplateVars { text, flags };
        assert(v@.0 =~= seq![("module_name"@, self.module_name@), ("ModuleName"@, self.module_name_pascal@)]);
        assert(v@.1 =~= seq![
            ("no_repo"@, self.no_repo),
            ("no_service"@, self.no_service),
            ("no_controller"@, self.no_controller),
            ("no_dto"@, self.no_dto),
            ("no_schema"@, self.no_schema),
        ]);
        proof {
            lemma_module_vars_bound(*self, v@.0, v@.1);
        }
        v
    }
}

/// The directory that holds a project's modules.
pub open spec fn modules_root_path() -> Seq<char> {
    "src/modules"@
}

/// The directory of the module `name`.
pub open spec fn module_dir_path(name: Seq<char>) -> Seq<char> {
    join_path(modules_root_path(), name)
}

/// `jobs` when `skip` is false, nothing otherwise.
pub open spec fn unless(skip: bool, jobs: Seq<(Seq<char>, Seq<char>)>) -> Seq<(Seq<char>, Seq<char>)> {
    if skip { Seq::empty() } else { jobs }
}

/// The files of a module in `dir`: its root, then each sub-module not skipped.
pub open spec fn module_jobs(
    dir: Seq<char>,
    no_repo: bool,
    no_service: bool,
    no_controller: bool,
    no_dto: bool,
    no_schema: bool,
) -> Seq<(Seq<char>, Seq<char>)> {
    seq![("module/mod.rs.tmpl"@, join_path(dir, "mod.rs"@))]
        + unless(no_controller, seq![("module/controller/mod.rs.tmpl"@, join_path(dir, "controller/mod.rs"@))])
        + unless(no_service, seq![("module/service/mod.rs.tmpl"@, join_path(dir, "service/mod.rs"@))])
        + unless(no_repo, seq![
            ("module/repository/mod.rs.tmpl"@, join_path(dir, "repository/mod.rs"@)),
            ("module/repository/implementation.rs.tmpl"@, join_path(dir, "repository/implementation.rs"@)),
        ])
        + unless(no_dto, seq![("module/dto/mod.rs.tmpl"@, join_path(dir, "dto/mod.rs"@))])
        + unless(no_schema, seq![("module/schema/mod.rs.tmpl"@, join_path(dir, "schema/mod.rs"@))])
}

/// The line merging the routes of module `name` into the router.
pub open spec fn route_line(name: Seq<char>) -> Seq<char> {
    "        .merge(modules::"@ + name + "::controller::routes())"@
}

/// The line registering the handler of module `name` in the OpenAPI document.
pub open spec fn openapi_path_line(name: Seq<char>) -> Seq<char> {
    "        modules::"@ + name + "::controller::index,"@
}

/// The wiring of module `name`: always its declaration in `src/modules/mod.rs`;
/// with a controller, also its routes and its OpenAPI path in `src/main.rs`.
pub open spec fn module_insertions(name: Seq<char>, no_controller: bool) -> Seq<(Seq<char>, Seq<char>, Seq<char>)> {
    seq![("src/modules/mod.rs"@, "// aksum:module_declarations"@, declaration_line(name))]
        + if no_controller {
            Seq::empty()
        } else {
            seq![
                ("src/main.rs"@, "// aksum:module_routes"@, route_line(name)),
                ("src/main.rs"@, "// aksum:openapi_paths"@, openapi_path_line(name)),
            ]
        }
}

/// The directory that holds a project's modules, relative to the project root.
pub fn modules_root() -> (p: String)
    ensures
        p@ == modules_root_path(),
{
    "src/modules".to_owned()
}

/// The directory of the module `name`.
pub fn module_dir(name: &str) -> (p: String)
    ensures
        p@ == module_dir_path(name@),
{
    join("src/modules", name)
}

fn push_job(jobs: &mut Vec<RenderJob>, template: &str, base: &str, rel: &str)
    ensures
        jobs_view(final(jobs)@) == jobs_view(old(jobs)@).push((template@, join_path(base@, rel@))),
{
    let output = join(base, rel);
    jobs.push(render_job(template, output));
    assert(jobs_view(jobs@) =~= jobs_view(old(jobs)@).push((template@, join_path(base@, rel@))));
}

fn push_insertion(insertions: &mut Vec<MarkerInsertion>, file: &str, marker: &str, line: String)
    ensures
        insertions_view(final(insertions)@) == insertions_view(old(insertions)@).push((file@, marker@, line@)),
{
    insertions.push(MarkerInsertion { file: file.to_owned(), marker: marker.to_owned(), line });
    assert(insertions_view(insertions@) =~= insertions_view(old(insertions)@).push((file@, marker@, line@)));
}

/// The template variables of a new module.
pub fn module_context(opts: &ModuleOptions) -> (ctx: ModuleContext)
    ensures
        ctx.module_name@ == opts.name@,
        ctx.module_name_pascal@ == pascal_case(opts.name@),
        is_snake_name(opts.name@) ==> ctx.module_name_pascal@ == snake_pascal(opts.name@),
        ctx.no_repo == opts.no_repo,
        ctx.no_service == opts.no_service,
        ctx.no_controller == opts.no_controller,
        ctx.no_dto == opts.no_dto,
        ctx.no_schema == opts.no_schema,
{
    ModuleContext {
        module_name: opts.name.clone(),
        module_name_pascal: to_pascal_case(opts.name.as_str()),
        no_repo: opts.no_repo,
        no_service: opts.no_service,
        no_controller: opts.no_controller,
        no_dto: opts.no_dto,
        no_schema: opts.no_schema,
    }
}

/// Plan module `opts.name` in a project. Refused outside a project (no
/// `src/modules` directory) and when the module's directory already exists.
pub fn generate(opts: &ModuleOptions, modules_dir_exists: bool, module_dir_exists: bool) -> (r: Result<ModulePlan, GenerateError>)
    ensures
        !modules_dir_exists ==> (r matches Err(GenerateError::NotInProject)),
        modules_dir_exists && module_dir_exists ==> (r matches Err(GenerateError::ModuleExists(n, d))
            && n@ == opts.name@ && d@ == module_dir_path(opts.name@)),
        modules_dir_exists && !module_dir_exists ==> (r matches Ok(plan) && {
            &&& plan.module_dir@ == module_dir_path(opts.name@)
            &&& plan.context.module_name@ == opts.name@
            &&& plan.context.module_name_pascal@ == pascal_case(opts.name@)
            &&& (is_snake_name(opts.name@) ==> plan.context.module_name_pascal@ == snake_pascal(opts.name@))
            &&& plan.context.no_repo == opts.no_repo
            &&& plan.context.no_service == opts.no_service
            &&& plan.context.no_controller == opts.no_controller
            &&& plan.context.no_dto == opts.no_dto
            &&& plan.context.no_schema == opts.no_schema
            &&& jobs_view(plan.jobs@) == module_jobs(
                module_dir_path(opts.name@),
                opts.no_repo,
                opts.no_service,
                opts.no_controller,
                opts.no_dto,
                opts.no_schema,
            )
            &&& insertions_view(plan.insertions@) == module_insertions(opts.name@, opts.no_controller)
        }),
{
    if !modules_dir_exists {
        return Err(GenerateError::NotInProject);
    }
    let dir = module_dir(opts.name.as_str());
    if module_dir_exists {
        return Err(GenerateError::ModuleExists(opts.name.clone(), dir));
    }
    let ctx = module_context(opts);
    let d = dir.as_str();
    let mut jobs: Vec<RenderJob> = Vec::new();
    push_job(&mut jobs, "module/mod.rs.tmpl", d, "mod.rs");
    if !opts.no_controller {
        push_job(&mut jobs, "module/controller/mod.rs.tmpl", d, "controller/mod.rs");
    }
    if !opts.no_service {
        push_job(&mut jobs, "module/service/mod.rs.tmpl", d, "service/mod.rs");
    }
    if !opts.no_repo {
        push_job(&mut jobs, "module/repository/mod.rs.tmpl", d, "repository/mod.rs");
        push_job(&mut jobs, "module/repository/implementation.rs.tmpl", d, "repository/implementation.rs");
    }
    if !opts.no_dto {
        push_job(&mut jobs, "module/dto/mod.rs.tmpl", d, "dto/mod.rs");
    }
    if !opts.no_schema {
        push_job(&mut jobs, "module/schema/mod.rs.tmpl", d, "schema/mod.rs");
    }
    assert(jobs_view(jobs@) =~= module_jobs(
        module_dir_path(opts.name@),
        opts.no_repo,
        opts.no_service,
        opts.no_controller,
        opts.no_dto,
        opts.no_schema,
    ));

    let name = opts.name.as_str();
    let mut insertions: Vec<MarkerInsertion> = Vec::new();
    push_insertion(&mut insertions, "src/modules/mod.rs", "// aksum:module_declarations", surround("pub mod ", name, ";"));
    if !opts.no_controller {
        push_insertion(&mut insertions, "src/main.rs", "// aksum:module_routes",
            surround("        .merge(modules::", name, "::controller::routes())"));
        push_insertion(&mut insertions, "src/main.rs", "// aksum:openapi_paths",
            surround("        modules::", name, "::controller::index,"));
    }
    assert(insertions_view(insertions@) =~= module_insertions(opts.name@, opts.no_controller));
    Ok(ModulePlan { module_dir: dir, context: ctx, jobs, insertions })
}


/// Every file of a new module is written inside the module's directory, and
/// that directory lies inside `src/modules` whenever the name is relative.
pub proof fn lemma_module_files_inside_module_dir(
    name: Seq<char>,
    no_repo: bool,
    no_service: bool,
    no_controller: bool,
    no_dto: bool,
    no_schema: bool,
)
    ensures
        forall|i: int| 0 <= i < module_jobs(module_dir_path(name), no_repo, no_service, no_controller, no_dto, no_schema).len()
            ==> module_dir_path(name).is_prefix_of(
                #[trigger] module_jobs(module_dir_path(name), no_repo, no_service, no_controller, no_dto, no_schema)[i].1),
        is_relative(name) ==> modules_root_path().is_prefix_of(module_dir_path(name)),
{
    reveal_strlit("mod.rs");
    reveal_strlit("controller/mod.rs");
    reveal_strlit("service/mod.rs");
    reveal_strlit("repository/mod.rs");
    reveal_strlit("repository/implementation.rs");
    reveal_strlit("dto/mod.rs");
    reveal_strlit("schema/mod.rs");
    let dir = module_dir_path(name);
    lemma_join_extends(dir, "mod.rs"@);
    lemma_join_extends(dir, "controller/mod.rs"@);
    lemma_join_extends(dir, "service/mod.rs"@);
    lemma_join_extends(dir, "repository/mod.rs"@);
    lemma_join_extends(dir, "repository/implementation.rs"@);
    lemma_join_extends(dir, "dto/mod.rs"@);
    lemma_join_extends(dir, "schema/mod.rs"@);
    let jobs = module_jobs(dir, no_repo, no_service, no_controller, no_dto, no_schema);
    assert forall|i: int| 0 <= i < jobs.len() implies dir.is_prefix_of(#[trigger] jobs[i].1) by {
    }
    if is_relative(name) {
        lemma_join_extends(modules_root_path(), name);
    }
}

/// A module with a controller is wired into the module registry, the router and
/// the OpenAPI document; one without a controller only into the registry.
pub proof fn lemma_module_wiring(name: Seq<char>, no_controller: bool)
    ensures
        module_insertions(name, no_controller).len() == if no_controller { 1int } else { 3int },
        module_insertions(name, no_controller)[0] == ("src/modules/mod.rs"@, "// aksum:module_declarations"@, declaration_line(name)),
        !no_controller ==> module_insertions(name, no_controller)[1].2 == route_line(name),
        !no_controller ==> module_insertions(name, no_controller)[2].2 == openapi_path_line(name),
{
}


/// Each part of a module is planned exactly when its flag does not skip it,
/// whatever the other flags say; the module root is always planned.
pub proof fn lemma_module_parts_follow_flags(
    dir: Seq<char>,
    no_repo: bool,
    no_service: bool,
    no_controller: bool,
    no_dto: bool,
    no_schema: bool,
)
    ensures
        job_templates(module_jobs(dir, no_repo, no_service, no_controller, no_dto, no_schema)).contains("module/mod.rs.tmpl"@),
        job_templates(module_jobs(dir, no_repo, no_service, no_controller, no_dto, no_schema)).contains("module/controller/mod.rs.tmpl"@) <==> !no_controller,
        job_templates(module_jobs(dir, no_repo, no_service, no_controller, no_dto, no_schema)).contains("module/service/mod.rs.tmpl"@) <==> !no_service,
        job_templates(module_jobs(dir, no_repo, no_service, no_controller, no_dto, no_schema)).contains("module/repository/mod.rs.tmpl"@) <==> !no_repo,
        job_templates(module_jobs(dir, no_repo, no_service, no_controller, no_dto, no_schema)).contains("module/repository/implementation.rs.tmpl"@) <==> !no_repo,
        job_templates(module_jobs(dir, no_repo, no_service, no_controller, no_dto, no_schema)).contains("module/dto/mod.rs.tmpl"@) <==> !no_dto,
        job_templates(module_jobs(dir, no_repo, no_service, no_controller, no_dto, no_schema)).contains("module/schema/mod.rs.tmpl"@) <==> !no_schema,
{
    reveal_strlit("module/mod.rs.tmpl");
    reveal_strlit("module/controller/mod.rs.tmpl");
    reveal_strlit("module/service/mod.rs.tmpl");
    reveal_strlit("module/repository/mod.rs.tmpl");
    reveal_strlit("module/repository/implementation.rs.tmpl");
    reveal_strlit("module/dto/mod.rs.tmpl");
    reveal_strlit("module/schema/mod.rs.tmpl");
    lemma_differ_at("module/mod.rs.tmpl"@, "module/controller/mod.rs.tmpl"@, 7);
    lemma_differ_at("module/mod.rs.tmpl"@, "module/service/mod.rs.tmpl"@, 7);
    lemma_differ_at("module/mod.rs.tmpl"@, "module/repository/mod.rs.tmpl"@, 7);
    lemma_differ_at("module/mod.rs.tmpl"@, "module/repository/implementation.rs.tmpl"@, 7);
    lemma_differ_at("module/mod.rs.tmpl"@, "module/dto/mod.rs.tmpl"@, 7);
    lemma_differ_at("module/mod.rs.tmpl"@, "module/schema/mod.rs.tmpl"@, 7);
    lemma_differ_at("module/controller/mod.rs.tmpl"@, "module/service/mod.rs.tmpl"@, 7);
    lemma_differ_at("module/controller/mod.rs.tmpl"@, "module/repository/mod.rs.tmpl"@, 7);
    lemma_differ_at("module/controller/mod.rs.tmpl"@, "module/repository/implementation.rs.tmpl"@, 7);
    lemma_differ_at("module/controller/mod.rs.tmpl"@, "module/dto/mod.rs.tmpl"@, 7);
    lemma_differ_at("module/controller/mod.rs.tmpl"@, "module/schema/mod.rs.tmpl"@, 7);
    lemma_differ_at("module/service/mod.rs.tmpl"@, "module/repository/mod.rs.tmpl"@, 7);
    lemma_differ_at("module/service/mod.rs.tmpl"@, "module/repository/implementation.rs.tmpl"@, 7);
    lemma_differ_at("module/service/mod.rs.tmpl"@, "module/dto/mod.rs.tmpl"@, 7);
    lemma_differ_at("module/service/mod.rs.tmpl"@, "module/schema/mod.rs.tmpl"@, 8);
    lemma_differ_at("module/repository/mod.rs.tmpl"@, "module/repository/implementation.rs.tmpl"@, 18);
    lemma_differ_at("module/repository/mod.rs.tmpl"@, "module/dto/mod.rs.tmpl"@, 7);
    lemma_differ_at("module/repository/mod.rs.tmpl"@, "module/schema/mod.rs.tmpl"@, 7);
    lemma_differ_at("module/repository/implementation.rs.tmpl"@, "module/dto/mod.rs.tmpl"@, 7);
    lemma_differ_at("module/repository/implementation.rs.tmpl"@, "module/schema/mod.rs.tmpl"@, 7);
    lemma_differ_at("module/dto/mod.rs.tmpl"@, "module/schema/mod.rs.tmpl"@, 7);
    let m = "module/mod.rs.tmpl"@;
    let c = "module/controller/mod.rs.tmpl"@;
    let s = "module/service/mod.rs.tmpl"@;
    let r = "module/repository/mod.rs.tmpl"@;
    let i = "module/repository/implementation.rs.tmpl"@;
    let d = "module/dto/mod.rs.tmpl"@;
    let h = "module/schema/mod.rs.tmpl"@;
    let e = Seq::<Seq<char>>::empty();
    let p0 = e.push(m);
    let p1 = if no_controller { e } else { e.push(c) };
    let p2 = if no_service { e } else { e.push(s) };
    let p3 = if no_repo { e } else { e.push(r).push(i) };
    let p4 = if no_dto { e } else { e.push(d) };
    let p5 = if no_schema { e } else { e.push(h) };
    let t = job_templates(module_jobs(dir, no_repo, no_service, no_controller, no_dto, no_schema));
    assert(t =~= p0 + p1 + p2 + p3 + p4 + p5);
    assert forall|a: Seq<Seq<char>>, b: Seq<Seq<char>>, x: Seq<char>|
        #[trigger] (a + b).contains(x) <==> (a.contains(x) || b.contains(x)) by {
        lemma_listed_in_concat(a, b, x);
    }
    assert forall|y: Seq<char>, x: Seq<char>| #[trigger] e.push(y).contains(x) <==> x == y by {
        if x == y {
            assert(e.push(y)[0] == x);
        }
    }
    assert forall|y: Seq<char>, z: Seq<char>, x: Seq<char>| #[trigger] e.push(y).push(z).contains(x) <==> (x == y || x == z) by {
        if x == y {
            assert(e.push(y).push(z)[0] == x);
        }
        if x == z {
            assert(e.push(y).push(z)[1] == x);
        }
    }
    assert forall|x: Seq<char>| !#[trigger] e.contains(x) by {}
}


/// Every variable of these templates has a plain name bound exactly once.
proof fn lemma_module_vars_bound(ctx: ModuleContext, text: Seq<(Seq<char>, Seq<char>)>, flags: Seq<(Seq<char>, bool)>)
    requires
        text == seq![("module_name"@, ctx.module_name@), ("ModuleName"@, ctx.module_name_pascal@)],
        flags == seq![("no_repo"@, ctx.no_repo), ("no_service"@, ctx.no_service), ("no_controller"@, ctx.no_controller), ("no_dto"@, ctx.no_dto), ("no_schema"@, ctx.no_schema)],
    ensures
        is_plain_variable("module_name"@) && text_binding(text, flags, "module_name"@, 0),
        is_plain_variable("ModuleName"@) && text_binding(text, flags, "ModuleName"@, 1),
        is_plain_variable("no_repo"@) && flag_binding(text, flags, "no_repo"@, 0),
        is_plain_variable("no_service"@) && flag_binding(text, flags, "no_service"@, 1),
        is_plain_variable("no_controller"@) && flag_binding(text, flags, "no_controller"@, 2),
        is_plain_variable("no_dto"@) && flag_binding(text, flags, "no_dto"@, 3),
        is_plain_variable("no_schema"@) && flag_binding(text, flags, "no_schema"@, 4),
{
    reveal_strlit("module_name");
    reveal_strlit("ModuleName");
    reveal_strlit("no_repo");
    reveal_strlit("no_service");
    reveal_strlit("no_controller");
    reveal_strlit("no_dto");
    reveal_strlit("no_schema");
    reveal_strlit("True");
    reveal_strlit("False");
    reveal_strlit("None");
    lemma_differ_at("ModuleName"@, "no_service"@, 0);
    assert forall|i: int| 0 <= i < "module_name"@.len() implies {
        let c = #[trigger] "module_name"@[i];
        c == '_' || ('a' <= c && c <= 'z') || ('A' <= c && c <= 'Z') || ('0' <= c && c <= '9')
    } by {
        if i == 0 {} else if i == 1 {} else if i == 2 {} else if i == 3 {} else if i == 4 {} else if i == 5 {} else if i == 6 {} else if i == 7 {} else if i == 8 {} else if i == 9 {} else {}
    }
    assert("module_name"@[6] == '_');
    assert(is_plain_variable("module_name"@));
    assert forall|i: int| 0 <= i < "ModuleName"@.len() implies {
        let c = #[trigger] "ModuleName"@[i];
        c == '_' || ('a' <= c && c <= 'z') || ('A' <= c && c <= 'Z') || ('0' <= c && c <= '9')
    } by {
        if i == 0 {} else if i == 1 {} else if i == 2 {} else if i == 3 {} else if i == 4 {} else if i == 5 {} else if i == 6 {} else if i == 7 {} else if i == 8 {} else {}
    }
    assert("ModuleName"@[0] == 'M');
    assert(is_plain_variable("ModuleName"@));
    assert forall|i: int| 0 <= i < "no_repo"@.len() implies {
        let c = #[trigger] "no_repo"@[i];
        c == '_' || ('a' <= c && c <= 'z') || ('A' <= c && c <= 'Z') || ('0' <= c && c <= '9')
    } by {
        if i == 0 {} else if i == 1 {} else if i == 2 {} else if i == 3 {} else if i == 4 {} else if i == 5 {} else {}
    }
    assert("no_repo"@[2] == '_');
    assert(is_plain_variable("no_repo"@));
    assert forall|i: int| 0 <= i < "no_service"@.len() implies {
        let c = #[trigger] "no_service"@[i];
        c == '_' || ('a' <= c && c <= 'z') || ('A' <= c && c <= 'Z') || ('0' <= c && c <= '9')
    } by {
        if i == 0 {} else if i == 1 {} else if i == 2 {} else if i == 3 {} else if i == 4 {} else if i == 5 {} else if i == 6 {} else if i == 7 {} else if i == 8 {} else {}
    }
    assert("no_service"@[2] == '_');
    assert(is_plain_variable("no_service"@));
    assert forall|i: int| 0 <= i < "no_controller"@.len() implies {
        let c = #[trigger] "no_controller"@[i];
        c == '_' || ('a' <= c && c <= 'z') || ('A' <= c && c <= 'Z') || ('0' <= c && c <= '9')
    } by {
        if i == 0 {} else if i == 1 {} else if i == 2 {} else if i == 3 {} else if i == 4 {} else if i == 5 {} else if i == 6 {} else if i == 7 {} else if i == 8 {} else if i == 9 {} else if i == 10 {} else if i == 11 {} else {}
    }
    assert("no_controller"@[2] == '_');
    assert(is_plain_variable("no_controller"@));
    assert forall|i: int| 0 <= i < "no_dto"@.len() implies {
        let c = #[trigger] "no_dto"@[i];
        c == '_' || ('a' <= c && c <= 'z') || ('A' <= c && c <= 'Z') || ('0' <= c && c <= '9')
    } by {
        if i == 0 {} else if i == 1 {} else if i == 2 {} else if i == 3 {} else if i == 4 {} else {}
    }
    assert("no_dto"@[2] == '_');
    assert(is_plain_variable("no_dto"@));
    assert forall|i: int| 0 <= i < "no_schema"@.len() implies {
        let c = #[trigger] "no_schema"@[i];
        c == '_' || ('a' <= c && c <= 'z') || ('A' <= c && c <= 'Z') || ('0' <= c && c <= '9')
    } by {
        if i == 0 {} else if i == 1 {} else if i == 2 {} else if i == 3 {} else if i == 4 {} else if i == 5 {} else if i == 6 {} else if i == 7 {} else {}
    }
    assert("no_schema"@[2] == '_');
    assert(is_plain_variable("no_schema"@));
}

} // verus!
