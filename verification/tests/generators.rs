use aksum::generator::controller::{self, controller_target};
use aksum::generator::module::{self, module_dir, modules_root, ModuleOptions};
use aksum::generator::project::{self, project_context, ProjectOptions};
use aksum::generator::service::{self, service_target};
use aksum::generator::{ComponentKind, GenerateError, MarkerInsertion, RenderJob};

fn job_pairs(jobs: &[RenderJob]) -> Vec<(&str, &str)> {
    jobs.iter().map(|j| (j.template.as_str(), j.output.as_str())).collect()
}

fn opts(name: &str, with_db: bool, with_redis: bool, infra_as_shared: bool) -> ProjectOptions {
    ProjectOptions { name: name.to_string(), with_db, with_redis, infra_as_shared }
}

#[test]
fn project_refused_when_directory_exists() {
    let r = project::generate(&opts("my_api", false, false, false), true);
    assert!(matches!(r, Err(GenerateError::DirectoryExists(ref d)) if d == "my_api"));
}

#[test]
fn project_skeleton() {
    let plan = project::generate(&opts("my_api", false, false, false), false).unwrap();
    assert_eq!(plan.project_dir, "my_api");
    assert_eq!(plan.context.project_name, "my_api");
    assert_eq!(plan.context.project_name_pascal, "MyApi");
    let jobs = job_pairs(&plan.jobs);
    assert_eq!(jobs.len(), 17);
    assert_eq!(jobs[0], ("project/Cargo.toml.tmpl", "my_api/Cargo.toml"));
    assert_eq!(jobs[1], ("project/dot_env.tmpl", "my_api/.env"));
    assert_eq!(jobs[3], ("project/src/main.rs.tmpl", "my_api/src/main.rs"));
    assert_eq!(jobs[9], ("project/src/modules/mod.rs.tmpl", "my_api/src/modules/mod.rs"));
    assert_eq!(
        jobs[14],
        ("project/src/modules/health/repository/implementation.rs.tmpl", "my_api/src/modules/health/repository/implementation.rs")
    );
    assert!(jobs.iter().all(|(_, out)| out.starts_with("my_api/")));
    assert!(!jobs.iter().any(|(t, _)| t.starts_with("infra/")));
}

#[test]
fn project_with_db_in_infra() {
    let plan = project::generate(&opts("svc", true, false, false), false).unwrap();
    let jobs = job_pairs(&plan.jobs);
    assert_eq!(jobs.len(), 20);
    assert_eq!(jobs[17], ("infra/mod.rs.tmpl", "svc/src/infra/mod.rs"));
    assert_eq!(jobs[18], ("infra/db/mod.rs.tmpl", "svc/src/infra/db/mod.rs"));
    assert_eq!(jobs[19], ("infra/db/connection.rs.tmpl", "svc/src/infra/db/connection.rs"));
}

#[test]
fn project_with_both_in_shared() {
    let plan = project::generate(&opts("svc", true, true, true), false).unwrap();
    let jobs = job_pairs(&plan.jobs);
    assert_eq!(jobs.len(), 21);
    assert_eq!(jobs[17], ("infra/db/mod.rs.tmpl", "svc/src/shared/db/mod.rs"));
    assert_eq!(jobs[18], ("infra/db/connection.rs.tmpl", "svc/src/shared/db/connection.rs"));
    assert_eq!(jobs[19], ("infra/redis/mod.rs.tmpl", "svc/src/shared/cache/mod.rs"));
    assert_eq!(jobs[20], ("infra/redis/connection.rs.tmpl", "svc/src/shared/cache/connection.rs"));
}

#[test]
fn infra_helpers_append_to_plan() {
    let ctx = project_context(&opts("p", false, true, false));
    let mut jobs = Vec::new();
    project::generate_infra(&mut jobs, "p/src", &ctx);
    assert_eq!(
        job_pairs(&jobs),
        vec![
            ("infra/mod.rs.tmpl", "p/src/infra/mod.rs"),
            ("infra/redis/mod.rs.tmpl", "p/src/infra/cache/mod.rs"),
            ("infra/redis/connection.rs.tmpl", "p/src/infra/cache/connection.rs"),
        ]
    );
    let mut db = Vec::new();
    project::render_db_infra(&mut db, "x/db");
    assert_eq!(job_pairs(&db), vec![("infra/db/mod.rs.tmpl", "x/db/mod.rs"), ("infra/db/connection.rs.tmpl", "x/db/connection.rs")]);
    let mut redis = Vec::new();
    project::render_redis_infra(&mut redis, "x/cache");
    assert_eq!(job_pairs(&redis).len(), 2);
}

#[test]
fn project_template_vars() {
    let ctx = project_context(&opts("user_service", true, false, true));
    let v = ctx.template_vars();
    assert_eq!(v.text, vec![("project_name".to_string(), "user_service".to_string()), ("ProjectName".to_string(), "UserService".to_string())]);
    assert_eq!(v.flags, vec![("with_db".to_string(), true), ("with_redis".to_string(), false), ("infra_as_shared".to_string(), true)]);
}

fn module_opts(name: &str, no_controller: bool, no_dto: bool) -> ModuleOptions {
    ModuleOptions { name: name.to_string(), no_repo: false, no_service: false, no_controller, no_dto, no_schema: false }
}

#[test]
fn module_outside_project_is_refused() {
    let r = module::generate(&module_opts("users", false, false), false, false);
    assert!(matches!(r, Err(GenerateError::NotInProject)));
}

#[test]
fn existing_module_is_refused() {
    let r = module::generate(&module_opts("users", false, false), true, true);
    assert!(matches!(r, Err(GenerateError::ModuleExists(ref n, ref d)) if n == "users" && d == "src/modules/users"));
}

#[test]
fn full_module_plan() {
    assert_eq!(modules_root(), "src/modules");
    assert_eq!(module_dir("users"), "src/modules/users");
    let plan = module::generate(&module_opts("users", false, false), true, false).unwrap();
    assert_eq!(plan.context.module_name_pascal, "Users");
    assert_eq!(
        job_pairs(&plan.jobs),
        vec![
            ("module/mod.rs.tmpl", "src/modules/users/mod.rs"),
            ("module/controller/mod.rs.tmpl", "src/modules/users/controller/mod.rs"),
            ("module/service/mod.rs.tmpl", "src/modules/users/service/mod.rs"),
            ("module/repository/mod.rs.tmpl", "src/modules/users/repository/mod.rs"),
            ("module/repository/implementation.rs.tmpl", "src/modules/users/repository/implementation.rs"),
            ("module/dto/mod.rs.tmpl", "src/modules/users/dto/mod.rs"),
            ("module/schema/mod.rs.tmpl", "src/modules/users/schema/mod.rs"),
        ]
    );
    assert_eq!(
        plan.insertions,
        vec![
            MarkerInsertion {
                file: "src/modules/mod.rs".to_string(),
                marker: "// aksum:module_declarations".to_string(),
                line: "pub mod users;".to_string(),
            },
            MarkerInsertion {
                file: "src/main.rs".to_string(),
                marker: "// aksum:module_routes".to_string(),
                line: "        .merge(modules::users::controller::routes())".to_string(),
            },
            MarkerInsertion {
                file: "src/main.rs".to_string(),
                marker: "// aksum:openapi_paths".to_string(),
                line: "        modules::users::controller::index,".to_string(),
            },
        ]
    );
}

#[test]
fn module_without_controller_or_dto() {
    let plan = module::generate(&module_opts("orders", true, true), true, false).unwrap();
    let jobs = job_pairs(&plan.jobs);
    assert_eq!(jobs.len(), 5);
    assert!(!jobs.iter().any(|(t, _)| t.contains("controller") || t.contains("dto")));
    assert_eq!(plan.insertions.len(), 1);
    assert_eq!(plan.insertions[0].line, "pub mod orders;");
    let v = plan.context.template_vars();
    assert_eq!(v.flags[2], ("no_controller".to_string(), true));
    assert_eq!(v.flags[3], ("no_dto".to_string(), true));
}

#[test]
fn controller_path_must_have_one_slash() {
    assert!(matches!(controller_target("users"), Err(GenerateError::InvalidComponentPath(ComponentKind::Controller))));
    assert!(matches!(controller_target("a/b/c"), Err(GenerateError::InvalidComponentPath(ComponentKind::Controller))));
    assert!(matches!(service_target("users"), Err(GenerateError::InvalidComponentPath(ComponentKind::Service))));
}

#[test]
fn controller_plan() {
    let t = controller_target("users/get_profile").unwrap();
    assert_eq!(t.module_name, "users");
    assert_eq!(t.component_name, "get_profile");
    assert_eq!(t.dir, "src/modules/users/controller");
    assert_eq!(t.output_file, "src/modules/users/controller/get_profile.rs");
    assert!(matches!(controller::generate(&t, false, false),
        Err(GenerateError::ComponentDirMissing(ComponentKind::Controller, ref d, ref m)) if d == "src/modules/users/controller" && m == "users"));
    assert!(matches!(controller::generate(&t, true, true),
        Err(GenerateError::ComponentExists(ComponentKind::Controller, ref n, ref m)) if n == "get_profile" && m == "users"));
    let plan = controller::generate(&t, true, false).unwrap();
    assert_eq!(plan.context.controller_name_pascal, "GetProfile");
    assert_eq!(plan.context.module_name_pascal, "Users");
    assert_eq!(plan.job.template, "controller/handler.rs.tmpl");
    assert_eq!(plan.job.output, "src/modules/users/controller/get_profile.rs");
    assert_eq!(plan.insertion.file, "src/modules/users/controller/mod.rs");
    assert_eq!(plan.insertion.marker, "// aksum:controller_handlers");
    assert_eq!(plan.insertion.line, "pub mod get_profile;");
    let v = plan.context.template_vars();
    assert_eq!(v.text[3], ("ControllerName".to_string(), "GetProfile".to_string()));
}

#[test]
fn service_plan() {
    let t = service_target("users/notification").unwrap();
    assert_eq!(t.output_file, "src/modules/users/service/notification.rs");
    let plan = service::generate(&t, true, false).unwrap();
    assert_eq!(plan.context.service_name_pascal, "Notification");
    assert_eq!(plan.job.template, "service/service.rs.tmpl");
    assert_eq!(plan.insertion.file, "src/modules/users/service/mod.rs");
    assert_eq!(plan.insertion.marker, "// aksum:service_functions");
    assert_eq!(plan.insertion.line, "pub mod notification;");
    assert!(matches!(service::generate(&t, false, false),
        Err(GenerateError::ComponentDirMissing(ComponentKind::Service, _, _))));
}
