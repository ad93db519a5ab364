//! The plan of a new project: every file of its skeleton, with its default
//! `health` module, and the optional database and cache helpers.
use vstd::prelude::*;

use crate::engine::{flag_binding, is_plain_variable, text_binding, TemplateVars};
use crate::generator::{job_templates, jobs_view, render_job, GenerateError, RenderJob};
use crate::text::{lemma_differ_at, lemma_listed_in_concat, lemma_not_listed_by_char};
use crate::naming::{is_snake_name, pascal_case, snake_pascal, to_pascal_case};
use crate::paths::{is_relative, join, join_path, lemma_join_extends, lemma_join_monotone, lemma_prefix_trans};

verus! {

/// Variables the project templates are rendered with.
pub struct ProjectContext {
    pub project_name: String,
    /// Rendered under the name `ProjectName`.
    pub project_name_pascal: String,
    pub with_db: bool,
    pub with_redis: bool,
    pub infra_as_shared: bool,
}

/// Options of the `new` command.
pub struct ProjectOptions {
    pub name: String,
    pub with_db: bool,
    pub with_redis: bool,
    pub infra_as_shared: bool,
}

/// A project to create: its directory, the variables of its templates, and the
/// files to render, in order.
pub struct ProjectPlan {
    pub project_dir: String,
    pub context: ProjectContext,
    pub jobs: Vec<RenderJob>,
}

impl ProjectContext {
    /// The template variables: each field under its name, the Pascal-case name
    /// under `ProjectName`.
    pub fn template_vars(&self) -> (v: TemplateVars)
        ensures
            v@.0 == seq![
                ("project_name"@, self.project_name@),
                ("ProjectName"@, self.project_name_pascal@),
            ],
            v@.1 == seq![
                ("with_db"@, self.with_db),
                ("with_redis"@, self.with_redis),
                ("infra_as_shared"@, self.infra_as_shared),
            ],
            is_plain_variable("project_name"@) && text_binding(v@.0, v@.1, "project_name"@, 0),
            is_plain_variable("ProjectName"@) && text_binding(v@.0, v@.1, "ProjectName"@, 1),
            is_plain_variable("with_db"@) && flag_binding(v@.0, v@.1, "with_db"@, 0),
            is_plain_variable("with_redis"@) && flag_binding(v@.0, v@.1, "with_redis"@, 1),
            is_plain_variable("infra_as_shared"@) && flag_binding(v@.0, v@.1, "infra_as_shared"@, 2),
    {
        let mut text: Vec<(String, String)> = Vec::new();
        text.push(("project_name".to_owned(), self.project_name.clone()));
        text.push(("ProjectName".to_owned(), self.project_name_pascal.clone()));
        let mut flags: Vec<(String, bool)> = Vec::new();
        flags.push(("with_db".to_owned(), self.with_db));
        flags.push(("with_redis".to_owned(), self.with_redis));
        flags.push(("infra_as_shared".to_owned(), self.infra_as_shared));
        let v = TemplateVars { text, flags };
        assert(v@.0 =~= seq![("project_name"@, self.project_name@), ("ProjectName"@, self.project_name_pascal@)]);
        assert(v@.1 =~= seq![("with_db"@, self.with_db), ("with_redis"@, self.with_redis), ("infra_as_shared"@, self.infra_as_shared)]);
        proof {
            lemma_project_vars_bound(*self, v@.0, v@.1);
        }
        v
    }
}

/// The database helper files, in the directory `db_dir`.
pub open spec fn db_infra_jobs(db_dir: Seq<char>) -> Seq<(Seq<char>, Seq<char>)> {
    seq![
        ("infra/db/mod.rs.tmpl"@, join_path(db_dir, "mod.rs"@)),
        ("infra/db/connection.rs.tmpl"@, join_path(db_dir, "connection.rs"@)),
    ]
}

/// The cache helper files, in the directory `redis_dir`.
pub open spec fn redis_infra_jobs(redis_dir: Seq<char>) -> Seq<(Seq<char>, Seq<char>)> {
    seq![
        ("infra/redis/mod.rs.tmpl"@, join_path(redis_dir, "mod.rs"@)),
        ("infra/redis/connection.rs.tmpl"@, join_path(redis_dir, "connection.rs"@)),
    ]
}

/// The infrastructure files under the source directory `src`: inside
/// `shared/` when `infra_as_shared`, else in a separate `infra/` module.
pub open spec fn infra_jobs(src: Seq<char>, with_db: bool, with_redis: bool, infra_as_shared: bool) -> Seq<(Seq<char>, Seq<char>)> {
    let root = if infra_as_shared {
        Seq::empty()
    } else {
        seq![("infra/mod.rs.tmpl"@, join_path(src, "infra/mod.rs"@))]
    };
    let db_dir = join_path(src, if infra_as_shared { "shared/db"@ } else { "infra/db"@ });
    let redis_dir = join_path(src, if infra_as_shared { "shared/cache"@ } else { "infra/cache"@ });
    root
        + (if with_db { db_infra_jobs(db_dir) } else { Seq::empty() })
        + (if with_redis { redis_infra_jobs(redis_dir) } else { Seq::empty() })
}

/// The project skeleton in `dir`, with its default `health` module.
pub open spec fn core_project_jobs(dir: Seq<char>) -> Seq<(Seq<char>, Seq<char>)> {
    let src = join_path(dir, "src"@);
    let health = join_path(dir, "src/modules/health"@);
    seq![
        ("project/Cargo.toml.tmpl"@, join_path(dir, "Cargo.toml"@)),
        ("project/dot_env.tmpl"@, join_path(dir, ".env"@)),
        ("project/gitignore.tmpl"@, join_path(dir, ".gitignore"@)),
        ("project/src/main.rs.tmpl"@, join_path(src, "main.rs"@)),
        ("project/src/app_state.rs.tmpl"@, join_path(src, "app_state.rs"@)),
        ("project/src/config/mod.rs.tmpl"@, join_path(src, "config/mod.rs"@)),
        ("project/src/config/settings.rs.tmpl"@, join_path(src, "config/settings.rs"@)),
        ("project/src/shared/mod.rs.tmpl"@, join_path(src, "shared/mod.rs"@)),
        ("project/src/shared/errors.rs.tmpl"@, join_path(src, "shared/errors.rs"@)),
        ("project/src/modules/mod.rs.tmpl"@, join_path(src, "modules/mod.rs"@)),
        ("project/src/modules/health/mod.rs.tmpl"@, join_path(health, "mod.rs"@)),
        ("project/src/modules/health/controller/mod.rs.tmpl"@, join_path(health, "controller/mod.rs"@)),
        ("project/src/modules/health/service/mod.rs.tmpl"@, join_path(health, "service/mod.rs"@)),
        ("project/src/modules/health/repository/mod.rs.tmpl"@, join_path(health, "repository/mod.rs"@)),
        ("project/src/modules/health/repository/implementation.rs.tmpl"@, join_path(health, "repository/implementation.rs"@)),
        ("project/src/modules/health/dto/mod.rs.tmpl"@, join_path(health, "dto/mod.rs"@)),
        ("project/src/modules/health/schema/mod.rs.tmpl"@, join_path(health, "schema/mod.rs"@)),
    ]
}

/// Every file of a new project in `dir`: the skeleton, then the infrastructure
/// helpers when a database or a cache is asked for.
pub open spec fn project_jobs(dir: Seq<char>, with_db: bool, with_redis: bool, infra_as_shared: bool) -> Seq<(Seq<char>, Seq<char>)> {
    core_project_jobs(dir) + if with_db || with_redis {
        infra_jobs(join_path(dir, "src"@), with_db, with_redis, infra_as_shared)
    } else {
        Seq::empty()
    }
}

/// Appends the job rendering `template` to `rel` inside `base`.
fn push_job(jobs: &mut Vec<RenderJob>, template: &str, base: &str, rel: &str)
    ensures
        jobs_view(final(jobs)@) == jobs_view(old(jobs)@).push((template@, join_path(base@, rel@))),
{
    let output = join(base, rel);
    jobs.push(render_job(template, output));
    assert(jobs_view(jobs@) =~= jobs_view(old(jobs)@).push((template@, join_path(base@, rel@))));
}

/// Appends the database helper files in `db_dir` to the plan.
pub fn render_db_infra(jobs: &mut Vec<RenderJob>, db_dir: &str)
    ensures
        jobs_view(final(jobs)@) == jobs_view(old(jobs)@) + db_infra_jobs(db_dir@),
{
    push_job(jobs, "infra/db/mod.rs.tmpl", db_dir, "mod.rs");
    push_job(jobs, "infra/db/connection.rs.tmpl", db_dir, "connection.rs");
    assert(jobs_view(jobs@) =~= jobs_view(old(jobs)@) + db_infra_jobs(db_dir@));
}

/// Appends the cache helper files in `redis_dir` to the plan.
pub fn render_redis_infra(jobs: &mut Vec<RenderJob>, redis_dir: &str)
    ensures
        jobs_view(final(jobs)@) == jobs_view(old(jobs)@) + redis_infra_jobs(redis_dir@),
{
    push_job(jobs, "infra/redis/mod.rs.tmpl", redis_dir, "mod.rs");
    push_job(jobs, "infra/redis/connection.rs.tmpl", redis_dir, "connection.rs");
    assert(jobs_view(jobs@) =~= jobs_view(old(jobs)@) + redis_infra_jobs(redis_dir@));
}

/// Appends the infrastructure files under the source directory `src` to the
/// plan, placed as `ctx` asks.
pub fn generate_infra(jobs: &mut Vec<RenderJob>, src: &str, ctx: &ProjectContext)
    ensures
        jobs_view(final(jobs)@) == jobs_view(old(jobs)@) + infra_jobs(src@, ctx.with_db, ctx.with_redis, ctx.infra_as_shared),
{
    let ghost start = jobs_view(jobs@);
    if ctx.infra_as_shared {
        if ctx.with_db {
            let db = join(src, "shared/db");
            render_db_infra(jobs, db.as_str());
        }
        if ctx.with_redis {
            let redis = join(src, "shared/cache");
            render_redis_infra(jobs, redis.as_str());
        }
    } else {
        push_job(jobs, "infra/mod.rs.tmpl", src, "infra/mod.rs");
        if ctx.with_db {
            let db = join(src, "infra/db");
            render_db_infra(jobs, db.as_str());
        }
        if ctx.with_redis {
            let redis = join(src, "infra/cache");
            render_redis_infra(jobs, redis.as_str());
        }
    }
    assert(jobs_view(jobs@) =~= start + infra_jobs(src@, ctx.with_db, ctx.with_redis, ctx.infra_as_shared));
}

/// The template variables of a new project.
pub fn project_context(opts: &ProjectOptions) -> (ctx: ProjectContext)
    ensures
        ctx.project_name@ == opts.name@,
        ctx.project_name_pascal@ == pascal_case(opts.name@),
        is_snake_name(opts.name@) ==> ctx.project_name_pascal@ == snake_pascal(opts.name@),
        ctx.with_db == opts.with_db,
        ctx.with_redis == opts.with_redis,
        ctx.infra_as_shared == opts.infra_as_shared,
{
    ProjectContext {
        project_name: opts.name.clone(),
        project_name_pascal: to_pascal_case(opts.name.as_str()),
        with_db: opts.with_db,
        with_redis: opts.with_redis,
        infra_as_shared: opts.infra_as_shared,
    }
}

/// Plan a new project in the directory named by `opts.name`, which is refused
/// when that directory already exists.
pub fn generate(opts: &ProjectOptions, project_dir_exists: bool) -> (r: Result<ProjectPlan, GenerateError>)
    ensures
        project_dir_exists ==> (r matches Err(GenerateError::DirectoryExists(d)) && d@ == opts.name@),
        !project_dir_exists ==> (r matches Ok(plan) && {
            &&& plan.project_dir@ == opts.name@
            &&& plan.context.project_name@ == opts.name@
            &&& plan.context.project_name_pascal@ == pascal_case(opts.name@)
            &&& (is_snake_name(opts.name@) ==> plan.context.project_name_pascal@ == snake_pascal(opts.name@))
            &&& plan.context.with_db == opts.with_db
            &&& plan.context.with_redis == opts.with_redis
            &&& plan.context.infra_as_shared == opts.infra_as_shared
            &&& jobs_view(plan.jobs@) == project_jobs(opts.name@, opts.with_db, opts.with_redis, opts.infra_as_shared)
        }),
{
    if project_dir_exists {
        return Err(GenerateError::DirectoryExists(opts.name.clone()));
    }
    let ctx = project_context(opts);
    let dir = opts.name.as_str();
    let mut jobs: Vec<RenderJob> = Vec::new();

    push_job(&mut jobs, "project/Cargo.toml.tmpl", dir, "Cargo.toml");
    push_job(&mut jobs, "project/dot_env.tmpl", dir, ".env");
    push_job(&mut jobs, "project/gitignore.tmpl", dir, ".gitignore");

    let src = join(dir, "src");
    push_job(&mut jobs, "project/src/main.rs.tmpl", src.as_str(), "main.rs");
    push_job(&mut jobs, "project/src/app_state.rs.tmpl", src.as_str(), "app_state.rs");
    push_job(&mut jobs, "project/src/config/mod.rs.tmpl", src.as_str(), "config/mod.rs");
    push_job(&mut jobs, "project/src/config/settings.rs.tmpl", src.as_str(), "config/settings.rs");
    push_job(&mut jobs, "project/src/shared/mod.rs.tmpl", src.as_str(), "shared/mod.rs");
    push_job(&mut jobs, "project/src/shared/errors.rs.tmpl", src.as_str(), "shared/errors.rs");
    push_job(&mut jobs, "project/src/modules/mod.rs.tmpl", src.as_str(), "modules/mod.rs");

    let health = join(dir, "src/modules/health");
    let h = health.as_str();
    push_job(&mut jobs, "project/src/modules/health/mod.rs.tmpl", h, "mod.rs");
    push_job(&mut jobs, "project/src/modules/health/controller/mod.rs.tmpl", h, "controller/mod.rs");
    push_job(&mut jobs, "project/src/modules/health/service/mod.rs.tmpl", h, "service/mod.rs");
    push_job(&mut jobs, "project/src/modules/health/repository/mod.rs.tmpl", h, "repository/mod.rs");
    push_job(&mut jobs, "project/src/modules/health/repository/implementation.rs.tmpl", h, "repository/implementation.rs");
    push_job(&mut jobs, "project/src/modules/health/dto/mod.rs.tmpl", h, "dto/mod.rs");
    push_job(&mut jobs, "project/src/modules/health/schema/mod.rs.tmpl", h, "schema/mod.rs");
    assert(jobs_view(jobs@) =~= core_project_jobs(opts.name@));

    if opts.with_db || opts.with_redis {
        generate_infra(&mut jobs, src.as_str(), &ctx);
    }
    assert(jobs_view(jobs@) =~= project_jobs(opts.name@, opts.with_db, opts.with_redis, opts.infra_as_shared));
    Ok(ProjectPlan { project_dir: opts.name.clone(), context: ctx, jobs })
}


/// A relative path joined twice under `dir` stays inside `dir`.
proof fn lemma_nested_inside(dir: Seq<char>, a: Seq<char>, b: Seq<char>)
    requires
        is_relative(a),
        is_relative(b),
    ensures
        dir.is_prefix_of(join_path(join_path(dir, a), b)),
{
    lemma_join_extends(dir, a);
    lemma_join_extends(join_path(dir, a), b);
    lemma_prefix_trans(dir, join_path(dir, a), join_path(join_path(dir, a), b));
}

/// The infrastructure files lie inside `src/shared` when `infra_as_shared`,
/// and inside `src/infra` otherwise.
pub proof fn lemma_infra_placement(src: Seq<char>, with_db: bool, with_redis: bool, infra_as_shared: bool)
    ensures
        forall|i: int| 0 <= i < infra_jobs(src, with_db, with_redis, infra_as_shared).len()
            ==> join_path(src, if infra_as_shared { "shared"@ } else { "infra"@ }).is_prefix_of(
                #[trigger] infra_jobs(src, with_db, with_redis, infra_as_shared)[i].1),
{
    reveal_strlit("shared");
    reveal_strlit("infra");
    reveal_strlit("shared/db");
    reveal_strlit("shared/cache");
    reveal_strlit("infra/db");
    reveal_strlit("infra/cache");
    reveal_strlit("infra/mod.rs");
    reveal_strlit("mod.rs");
    reveal_strlit("connection.rs");
    let home = if infra_as_shared { "shared"@ } else { "infra"@ };
    let db = if infra_as_shared { "shared/db"@ } else { "infra/db"@ };
    let cache = if infra_as_shared { "shared/cache"@ } else { "infra/cache"@ };
    let top = join_path(src, home);
    assert(home.is_prefix_of(db));
    assert(home.is_prefix_of(cache));
    lemma_join_monotone(src, home, db);
    lemma_join_monotone(src, home, cache);
    lemma_join_extends(join_path(src, db), "mod.rs"@);
    lemma_join_extends(join_path(src, db), "connection.rs"@);
    lemma_join_extends(join_path(src, cache), "mod.rs"@);
    lemma_join_extends(join_path(src, cache), "connection.rs"@);
    lemma_prefix_trans(top, join_path(src, db), join_path(join_path(src, db), "mod.rs"@));
    lemma_prefix_trans(top, join_path(src, db), join_path(join_path(src, db), "connection.rs"@));
    lemma_prefix_trans(top, join_path(src, cache), join_path(join_path(src, cache), "mod.rs"@));
    lemma_prefix_trans(top, join_path(src, cache), join_path(join_path(src, cache), "connection.rs"@));
    if !infra_as_shared {
        assert("infra"@.is_prefix_of("infra/mod.rs"@));
        lemma_join_monotone(src, "infra"@, "infra/mod.rs"@);
    }
    let jobs = infra_jobs(src, with_db, with_redis, infra_as_shared);
    assert forall|i: int| 0 <= i < jobs.len() implies top.is_prefix_of(#[trigger] jobs[i].1) by {
    }
}

/// Every file of a new project is written inside the project's directory.
pub proof fn lemma_project_files_inside_project_dir(dir: Seq<char>, with_db: bool, with_redis: bool, infra_as_shared: bool)
    ensures
        forall|i: int| 0 <= i < project_jobs(dir, with_db, with_redis, infra_as_shared).len()
            ==> dir.is_prefix_of(#[trigger] project_jobs(dir, with_db, with_redis, infra_as_shared)[i].1),
{
    reveal_strlit("src");
    reveal_strlit("src/modules/health");
    reveal_strlit("Cargo.toml");
    reveal_strlit(".env");
    reveal_strlit(".gitignore");
    reveal_strlit("main.rs");
    reveal_strlit("app_state.rs");
    reveal_strlit("config/mod.rs");
    reveal_strlit("config/settings.rs");
    reveal_strlit("shared/mod.rs");
    reveal_strlit("shared/errors.rs");
    reveal_strlit("modules/mod.rs");
    reveal_strlit("mod.rs");
    reveal_strlit("controller/mod.rs");
    reveal_strlit("service/mod.rs");
    reveal_strlit("repository/mod.rs");
    reveal_strlit("repository/implementation.rs");
    reveal_strlit("dto/mod.rs");
    reveal_strlit("schema/mod.rs");
    reveal_strlit("shared");
    reveal_strlit("infra");
    let src = join_path(dir, "src"@);
    let health = join_path(dir, "src/modules/health"@);
    lemma_join_extends(dir, "src"@);
    lemma_join_extends(dir, "Cargo.toml"@);
    lemma_join_extends(dir, ".env"@);
    lemma_join_extends(dir, ".gitignore"@);
    lemma_nested_inside(dir, "src"@, "main.rs"@);
    lemma_nested_inside(dir, "src"@, "app_state.rs"@);
    lemma_nested_inside(dir, "src"@, "config/mod.rs"@);
    lemma_nested_inside(dir, "src"@, "config/settings.rs"@);
    lemma_nested_inside(dir, "src"@, "shared/mod.rs"@);
    lemma_nested_inside(dir, "src"@, "shared/errors.rs"@);
    lemma_nested_inside(dir, "src"@, "modules/mod.rs"@);
    lemma_nested_inside(dir, "src/modules/health"@, "mod.rs"@);
    lemma_nested_inside(dir, "src/modules/health"@, "controller/mod.rs"@);
    lemma_nested_inside(dir, "src/modules/health"@, "service/mod.rs"@);
    lemma_nested_inside(dir, "src/modules/health"@, "repository/mod.rs"@);
    lemma_nested_inside(dir, "src/modules/health"@, "repository/implementation.rs"@);
    lemma_nested_inside(dir, "src/modules/health"@, "dto/mod.rs"@);
    lemma_nested_inside(dir, "src/modules/health"@, "schema/mod.rs"@);
    let core = core_project_jobs(dir);
    assert forall|i: int| 0 <= i < core.len() implies dir.is_prefix_of(#[trigger] core[i].1) by {
    }
    let infra = infra_jobs(src, with_db, with_redis, infra_as_shared);
    lemma_infra_placement(src, with_db, with_redis, infra_as_shared);
    let home = if infra_as_shared { "shared"@ } else { "infra"@ };
    lemma_nested_inside(dir, "src"@, home);
    assert forall|i: int| 0 <= i < infra.len() implies dir.is_prefix_of(#[trigger] infra[i].1) by {
        lemma_prefix_trans(dir, join_path(src, home), infra[i].1);
    }
    let jobs = project_jobs(dir, with_db, with_redis, infra_as_shared);
    assert forall|i: int| 0 <= i < jobs.len() implies dir.is_prefix_of(#[trigger] jobs[i].1) by {
        if i < core.len() {
            assert(jobs[i] == core[i]);
        } else {
            assert(jobs[i] == infra[i - core.len()]);
        }
    }
}

/// Infrastructure is optional: without a database or a cache, a new project is
/// exactly its skeleton.
pub proof fn lemma_no_infra_without_flags(dir: Seq<char>, infra_as_shared: bool)
    ensures
        project_jobs(dir, false, false, infra_as_shared) == core_project_jobs(dir),
{
    assert(project_jobs(dir, false, false, infra_as_shared) =~= core_project_jobs(dir));
}


/// The database helpers are planned exactly when a database is asked for, the
/// cache helpers exactly when a cache is asked for, each independently of the
/// other flags, and the separate `infra` module root exactly when some helper
/// is planned outside `shared/`. The plan is the 17 skeleton files followed by
/// those helpers, the cache helpers last, in the directories the placement flag
/// names.
pub proof fn lemma_infra_helpers_follow_flags(dir: Seq<char>, with_db: bool, with_redis: bool, infra_as_shared: bool)
    ensures
        job_templates(project_jobs(dir, with_db, with_redis, infra_as_shared)).contains("infra/db/mod.rs.tmpl"@) <==> with_db,
        job_templates(project_jobs(dir, with_db, with_redis, infra_as_shared)).contains("infra/db/connection.rs.tmpl"@) <==> with_db,
        job_templates(project_jobs(dir, with_db, with_redis, infra_as_shared)).contains("infra/redis/mod.rs.tmpl"@) <==> with_redis,
        job_templates(project_jobs(dir, with_db, with_redis, infra_as_shared)).contains("infra/redis/connection.rs.tmpl"@) <==> with_redis,
        job_templates(project_jobs(dir, with_db, with_redis, infra_as_shared)).contains("infra/mod.rs.tmpl"@) <==> ((with_db || with_redis) && !infra_as_shared),
        project_jobs(dir, with_db, with_redis, infra_as_shared).len() == 17 + (if with_db || with_redis {
            (if infra_as_shared { 0int } else { 1int }) + (if with_db { 2int } else { 0int }) + (if with_redis { 2int } else { 0int })
        } else {
            0int
        }),
        with_redis ==> project_jobs(dir, with_db, with_redis, infra_as_shared)[project_jobs(dir, with_db, with_redis, infra_as_shared).len() - 2] == (
            "infra/redis/mod.rs.tmpl"@,
            join_path(join_path(join_path(dir, "src"@), if infra_as_shared { "shared/cache"@ } else { "infra/cache"@ }), "mod.rs"@),
        ),
        with_redis ==> project_jobs(dir, with_db, with_redis, infra_as_shared)[project_jobs(dir, with_db, with_redis, infra_as_shared).len() - 1] == (
            "infra/redis/connection.rs.tmpl"@,
            join_path(join_path(join_path(dir, "src"@), if infra_as_shared { "shared/cache"@ } else { "infra/cache"@ }), "connection.rs"@),
        ),
        with_db ==> project_jobs(dir, with_db, with_redis, infra_as_shared).contains((
            "infra/db/mod.rs.tmpl"@,
            join_path(join_path(join_path(dir, "src"@), if infra_as_shared { "shared/db"@ } else { "infra/db"@ }), "mod.rs"@),
        )),
        with_db ==> project_jobs(dir, with_db, with_redis, infra_as_shared).contains((
            "infra/db/connection.rs.tmpl"@,
            join_path(join_path(join_path(dir, "src"@), if infra_as_shared { "shared/db"@ } else { "infra/db"@ }), "connection.rs"@),
        )),
{
    reveal_strlit("project/Cargo.toml.tmpl");
    reveal_strlit("project/dot_env.tmpl");
    reveal_strlit("project/gitignore.tmpl");
    reveal_strlit("project/src/main.rs.tmpl");
    reveal_strlit("project/src/app_state.rs.tmpl");
    reveal_strlit("project/src/config/mod.rs.tmpl");
    reveal_strlit("project/src/config/settings.rs.tmpl");
    reveal_strlit("project/src/shared/mod.rs.tmpl");
    reveal_strlit("project/src/shared/errors.rs.tmpl");
    reveal_strlit("project/src/modules/mod.rs.tmpl");
    reveal_strlit("project/src/modules/health/mod.rs.tmpl");
    reveal_strlit("project/src/modules/health/controller/mod.rs.tmpl");
    reveal_strlit("project/src/modules/health/service/mod.rs.tmpl");
    reveal_strlit("project/src/modules/health/repository/mod.rs.tmpl");
    reveal_strlit("project/src/modules/health/repository/implementation.rs.tmpl");
    reveal_strlit("project/src/modules/health/dto/mod.rs.tmpl");
    reveal_strlit("project/src/modules/health/schema/mod.rs.tmpl");
    reveal_strlit("infra/mod.rs.tmpl");
    reveal_strlit("infra/db/mod.rs.tmpl");
    reveal_strlit("infra/db/connection.rs.tmpl");
    reveal_strlit("infra/redis/mod.rs.tmpl");
    reveal_strlit("infra/redis/connection.rs.tmpl");
    lemma_differ_at("infra/mod.rs.tmpl"@, "infra/db/mod.rs.tmpl"@, 6);
    lemma_differ_at("infra/mod.rs.tmpl"@, "infra/db/connection.rs.tmpl"@, 6);
    lemma_differ_at("infra/mod.rs.tmpl"@, "infra/redis/mod.rs.tmpl"@, 6);
    lemma_differ_at("infra/mod.rs.tmpl"@, "infra/redis/connection.rs.tmpl"@, 6);
    lemma_differ_at("infra/db/mod.rs.tmpl"@, "infra/db/connection.rs.tmpl"@, 9);
    lemma_differ_at("infra/db/mod.rs.tmpl"@, "infra/redis/mod.rs.tmpl"@, 6);
    lemma_differ_at("infra/db/mod.rs.tmpl"@, "infra/redis/connection.rs.tmpl"@, 6);
    lemma_differ_at("infra/db/connection.rs.tmpl"@, "infra/redis/mod.rs.tmpl"@, 6);
    lemma_differ_at("infra/db/connection.rs.tmpl"@, "infra/redis/connection.rs.tmpl"@, 6);
    lemma_differ_at("infra/redis/mod.rs.tmpl"@, "infra/redis/connection.rs.tmpl"@, 12);
    let core_t = job_templates(core_project_jobs(dir));
    assert forall|i: int| 0 <= i < core_t.len() implies #[trigger] core_t[i].len() > 0 && core_t[i][0] != 'i' by {
        if i == 0 {
            assert(core_t[0] == "project/Cargo.toml.tmpl"@);
        } else if i == 1 {
            assert(core_t[1] == "project/dot_env.tmpl"@);
        } else if i == 2 {
            assert(core_t[2] == "project/gitignore.tmpl"@);
        } else if i == 3 {
            assert(core_t[3] == "project/src/main.rs.tmpl"@);
        } else if i == 4 {
            assert(core_t[4] == "project/src/app_state.rs.tmpl"@);
        } else if i == 5 {
            assert(core_t[5] == "project/src/config/mod.rs.tmpl"@);
        } else if i == 6 {
            assert(core_t[6] == "project/src/config/settings.rs.tmpl"@);
        } else if i == 7 {
            assert(core_t[7] == "project/src/shared/mod.rs.tmpl"@);
        } else if i == 8 {
            assert(core_t[8] == "project/src/shared/errors.rs.tmpl"@);
        } else if i == 9 {
            assert(core_t[9] == "project/src/modules/mod.rs.tmpl"@);
        } else if i == 10 {
            assert(core_t[10] == "project/src/modules/health/mod.rs.tmpl"@);
        } else if i == 11 {
            assert(core_t[11] == "project/src/modules/health/controller/mod.rs.tmpl"@);
        } else if i == 12 {
            assert(core_t[12] == "project/src/modules/health/service/mod.rs.tmpl"@);
        } else if i == 13 {
            assert(core_t[13] == "project/src/modules/health/repository/mod.rs.tmpl"@);
        } else if i == 14 {
            assert(core_t[14] == "project/src/modules/health/repository/implementation.rs.tmpl"@);
        } else if i == 15 {
            assert(core_t[15] == "project/src/modules/health/dto/mod.rs.tmpl"@);
        } else if i == 16 {
            assert(core_t[16] == "project/src/modules/health/schema/mod.rs.tmpl"@);
        }
    }
    let src = join_path(dir, "src"@);
    let e = Seq::<Seq<char>>::empty();
    let root = if infra_as_shared { e } else { e.push("infra/mod.rs.tmpl"@) };
    let dbp = if with_db { e.push("infra/db/mod.rs.tmpl"@).push("infra/db/connection.rs.tmpl"@) } else { e };
    let rp = if with_redis { e.push("infra/redis/mod.rs.tmpl"@).push("infra/redis/connection.rs.tmpl"@) } else { e };
    let infra_t = if with_db || with_redis { root + dbp + rp } else { e };
    let t = job_templates(project_jobs(dir, with_db, with_redis, infra_as_shared));
    assert(t =~= core_t + infra_t);
    assert forall|a: Seq<Seq<char>>, b: Seq<Seq<char>>, x: Seq<char>|
        #[trigger] (a + b).contains(x) <==> (a.contains(x) || b.contains(x)) by {
        lemma_listed_in_concat(a, b, x);
    }
    assert forall|y: Seq<char>, x: Seq<char>| #[trigger] e.push(y).contains(x) <==> x == y by {
        if x == y {
            assert(e.push(y)[0] == x);
        }
    }
    assert forall|y: Seq<char>, z: Seq<char>, x: Seq<char>| #[trigger] e.push(y).push(z).contains(x) <==> (x == y || x == z) by {
        if x == y {
            assert(e.push(y).push(z)[0] == x);
        }
        if x == z {
            assert(e.push(y).push(z)[1] == x);
        }
    }
    lemma_not_listed_by_char(core_t, "infra/mod.rs.tmpl"@, 0, 'i');
    lemma_not_listed_by_char(core_t, "infra/db/mod.rs.tmpl"@, 0, 'i');
    lemma_not_listed_by_char(core_t, "infra/db/connection.rs.tmpl"@, 0, 'i');
    lemma_not_listed_by_char(core_t, "infra/redis/mod.rs.tmpl"@, 0, 'i');
    lemma_not_listed_by_char(core_t, "infra/redis/connection.rs.tmpl"@, 0, 'i');
    let jobs = project_jobs(dir, with_db, with_redis, infra_as_shared);
    if with_db {
        let dbd = join_path(src, if infra_as_shared { "shared/db"@ } else { "infra/db"@ });
        let k = 17 + if infra_as_shared { 0int } else { 1int };
        assert(jobs[k] == ("infra/db/mod.rs.tmpl"@, join_path(dbd, "mod.rs"@)));
        assert(jobs[k + 1] == ("infra/db/connection.rs.tmpl"@, join_path(dbd, "connection.rs"@)));
    }
}


/// Every variable of these templates has a plain name bound exactly once.
proof fn lemma_project_vars_bound(ctx: ProjectContext, text: Seq<(Seq<char>, Seq<char>)>, flags: Seq<(Seq<char>, bool)>)
    requires
        text == seq![("project_name"@, ctx.project_name@), ("ProjectName"@, ctx.project_name_pascal@)],
        flags == seq![("with_db"@, ctx.with_db), ("with_redis"@, ctx.with_redis), ("infra_as_shared"@, ctx.infra_as_shared)],
    ensures
        is_plain_variable("project_name"@) && text_binding(text, flags, "project_name"@, 0),
        is_plain_variable("ProjectName"@) && text_binding(text, flags, "ProjectName"@, 1),
        is_plain_variable("with_db"@) && flag_binding(text, flags, "with_db"@, 0),
        is_plain_variable("with_redis"@) && flag_binding(text, flags, "with_redis"@, 1),
        is_plain_variable("infra_as_shared"@) && flag_binding(text, flags, "infra_as_shared"@, 2),
{
    reveal_strlit("project_name");
    reveal_strlit("ProjectName");
    reveal_strlit("with_db");
    reveal_strlit("with_redis");
    reveal_strlit("infra_as_shared");
    reveal_strlit("True");
    reveal_strlit("False");
    reveal_strlit("None");
    assert forall|i: int| 0 <= i < "project_name"@.len() implies {
        let c = #[trigger] "project_name"@[i];
        c == '_' || ('a' <= c && c <= 'z') || ('A' <= c && c <= 'Z') || ('0' <= c && c <= '9')
    } by {
        if i == 0 {} else if i == 1 {} else if i == 2 {} else if i == 3 {} else if i == 4 {} else if i == 5 {} else if i == 6 {} else if i == 7 {} else if i == 8 {} else if i == 9 {} else if i == 10 {} else {}
    }
    assert("project_name"@[7] == '_');
    assert(is_plain_variable("project_name"@));
    assert forall|i: int| 0 <= i < "ProjectName"@.len() implies {
        let c = #[trigger] "ProjectName"@[i];
        c == '_' || ('a' <= c && c <= 'z') || ('A' <= c && c <= 'Z') || ('0' <= c && c <= '9')
    } by {
        if i == 0 {} else if i == 1 {} else if i == 2 {} else if i == 3 {} else if i == 4 {} else if i == 5 {} else if i == 6 {} else if i == 7 {} else if i == 8 {} else if i == 9 {} else {}
    }
    assert("ProjectName"@[0] == 'P');
    assert(is_plain_variable("ProjectName"@));
    assert forall|i: int| 0 <= i < "with_db"@.len() implies {
        let c = #[trigger] "with_db"@[i];
        c == '_' || ('a' <= c && c <= 'z') || ('A' <= c && c <= 'Z') || ('0' <= c && c <= '9')
    } by {
        if i == 0 {} else if i == 1 {} else if i == 2 {} else if i == 3 {} else if i == 4 {} else if i == 5 {} else {}
    }
    assert("with_db"@[4] == '_');
    assert(is_plain_variable("with_db"@));
    assert forall|i: int| 0 <= i < "with_redis"@.len() implies {
        let c = #[trigger] "with_redis"@[i];
        c == '_' || ('a' <= c && c <= 'z') || ('A' <= c && c <= 'Z') || ('0' <= c && c <= '9')
    } by {
        if i == 0 {} else if i == 1 {} else if i == 2 {} else if i == 3 {} else if i == 4 {} else if i == 5 {} else if i == 6 {} else if i == 7 {} else if i == 8 {} else {}
    }
    assert("with_redis"@[4] == '_');
    assert(is_plain_variable("with_redis"@));
    assert forall|i: int| 0 <= i < "infra_as_shared"@.len() implies {
        let c = #[trigger] "infra_as_shared"@[i];
        c == '_' || ('a' <= c && c <= 'z') || ('A' <= c && c <= 'Z') || ('0' <= c && c <= '9')
    } by {
        if i == 0 {} else if i == 1 {} else if i == 2 {} else if i == 3 {} else if i == 4 {} else if i == 5 {} else if i == 6 {} else if i == 7 {} else if i == 8 {} else if i == 9 {} else if i == 10 {} else if i == 11 {} else if i == 12 {} else if i == 13 {} else {}
    }
    assert("infra_as_shared"@[5] == '_');
    assert(is_plain_variable("infra_as_shared"@));
}

} // verus!
