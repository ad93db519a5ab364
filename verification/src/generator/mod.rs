//! Generators for projects, modules, controllers and services.
//!
//! Each generator turns its options, and what the caller found on disk, into a
//! plan: the templates to render and where to write them, and the lines to
//! insert at marker comments. Carrying out a plan is the caller's business.
use vstd::prelude::*;

use crate::paths::{count_char, is_relative, join, join_path, lemma_join_extends, lemma_prefix_trans, split_once_slash};

pub mod controller;
pub mod module;
pub mod project;
pub mod service;
pub mod updater;

verus! {

/// Render the template at `template` and write the result to `output`.
#[derive(Debug, Clone, PartialEq, Eq)]
pub struct RenderJob {
    pub template: String,
    pub output: String,
}

/// Insert `line` above `marker` in the file at `file`.
#[derive(Debug, Clone, PartialEq, Eq)]
pub struct MarkerInsertion {
    pub file: String,
    pub marker: String,
    pub line: String,
}

/// A render job by the characters of its template path and output path.
pub open spec fn job_view(j: RenderJob) -> (Seq<char>, Seq<char>) {
    (j.template@, j.output@)
}

/// Render jobs by their characters.
pub open spec fn jobs_view(jobs: Seq<RenderJob>) -> Seq<(Seq<char>, Seq<char>)> {
    jobs.map_values(|j: RenderJob| job_view(j))
}

/// The template paths of render jobs, in order.
pub open spec fn job_templates(jobs: Seq<(Seq<char>, Seq<char>)>) -> Seq<Seq<char>> {
    jobs.map_values(|j: (Seq<char>, Seq<char>)| j.0)
}

/// A marker insertion by the characters of its file, marker and line.
pub open spec fn insertion_view(m: MarkerInsertion) -> (Seq<char>, Seq<char>, Seq<char>) {
    (m.file@, m.marker@, m.line@)
}

/// Marker insertions by their characters.
pub open spec fn insertions_view(ms: Seq<MarkerInsertion>) -> Seq<(Seq<char>, Seq<char>, Seq<char>)> {
    ms.map_values(|m: MarkerInsertion| insertion_view(m))
}

/// The kind of component added to an existing module.
#[derive(PartialEq, Eq, Structural, Debug, Clone, Copy)]
pub enum ComponentKind {
    Controller,
    Service,
}

/// Why a generator refuses to run.
#[derive(Debug, Clone, PartialEq, Eq)]
pub enum GenerateError {
    /// The project directory (named here) already exists.
    DirectoryExists(String),
    /// There is no `src/modules` directory: not the root of a generated project.
    NotInProject,
    /// The module (name, directory) already exists.
    ModuleExists(String, String),
    /// The component path is not of the form `module_name/component_name`.
    InvalidComponentPath(ComponentKind),
    /// The module has no directory for this kind of component (the directory, the module).
    ComponentDirMissing(ComponentKind, String, String),
    /// The component (its name, the module) already exists.
    ComponentExists(ComponentKind, String, String),
}

/// A component to add to a module, located from its `module_name/component_name` path.
#[derive(Debug, Clone, PartialEq, Eq)]
pub struct ComponentTarget {
    pub module_name: String,
    pub component_name: String,
    /// The module's directory for this kind of component.
    pub dir: String,
    /// The file the component is written to.
    pub output_file: String,
}

/// The sub-directory of a module that holds components of `kind`.
pub open spec fn component_subdir(kind: ComponentKind) -> Seq<char> {
    match kind {
        ComponentKind::Controller => "controller"@,
        ComponentKind::Service => "service"@,
    }
}

/// The directory of module `module_name` that holds components of `kind`.
pub open spec fn component_dir_path(module_name: Seq<char>, kind: ComponentKind) -> Seq<char> {
    join_path(join_path("src/modules"@, module_name), component_subdir(kind))
}

/// The file of component `name` of `kind` in module `module_name`.
pub open spec fn component_file_path(module_name: Seq<char>, name: Seq<char>, kind: ComponentKind) -> Seq<char> {
    join_path(component_dir_path(module_name, kind), name + ".rs"@)
}

/// The line declaring the sub-module `name`.
pub open spec fn declaration_line(name: Seq<char>) -> Seq<char> {
    "pub mod "@ + name + ";"@
}

/// `prefix`, then `name`, then `suffix`.
pub(crate) fn surround(prefix: &str, name: &str, suffix: &str) -> (s: String)
    ensures
        s@ == prefix@ + name@ + suffix@,
{
    let mut s = prefix.to_owned();
    s.append(name);
    s.append(suffix);
    s
}

/// Locate the component of `kind` named by `path`, which must be of the form
/// `module_name/component_name` (exactly one `/`).
pub fn component_target(path: &str, kind: ComponentKind) -> (r: Result<ComponentTarget, GenerateError>)
    ensures
        r is Ok <==> count_char(path@, '/') == 1,
        r is Err ==> (r matches Err(GenerateError::InvalidComponentPath(k)) && k == kind),
        r matches Ok(t) ==> {
            &&& t.module_name@ + seq!['/'] + t.component_name@ == path@
            &&& !t.module_name@.contains('/')
            &&& !t.component_name@.contains('/')
            &&& t.dir@ == component_dir_path(t.module_name@, kind)
            &&& t.output_file@ == component_file_path(t.module_name@, t.component_name@, kind)
        },
{
    match split_once_slash(path) {
        None => Err(GenerateError::InvalidComponentPath(kind)),
        Some((module_name, component_name)) => {
            let module_dir = join("src/modules", module_name.as_str());
            let subdir = match kind {
                ComponentKind::Controller => "controller",
                ComponentKind::Service => "service",
            };
            assert(subdir@ == component_subdir(kind));
            let dir = join(module_dir.as_str(), subdir);
            let mut file_name = component_name.clone();
            file_name.append(".rs");
            let output_file = join(dir.as_str(), file_name.as_str());
            Ok(ComponentTarget { module_name, component_name, dir, output_file })
        },
    }
}

/// A component named by a valid path is written inside its module's directory
/// for that kind of component, which lies inside `src/modules`.
pub proof fn lemma_component_file_inside_module(module_name: Seq<char>, name: Seq<char>, kind: ComponentKind)
    requires
        !module_name.contains('/'),
        !name.contains('/'),
    ensures
        component_dir_path(module_name, kind).is_prefix_of(component_file_path(module_name, name, kind)),
        "src/modules"@.is_prefix_of(component_file_path(module_name, name, kind)),
{
    reveal_strlit("controller");
    reveal_strlit("service");
    reveal_strlit(".rs");
    if module_name.len() > 0 {
        assert(!is_relative(module_name) ==> module_name.contains('/'));
    }
    let file_name = name + ".rs"@;
    if name.len() > 0 {
        assert(file_name[0] == name[0]);
        assert(!is_relative(file_name) ==> name.contains('/'));
    } else {
        assert(file_name =~= ".rs"@);
    }
    let module_dir = join_path("src/modules"@, module_name);
    let dir = component_dir_path(module_name, kind);
    lemma_join_extends("src/modules"@, module_name);
    lemma_join_extends(module_dir, component_subdir(kind));
    lemma_join_extends(dir, file_name);
    lemma_prefix_trans("src/modules"@, module_dir, dir);
    lemma_prefix_trans("src/modules"@, dir, component_file_path(module_name, name, kind));
}

pub(crate) fn render_job(template: &str, output: String) -> (j: RenderJob)
    ensures
        j.template@ == template@,
        j.output == output,
{
    RenderJob { template: template.to_owned(), output }
}

} // verus!
